use serde_yaml::Value;
use tinycloudinit::config::{
    accept_base64, decode_content, parse_mode, CloudConfig, Cmd, GrowMode, GrowpartCfg, Groups,
    MetaData, PermVal, ResizeVal, SudoVal, UserEntry, UserSpec, WriteFile,
};

#[test]
fn groups_list_form() {
    let names: Vec<String> = serde_yaml::from_str("[wheel, adm]").unwrap();
    let g = Groups::List(names);
    assert_eq!(g.joined(), "wheel,adm");
}

#[test]
fn decode_plain_and_b64() {
    assert_eq!(decode_content("hi", None).unwrap(), b"hi");
    assert_eq!(decode_content("aGVs\nbG8=", Some("b64")).unwrap(), b"hello");
    assert!(decode_content("x", Some("gzip")).is_err());
    assert!(decode_content("!!!", Some("b64")).is_err());
}

#[test]
fn parse_mode_variants() {
    assert_eq!(parse_mode(None).unwrap(), 0o644);
    assert_eq!(parse_mode(Some(&PermVal::Str("0o755".into()))).unwrap(), 0o755);
    assert!(parse_mode(Some(&PermVal::Str("9z".into()))).is_err());
}

fn text(v: &Value) -> String {
    v.as_str().unwrap().to_string()
}

fn opt(v: &Value, key: &str) -> Option<String> {
    v.get(key).and_then(Value::as_str).map(str::to_string)
}

fn texts(v: Option<&Value>) -> Vec<String> {
    match v.and_then(Value::as_sequence) {
        Some(s) => s.iter().map(text).collect(),
        None => Vec::new(),
    }
}

fn user(v: &Value) -> UserEntry {
    match v.as_str() {
        Some(n) => UserEntry::Name(n.to_string()),
        None => UserEntry::Spec(UserSpec {
            name: opt(v, "name").unwrap_or_default(),
            gecos: opt(v, "gecos"),
            shell: opt(v, "shell"),
            homedir: opt(v, "homedir"),
            groups: opt(v, "groups").map(Groups::Str),
            sudo: opt(v, "sudo").map(SudoVal::Line),
            passwd: opt(v, "passwd"),
            lock_passwd: v.get("lock_passwd").and_then(Value::as_bool),
            system: v.get("system").and_then(Value::as_bool),
            ssh_authorized_keys: texts(v.get("ssh_authorized_keys")),
        }),
    }
}

fn file(v: &Value) -> WriteFile {
    WriteFile {
        path: opt(v, "path").unwrap_or_default(),
        content: opt(v, "content").unwrap_or_default(),
        encoding: opt(v, "encoding"),
        permissions: v.get("permissions").map(|p| match p.as_u64() {
            Some(n) => PermVal::Num(n as u32),
            None => PermVal::Str(text(p)),
        }),
        owner: opt(v, "owner"),
        append: v.get("append").and_then(Value::as_bool).unwrap_or(false),
    }
}

fn command(v: &Value) -> Cmd {
    match v.as_str() {
        Some(s) => Cmd::Shell(s.to_string()),
        None => Cmd::Argv(texts(Some(v))),
    }
}

#[test]
fn parse_full_cloud_config() {
    let yaml = r#"#cloud-config
hostname: node1
fqdn: node1.g8.lo
manage_etc_hosts: true
users:
  - default
  - name: glenn
    gecos: Glenn
    shell: /bin/bash
    groups: wheel,adm
    sudo: "ALL=(ALL) NOPASSWD:ALL"
    lock_passwd: false
    passwd: "$6$abc$hash"
    ssh_authorized_keys:
      - ssh-ed25519 AAAA key1
ssh_authorized_keys:
  - ssh-ed25519 BBBB rootkey
write_files:
  - path: /etc/motd
    content: hello
    permissions: '0600'
  - path: /etc/blob
    content: aGVsbG8=
    encoding: b64
    permissions: 0644
    append: true
runcmd:
  - echo one
  - [systemctl, enable, chronyd]
final_message: done
"#;
    let v: Value = serde_yaml::from_str(yaml).unwrap();
    let c = CloudConfig {
        hostname: opt(&v, "hostname"),
        fqdn: opt(&v, "fqdn"),
        manage_etc_hosts: v.get("manage_etc_hosts").and_then(Value::as_bool),
        users: v["users"].as_sequence().unwrap().iter().map(user).collect(),
        ssh_authorized_keys: texts(v.get("ssh_authorized_keys")),
        write_files: v["write_files"].as_sequence().unwrap().iter().map(file).collect(),
        runcmd: v["runcmd"].as_sequence().unwrap().iter().map(command).collect(),
        final_message: opt(&v, "final_message"),
        growpart: None,
        resize_rootfs: None,
    };
    assert_eq!(c.hostname.as_deref(), Some("node1"));
    assert_eq!(c.users.len(), 2);
    match &c.users[0] {
        UserEntry::Name(n) => assert_eq!(n, "default"),
        _ => panic!("expected name entry"),
    }
    match &c.users[1] {
        UserEntry::Spec(u) => {
            assert_eq!(u.name, "glenn");
            assert_eq!(u.groups.as_ref().unwrap().joined(), "wheel,adm");
            assert!(matches!(u.sudo, Some(SudoVal::Line(_))));
            assert_eq!(u.ssh_authorized_keys.len(), 1);
        }
        _ => panic!("expected spec entry"),
    }
    assert_eq!(c.write_files.len(), 2);
    assert_eq!(parse_mode(c.write_files[0].permissions.as_ref()).unwrap(), 0o600);
    // bare 0644 is YAML octal
    assert_eq!(parse_mode(c.write_files[1].permissions.as_ref()).unwrap(), 0o644);
    assert!(c.write_files[1].append);
    assert_eq!(c.runcmd.len(), 2);
    assert!(matches!(c.runcmd[0], Cmd::Shell(_)));
    assert!(matches!(c.runcmd[1], Cmd::Argv(_)));
}

#[test]
fn groups_string_form_drops_empty_names() {
    assert_eq!(Groups::Str("wheel, adm,,  users ".into()).joined(), "wheel,adm,users");
    assert_eq!(Groups::Str(" , ".into()).joined(), "");
    assert_eq!(Groups::List(Vec::new()).joined(), "");
    // a list is taken as it stands
    assert_eq!(Groups::List(vec!["a b".into(), "".into()]).joined(), "a b,");
}

#[test]
fn joining_groups_again_changes_nothing() {
    for s in ["", " ,, ", "a", ",a, b,,c ", "wheel adm  wheel"] {
        let r = Groups::Str(s.into()).joined();
        assert!(!r.contains(' ') && !r.contains(",,"));
        assert!(!r.starts_with(',') && !r.ends_with(','));
        assert_eq!(Groups::Str(r.clone()).joined(), r);
    }
}

#[test]
fn groups_string_and_list_mean_the_same() {
    let names = vec!["wheel".to_string(), "adm".to_string(), "docker".to_string()];
    assert_eq!(Groups::Str(names.join(",")).joined(), Groups::List(names).joined());
}

#[test]
fn mode_errors_name_the_value() {
    let err = |s: &str| parse_mode(Some(&PermVal::Str(s.into()))).unwrap_err();
    assert_eq!(err("9z"), "invalid permissions '9z': invalid digit found in string");
    assert_eq!(err("0o"), "invalid permissions '0o': cannot parse integer from empty string");
    assert_eq!(
        err("77777777777777"),
        "invalid permissions '77777777777777': number too large to fit in target type"
    );
    assert_eq!(parse_mode(Some(&PermVal::Str("  0644 \n".into()))).unwrap(), 0o644);
    assert_eq!(parse_mode(Some(&PermVal::Num(420))).unwrap(), 0o644);
}

#[test]
fn octal_modes_read_back() {
    for mode in [0u32, 7, 0o644, 0o7777, u32::MAX] {
        assert_eq!(parse_mode(Some(&PermVal::Str(format!("{mode:o}")))).unwrap(), mode);
    }
}

#[test]
fn content_errors_are_exact() {
    assert_eq!(
        decode_content("x", Some("gzip")).unwrap_err(),
        "unsupported write_files encoding 'gzip'"
    );
    let e = decode_content("!!!", Some("base64")).unwrap_err();
    assert!(e.starts_with("invalid base64 content: "), "{e}");
    assert_eq!(accept_base64(Err("odd".into())).unwrap_err(), "invalid base64 content: odd");
    assert_eq!(accept_base64(Ok(vec![1, 2])).unwrap(), vec![1, 2]);
    assert_eq!(decode_content("a b", Some("")).unwrap(), b"a b");
    assert_eq!(decode_content("a b", Some("text/plain")).unwrap(), b"a b");
    assert_eq!(decode_content("grüße", None).unwrap(), "grüße".as_bytes());
    // padding is required
    assert!(decode_content("aGVsbG8", Some("b64")).is_err());
}

#[test]
fn growing_and_resizing_are_on_by_default() {
    let c = CloudConfig::default();
    assert!(c.resize_rootfs_enabled());
    for (v, on) in [
        (ResizeVal::Flag(false), false),
        (ResizeVal::Flag(true), true),
        (ResizeVal::Word("noblock".into()), true),
    ] {
        let c = CloudConfig { resize_rootfs: Some(v), ..Default::default() };
        assert_eq!(c.resize_rootfs_enabled(), on);
    }
    assert!(!GrowpartCfg::default().is_off());
    for (mode, off) in [
        (GrowMode::Flag(false), true),
        (GrowMode::Flag(true), false),
        (GrowMode::Word("off".into()), true),
        (GrowMode::Word("auto".into()), false),
    ] {
        assert_eq!(GrowpartCfg { mode: Some(mode), devices: Vec::new() }.is_off(), off);
    }
    assert!(MetaData::default().instance_id.is_none());
}

#[test]
fn blanks_in_base64_are_dropped() {
    for c in ["aGVsbG8=", " a G V s bG8=\n", "aGVs\u{3000}\tbG8=\r\n"] {
        for e in ["b64", "base64"] {
            assert_eq!(decode_content(c, Some(e)).unwrap(), b"hello");
        }
    }
}

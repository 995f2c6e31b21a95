use std::collections::HashMap;
use tinycloudinit::accounts::{file_owner, group_id, passwd_entry};
use tinycloudinit::apply::{
    apply, apply_cloud_config, apply_hostname, apply_user, chpasswd, request_keys, run_cmd,
    run_user_script, store_file, write_etc_hosts, write_file, write_sudoers, Step,
};
use tinycloudinit::config::{
    CloudConfig, Cmd, Groups, MetaData, PermVal, SudoVal, UserEntry, UserSpec, WriteFile,
};
use tinycloudinit::datasource::Seed;
use tinycloudinit::effect::{run_tool, Effect};
use tinycloudinit::ssh_keys::{authorized_keys_path, install_ssh_keys, merge_keys};
use tinycloudinit::steps::step_effects;
use tinycloudinit::Ctx;

fn ctx(dry_run: bool) -> Ctx {
    Ctx { dry_run, state_dir: "/var/lib/tci".into() }
}

/// What the effects would do to a system, in words.
fn shown(list: &[Effect]) -> Vec<String> {
    list.iter()
        .map(|e| match e {
            Effect::Say(t) => format!("say {t}"),
            Effect::Warn(t) => format!("warn {t}"),
            Effect::Run(c) => format!(
                "run [{}] {:?} / {} / {} / {:?} / {}",
                c.program, c.args, c.start_context, c.exit_name, c.success, c.fatal
            ),
            Effect::SetPassword { input, exit_name, success } => {
                format!("password {input:?} / {exit_name} / {success}")
            }
            Effect::SetHostname(n) => format!("sethostname {n}"),
            Effect::MakeDir { path, label } => format!("mkdir {path} ({label})"),
            Effect::MakeParent(p) => format!("mkparent {p}"),
            Effect::Write { path, data } => {
                format!("write {path} {:?}", String::from_utf8_lossy(data))
            }
            Effect::Append { path, data } => {
                format!("append {path} {:?}", String::from_utf8_lossy(data))
            }
            Effect::Chmod { path, mode } => format!("chmod {path} {mode:o}"),
            Effect::Chown { path, uid, gid } => format!("chown {path} {uid}:{gid}"),
            Effect::Own { path, owner } => format!("own {path} {owner}"),
            Effect::InstallKeys { user, keys } => format!("keys {user} {keys:?}"),
        })
        .collect()
}

/// Performs the effects that write files, on files in memory.
fn perform(files: &mut HashMap<String, Vec<u8>>, list: &[Effect]) {
    for e in list {
        match e {
            Effect::Write { path, data } => {
                files.insert(path.clone(), data.clone());
            }
            Effect::Append { path, data } => {
                files.entry(path.clone()).or_default().extend_from_slice(data);
            }
            _ => {}
        }
    }
}

#[test]
fn write_file_plain_and_append() {
    let mut files = HashMap::new();
    let target = "/tmp/tci/sub/hello.txt";
    let f = WriteFile { path: target.into(), content: "one\n".into(), ..Default::default() };
    perform(&mut files, &write_file(&f, &ctx(false)).unwrap());
    let f2 = WriteFile { append: true, content: "two\n".into(), ..f.clone() };
    perform(&mut files, &write_file(&f2, &ctx(false)).unwrap());
    assert_eq!(files[target], b"one\ntwo\n");
}

#[test]
fn dry_run_makes_no_changes() {
    let mut files = HashMap::new();
    let target = "/tmp/tci/never.txt";
    let f = WriteFile { path: target.into(), content: "x".into(), ..Default::default() };
    perform(&mut files, &write_file(&f, &ctx(true)).unwrap());
    assert!(!files.contains_key(target));
}

#[test]
fn files_are_written_with_mode_and_owner() {
    let f = WriteFile {
        path: "/etc/motd".into(),
        content: "aGk=".into(),
        encoding: Some("b64".into()),
        permissions: Some(PermVal::Str("0600".into())),
        owner: Some("ann:staff".into()),
        append: false,
    };
    assert_eq!(
        shown(&write_file(&f, &ctx(false)).unwrap()),
        vec![
            "mkparent /etc/motd",
            "write /etc/motd \"hi\"",
            "chmod /etc/motd 600",
            "own /etc/motd ann:staff",
            "say tinycloudinit: wrote /etc/motd (2 bytes)",
        ]
    );
    assert_eq!(
        shown(&write_file(&f, &ctx(true)).unwrap()),
        vec!["say DRY: would write /etc/motd (2 bytes, mode 600)"]
    );
}

#[test]
fn files_are_refused() {
    let f = WriteFile::default();
    assert_eq!(write_file(&f, &ctx(true)).unwrap_err(), "write_files entry without path");
    let f = WriteFile { path: "/x".into(), encoding: Some("gz".into()), ..Default::default() };
    for dry in [false, true] {
        assert_eq!(
            write_file(&f, &ctx(dry)).unwrap_err(),
            "unsupported write_files encoding 'gz'"
        );
    }
    let f = WriteFile {
        path: "/x".into(),
        permissions: Some(PermVal::Str("rw".into())),
        ..Default::default()
    };
    assert_eq!(
        write_file(&f, &ctx(false)).unwrap_err(),
        "invalid permissions 'rw': invalid digit found in string"
    );
    // the content comes first
    assert_eq!(store_file(&f, Err("bad".into()), &ctx(false)).unwrap_err(), "bad");
}

const PASSWD: &str = "root:x:0:0:root:/root:/bin/bash\n\
short:x:5\n\
ann:x:1000:1001:Ann:/home/ann/:/bin/sh\n\
odd:x:one:1001::/home/odd:/bin/sh\n\
odd:x:7:7::/home/odd:/bin/sh\n";
const GROUP: &str = "root:x:0:\nstaff:x:50:ann\nbad:x:z:\n";

#[test]
fn accounts_are_looked_up() {
    let a = passwd_entry(Some(PASSWD), "ann").unwrap();
    assert_eq!((a.uid, a.gid, a.home.as_str()), (1000, 1001, "/home/ann/"));
    assert_eq!(passwd_entry(Some(PASSWD), "root").unwrap().uid, 0);
    assert!(passwd_entry(Some(PASSWD), "short").is_none());
    // the first line with the name decides
    assert!(passwd_entry(Some(PASSWD), "odd").is_none());
    assert!(passwd_entry(None, "root").is_none());
    assert_eq!(group_id(Some(GROUP), "staff"), Some(50));
    assert_eq!(group_id(Some(GROUP), "bad"), None);
    assert_eq!(group_id(Some(GROUP), "none"), None);
    assert_eq!(group_id(None, "staff"), None);
}

#[test]
fn owners_are_looked_up() {
    let own = |o: &str| file_owner("/f", o, Some(PASSWD), Some(GROUP));
    assert_eq!(shown(&[own("ann").unwrap()]), vec!["chown /f 1000:1001"]);
    assert_eq!(shown(&[own("ann:").unwrap()]), vec!["chown /f 1000:1001"]);
    assert_eq!(shown(&[own("ann:staff").unwrap()]), vec!["chown /f 1000:50"]);
    assert_eq!(own("bob:staff").unwrap_err(), "write_files owner 'bob' not found");
    assert_eq!(own("ann:x:y").unwrap_err(), "write_files group 'x:y' not found");
}

#[test]
fn user_data_is_recognized_by_its_beginning() {
    let steps = |d: Option<&str>| {
        apply(&Seed {
            source: "s".into(),
            meta_data: String::new(),
            user_data: d.map(str::to_string),
        })
    };
    assert_eq!(steps(Some("\n #cloud-config\na: 1")), vec![Step::CloudConfig]);
    assert_eq!(steps(Some("#!/bin/sh\n")), vec![Step::Grow, Step::Hostname, Step::Script]);
    assert_eq!(steps(Some("hello")), vec![Step::Unrecognized, Step::Grow, Step::Hostname]);
    assert_eq!(steps(Some(" \n\t")), vec![Step::Grow, Step::Hostname]);
    assert_eq!(steps(None), vec![Step::Grow, Step::Hostname]);
}

fn full_config() -> CloudConfig {
    CloudConfig {
        hostname: None,
        fqdn: Some("node1.g8.lo".into()),
        manage_etc_hosts: Some(true),
        users: vec![
            UserEntry::Name("default".into()),
            UserEntry::Spec(UserSpec {
                name: "ann".into(),
                ssh_authorized_keys: vec!["k1".into()],
                ..Default::default()
            }),
        ],
        ssh_authorized_keys: vec!["rk".into()],
        write_files: vec![WriteFile { path: "/f".into(), ..Default::default() }],
        runcmd: vec![Cmd::Shell("echo".into()), Cmd::Argv(Vec::new())],
        final_message: Some("done".into()),
        growpart: None,
        resize_rootfs: None,
    }
}

#[test]
fn configuration_steps_in_order() {
    assert_eq!(
        apply_cloud_config(&full_config()),
        vec![
            Step::Grow,
            Step::Hostname,
            Step::Hosts,
            Step::User(0),
            Step::User(1),
            Step::RootKeys,
            Step::File(0),
            Step::Command(0),
            Step::Command(1),
            Step::FinalMessage,
        ]
    );
    assert_eq!(apply_cloud_config(&CloudConfig::default()), vec![Step::Grow, Step::Hostname]);
    let c = CloudConfig { manage_etc_hosts: Some(false), ..Default::default() };
    assert_eq!(apply_cloud_config(&c), vec![Step::Grow, Step::Hostname]);
}

#[test]
fn steps_have_their_effects() {
    let c = full_config();
    let meta = MetaData::default();
    let mut all = Vec::new();
    for step in apply_cloud_config(&c) {
        if step != Step::Grow {
            assert!(step.fits(Some(&c)));
            let list = step_effects(step, Some(&c), "", &meta, &ctx(true), Some(PASSWD)).unwrap();
            all.extend(shown(&list));
        }
    }
    assert_eq!(
        all,
        vec![
            "say DRY: would set hostname to 'node1'",
            "say DRY: would write /etc/hosts for node1.g8.lo",
            "say tinycloudinit: users: 'default' entry ignored (no default user concept)",
            "say tinycloudinit: user 'ann' already exists",
            "say DRY: would install 1 ssh key(s) for 'ann'",
            "say DRY: would install 1 ssh key(s) for 'root'",
            "say DRY: would write /f (0 bytes, mode 644)",
            "say DRY: runcmd[0]: /bin/sh -c echo",
            "say done",
        ]
    );
    assert!(!Step::Grow.fits(Some(&c)));
    assert!(!Step::User(2).fits(Some(&c)));
    assert!(!Step::User(0).fits(None));
    assert!(Step::Script.fits(None));
    let list = step_effects(Step::Unrecognized, None, "x", &meta, &ctx(false), None).unwrap();
    assert_eq!(
        shown(&list),
        vec!["say tinycloudinit: unrecognized user-data format; ignoring"]
    );
}

#[test]
fn hostnames_are_chosen_and_trimmed() {
    let meta = MetaData { instance_id: None, local_hostname: Some(" meta \n".into()) };
    let none = MetaData::default();
    let name = |h: Option<&str>, f: Option<&str>, m: &MetaData| {
        shown(&apply_hostname(h, f, m, &ctx(false)))
    };
    assert_eq!(
        name(Some("h"), Some("f.x"), &meta),
        vec![
            "write /etc/hostname \"h\\n\"",
            "sethostname h",
            "say tinycloudinit: hostname set to 'h'",
        ]
    );
    assert_eq!(name(None, Some("f.x.y"), &meta)[1], "sethostname f");
    assert_eq!(name(None, Some("plain"), &meta)[1], "sethostname plain");
    assert_eq!(name(None, None, &meta)[1], "sethostname meta");
    assert!(name(None, None, &none).is_empty());
    // a blank name is chosen, and then nothing is done
    assert!(name(Some(" "), Some("f.x"), &meta).is_empty());
}

#[test]
fn hosts_file_is_exact() {
    let c = full_config();
    assert_eq!(
        shown(&write_etc_hosts(&c, &MetaData::default(), &ctx(false))),
        vec![
            "write /etc/hosts \"127.0.0.1   localhost localhost.localdomain\\n::1         localhost localhost.localdomain\\n127.0.1.1   node1.g8.lo node1\\n\""
        ]
    );
    let bare = CloudConfig::default();
    assert_eq!(
        shown(&write_etc_hosts(&bare, &MetaData::default(), &ctx(true))),
        vec!["say DRY: would write /etc/hosts for localhost"]
    );
}

#[test]
fn users_are_created_with_all_options() {
    let spec = UserSpec {
        name: "bob".into(),
        gecos: Some("Bob B".into()),
        shell: Some("/bin/zsh".into()),
        homedir: Some("/h".into()),
        groups: Some(Groups::Str("a b".into())),
        sudo: Some(SudoVal::Line("ALL".into())),
        passwd: Some("$6$x".into()),
        lock_passwd: Some(false),
        system: None,
        ssh_authorized_keys: vec!["k".into()],
    };
    assert_eq!(
        shown(&apply_user(&UserEntry::Spec(spec), Some(PASSWD), &ctx(false))),
        vec![
            "run [useradd] [\"-m\", \"-c\", \"Bob B\", \"-s\", \"/bin/zsh\", \"-d\", \"/h\", \"-G\", \"a,b\", \"bob\"] / failed to run useradd / useradd -m -c Bob B -s /bin/zsh -d /h -G a,b bob / None / true",
            "password \"bob:$6$x\\n\" / chpasswd -e for 'bob' / tinycloudinit: password set for 'bob'",
            "run [usermod] [\"-U\", \"bob\"] / failed to run usermod / usermod -U bob / None / true",
            "mkdir /etc/sudoers.d (/etc/sudoers.d)",
            "write /etc/sudoers.d/90-tinycloudinit-bob \"bob ALL\\n\"",
            "chmod /etc/sudoers.d/90-tinycloudinit-bob 440",
            "say tinycloudinit: sudoers rule installed for 'bob'",
            "keys bob [\"k\"]",
        ]
    );
}

#[test]
fn plain_users_are_created_plainly() {
    assert_eq!(
        shown(&apply_user(&UserEntry::Name("bob".into()), None, &ctx(true))),
        vec!["say DRY: useradd -m bob"]
    );
    let spec = UserSpec {
        name: "svc".into(),
        system: Some(true),
        groups: Some(Groups::Str(" , ".into())),
        sudo: Some(SudoVal::Enabled(true)),
        lock_passwd: Some(false),
        ..Default::default()
    };
    assert_eq!(
        shown(&apply_user(&UserEntry::Spec(spec), Some(PASSWD), &ctx(true))),
        vec!["say DRY: useradd --system svc"]
    );
    let unnamed = UserEntry::Spec(UserSpec::default());
    let ignored = vec!["say tinycloudinit: users: entry without name ignored"];
    assert_eq!(shown(&apply_user(&unnamed, None, &ctx(false))), ignored);
    assert_eq!(shown(&apply_user(&UserEntry::Name("".into()), None, &ctx(false))), ignored);
    // only a bare name stands for the default user
    let named = UserEntry::Spec(UserSpec { name: "default".into(), ..Default::default() });
    assert_eq!(shown(&apply_user(&named, None, &ctx(true))), vec!["say DRY: useradd -m default"]);
}

#[test]
fn sudoers_files_have_plain_names() {
    let rules = vec!["ALL=(ALL) ALL".to_string(), "NOPASSWD: /bin/ls".to_string()];
    assert_eq!(
        shown(&write_sudoers("../a.b/c-D_9é", &rules, &ctx(false))),
        vec![
            "mkdir /etc/sudoers.d (/etc/sudoers.d)",
            "write /etc/sudoers.d/90-tinycloudinit-abc-D_9 \"../a.b/c-D_9é ALL=(ALL) ALL\\n../a.b/c-D_9é NOPASSWD: /bin/ls\\n\"",
            "chmod /etc/sudoers.d/90-tinycloudinit-abc-D_9 440",
            "say tinycloudinit: sudoers rule installed for '../a.b/c-D_9é'",
        ]
    );
    assert_eq!(
        shown(&write_sudoers("bob", &rules, &ctx(true))),
        vec!["say DRY: would write /etc/sudoers.d/90-tinycloudinit-bob"]
    );
}

#[test]
fn passwords_and_keys_are_announced() {
    assert_eq!(
        shown(&[chpasswd("bob", "h", &ctx(true))]),
        vec!["say DRY: would set password hash for 'bob'"]
    );
    let keys = vec!["k".to_string(), "l".to_string()];
    assert_eq!(
        shown(&request_keys("bob", &keys, &ctx(true))),
        vec!["say DRY: would install 2 ssh key(s) for 'bob'"]
    );
    assert_eq!(shown(&request_keys("bob", &keys, &ctx(false))), vec!["keys bob [\"k\", \"l\"]"]);
    assert!(request_keys("bob", &Vec::new(), &ctx(false)).is_empty());
}

#[test]
fn keys_are_merged() {
    let keys: Vec<String> =
        [" new key ", "", "old", "new key", "third\n"].iter().map(|s| s.to_string()).collect();
    let mut content = "# mine\r\n  old  ".to_string();
    assert_eq!(merge_keys(&mut content, &keys), 2);
    assert_eq!(content, "# mine\r\n  old  \nnew key\nthird\n");
    let before = content.clone();
    assert_eq!(merge_keys(&mut content, &keys), 0);
    assert_eq!(content, before);
    let mut empty = String::new();
    assert_eq!(merge_keys(&mut empty, &keys), 3);
    assert_eq!(empty, "new key\nold\nthird\n");
}

#[test]
fn added_lines_are_distinct_and_new() {
    let old = "a\n b \r\nc";
    let keys: Vec<String> =
        ["d", " b", "d ", "c", "e\n", "\te", "a"].iter().map(|s| s.to_string()).collect();
    let mut content = old.to_string();
    assert_eq!(merge_keys(&mut content, &keys), 2);
    let lines: Vec<&str> = content.lines().collect();
    assert_eq!(lines[old.lines().count()..], ["d", "e"]);
}

#[test]
fn keys_are_installed_for_an_account() {
    let keys = vec!["k2".to_string(), "k1".to_string()];
    assert_eq!(
        authorized_keys_path(Some(PASSWD), "ann").unwrap(),
        "/home/ann/.ssh/authorized_keys"
    );
    assert_eq!(authorized_keys_path(Some(PASSWD), "bob"), None);
    assert_eq!(
        shown(&install_ssh_keys("ann", &keys, &ctx(false), Some(PASSWD), "k1").unwrap()),
        vec![
            "mkdir /home/ann/.ssh (/home/ann/.ssh)",
            "chmod /home/ann/.ssh 700",
            "write /home/ann/.ssh/authorized_keys \"k1\\nk2\\n\"",
            "chmod /home/ann/.ssh/authorized_keys 600",
            "chown /home/ann/.ssh 1000:1001",
            "chown /home/ann/.ssh/authorized_keys 1000:1001",
            "say tinycloudinit: installed 1 ssh key(s) for 'ann'",
        ]
    );
    assert_eq!(
        install_ssh_keys("bob", &keys, &ctx(false), Some(PASSWD), "").unwrap_err(),
        "user 'bob' not found for ssh keys"
    );
    // a dry run does not look the user up
    assert_eq!(
        shown(&install_ssh_keys("bob", &keys, &ctx(true), Some(PASSWD), "").unwrap()),
        vec!["say DRY: would install 2 ssh key(s) for 'bob'"]
    );
}

#[test]
fn commands_run_in_a_shell_or_directly() {
    assert_eq!(
        shown(&run_cmd(3, &Cmd::Shell("a && b".into()), &ctx(false))),
        vec![
            "say tinycloudinit: runcmd[3]: /bin/sh -c a && b",
            "run [/bin/sh] [\"-c\", \"a && b\"] / tinycloudinit: runcmd[3] failed to start / tinycloudinit: runcmd[3] / None / false",
        ]
    );
    let argv = Cmd::Argv(vec!["ls".into(), "-l".into(), "x y".into()]);
    assert_eq!(
        shown(&run_cmd(12, &argv, &ctx(true))),
        vec!["say DRY: runcmd[12]: ls -l x y"]
    );
    assert!(run_cmd(0, &Cmd::Argv(Vec::new()), &ctx(false)).is_empty());
    // without arguments a space remains
    assert_eq!(
        shown(&[run_tool(&ctx(true), "true", Vec::new())]),
        vec!["say DRY: true "]
    );
}

#[test]
fn scripts_are_stored_and_run() {
    assert_eq!(
        shown(&run_user_script("#!/bin/sh\nü\n", &ctx(false))),
        vec![
            "mkdir /var/lib/tci (state dir)",
            "write /var/lib/tci/user-script \"#!/bin/sh\\nü\\n\"",
            "chmod /var/lib/tci/user-script 700",
            "say tinycloudinit: running user-data script",
            "run [/var/lib/tci/user-script] [] / run user script / user-data script / None / true",
        ]
    );
    // bytes are counted, not characters
    assert_eq!(
        shown(&run_user_script("#!/bin/sh\nü\n", &ctx(true))),
        vec!["say DRY: would run user-data script (13 bytes)"]
    );
}

use tinycloudinit::boot::{applied, marker_read, meta_read, run, RunStep, Running};
use tinycloudinit::cli::{
    failure_line, help_text, parse_args, usage_error, version_line, Cli, Options,
};
use tinycloudinit::config::MetaData;
use tinycloudinit::datasource::{DsMode, Seed};
use tinycloudinit::effect::Effect;

fn parsed(args: &[&str]) -> Cli {
    parse_args(&args.iter().map(|s| s.to_string()).collect())
}

fn options(args: &[&str]) -> Options {
    match parsed(args) {
        Cli::Run(o) => o,
        other => panic!("{other:?}"),
    }
}

fn complaint(args: &[&str]) -> String {
    match parsed(args) {
        Cli::Usage(m) => m,
        other => panic!("{other:?}"),
    }
}

fn said(e: &Effect) -> String {
    match e {
        Effect::Say(t) => t.clone(),
        Effect::Warn(t) => format!("! {t}"),
        other => panic!("{other:?}"),
    }
}

#[test]
fn options_have_defaults() {
    let o = options(&[]);
    assert_eq!(o.seed_dir, None);
    assert_eq!(o.state_dir, "/var/lib/tinycloudinit");
    assert_eq!(o.mode, DsMode::Auto);
    assert!(!o.dry_run && !o.force);
}

#[test]
fn options_are_read_in_turn() {
    let o = options(&[
        "--seed", "/a", "--dry-run", "--datasource", "ec2", "--state-dir", "--force", "--seed",
        "/b", "--datasource", "nocloud", "--force",
    ]);
    assert_eq!(o.seed_dir.as_deref(), Some("/b"));
    assert_eq!(o.state_dir, "--force");
    assert_eq!(o.mode, DsMode::NoCloud);
    assert!(o.dry_run && o.force);
    assert_eq!(options(&["--datasource", "auto"]).mode, DsMode::Auto);
}

#[test]
fn other_requests_are_read() {
    match parsed(&["--grow", "/data", "--dry-run"]) {
        Cli::Grow(g) => {
            assert_eq!((g.target.as_str(), g.resize_fs, g.dry_run), ("/data", true, true))
        }
        other => panic!("{other:?}"),
    }
    assert!(matches!(parsed(&["--force", "-V", "--bogus"]), Cli::Version));
    assert!(matches!(parsed(&["--version"]), Cli::Version));
    assert!(matches!(parsed(&["-h"]), Cli::Help));
    assert!(matches!(parsed(&["--help"]), Cli::Help));
}

#[test]
fn complaints_are_exact() {
    assert_eq!(complaint(&["--seed"]), "--seed requires a directory");
    assert_eq!(complaint(&["--datasource"]), "--datasource requires a value");
    assert_eq!(complaint(&["--state-dir"]), "--state-dir requires a directory");
    assert_eq!(complaint(&["--grow"]), "--grow requires a mountpoint or partition device");
    assert_eq!(
        complaint(&["--datasource", "azure"]),
        "--datasource must be auto, nocloud or ec2 (got 'azure')"
    );
    assert_eq!(complaint(&["--dry-run", "x"]), "unknown argument: x");
    assert_eq!(said(&usage_error("x")), "! tinycloudinit: x");
    assert_eq!(said(&version_line("1.0.0")), "tinycloudinit 1.0.0");
    assert_eq!(said(&failure_line("bad")), "! tinycloudinit: error: bad");
}

#[test]
fn help_names_every_option() {
    let h = said(&help_text("1.0.0"));
    assert!(h.starts_with("tinycloudinit 1.0.0 — tiny cloud-init (NoCloud) for small images\n\nUSAGE:\n"));
    for o in ["--seed", "--datasource", "--grow", "--state-dir", "--dry-run", "--force", "-V", "-h"] {
        assert!(h.contains(o), "{o}");
    }
    assert!(h.contains("(default /var/lib/tinycloudinit)\n"));
    assert!(h.ends_with("    -h, --help          Print this help"));
}

fn seed(meta_data: &str) -> Seed {
    Seed { source: "/d".into(), meta_data: meta_data.into(), user_data: None }
}

fn meta(id: Option<&str>) -> MetaData {
    MetaData { instance_id: id.map(str::to_string), local_hostname: None }
}

/// The id that a run goes by once it waits for the seed to be applied.
fn applying(s: RunStep) -> Option<String> {
    match s.next {
        Running::Apply { meta, .. } => meta.instance_id,
        other => panic!("{other:?}"),
    }
}

fn over(s: RunStep) -> Result<(), String> {
    match s.next {
        Running::Over(r) => r,
        other => panic!("{other:?}"),
    }
}

#[test]
fn runs_once_per_instance() {
    let o = options(&["--state-dir", "/s"]);
    let first = marker_read(seed("x"), meta(Some("i-1")), None);
    assert!(first.effects.is_empty());
    assert_eq!(applying(first).as_deref(), Some("i-1"));
    let end = applied(&o, &meta(Some("i-1")), Ok(()), "1.0.0");
    let marker = match &end.effects[1] {
        Effect::Write { path, data } => {
            assert_eq!(path, "/s/instance-id");
            String::from_utf8(data.clone()).unwrap()
        }
        other => panic!("{other:?}"),
    };
    assert_eq!(marker, "i-1\n");
    assert!(
        matches!(&end.effects[0], Effect::MakeDir { path, label } if path == "/s" && label == "/s")
    );
    assert_eq!(said(&end.effects[2]), "tinycloudinit 1.0.0: instance 'i-1' initialized");
    assert!(over(end).is_ok());
    let second = marker_read(seed("x"), meta(Some("i-1")), Some(&marker));
    assert_eq!(
        said(&second.effects[0]),
        "tinycloudinit: instance 'i-1' already initialized; nothing to do"
    );
    assert!(over(second).is_ok());
    applying(marker_read(seed("x"), meta(Some("i-2")), Some(&marker)));
    // an id with white space around it is recorded as it is
    for id in [" i-1", "i-1\n", "\ti-1 "] {
        let own = format!("{id}\n");
        assert!(over(marker_read(seed("x"), meta(Some(id)), Some(&own))).is_ok());
        applying(marker_read(seed("x"), meta(Some(id)), Some(&marker)));
        applying(marker_read(seed("x"), meta(Some(id)), Some(&format!(" {own}"))));
        // around the record of another id it is left aside
        assert!(over(marker_read(seed("x"), meta(Some("i-1")), Some(&own))).is_ok());
    }
    // without an id there is a default
    assert!(over(marker_read(seed("x"), meta(None), Some("nocloud"))).is_ok());
}

#[test]
fn force_and_dry_run_do_not_look_for_a_record() {
    for flag in ["--force", "--dry-run"] {
        let o = options(&[flag]);
        assert_eq!(applying(run(&o, Ok(Some(seed(" \n"))))), None);
        assert_eq!(
            applying(meta_read(&o, seed("x"), Ok(meta(Some("i-1"))))).as_deref(),
            Some("i-1")
        );
    }
    match run(&options(&["--state-dir", "/s/"]), Ok(Some(seed("")))).next {
        Running::Marker { path, meta, .. } => {
            assert_eq!(path, "/s/instance-id");
            assert!(meta.instance_id.is_none());
        }
        other => panic!("{other:?}"),
    }
}

#[test]
fn runs_begin_with_the_search() {
    let o = options(&[]);
    let s = run(&o, Err("odd".into()));
    assert!(s.effects.is_empty());
    assert_eq!(over(s).unwrap_err(), "odd");
    let s = run(&o, Ok(None));
    assert_eq!(said(&s.effects[0]), "tinycloudinit: no datasource found; nothing to do");
    assert!(over(s).is_ok());
    let s = run(&o, Ok(Some(seed("a: 1"))));
    assert_eq!(said(&s.effects[0]), "tinycloudinit: datasource: /d");
    assert!(matches!(s.next, Running::Meta(_)));
}

#[test]
fn unreadable_meta_data_is_ignored() {
    let o = options(&[]);
    let s = meta_read(&o, seed("x"), Err("e".into()));
    assert_eq!(
        said(&s.effects[0]),
        "! tinycloudinit: warning: meta-data not parseable (e); ignoring"
    );
    assert!(matches!(s.next, Running::Marker { meta, .. } if meta.instance_id.is_none()));
}

#[test]
fn failed_and_dry_runs_leave_no_record() {
    let s = applied(&options(&[]), &meta(Some("i-1")), Err("bad".into()), "1.0.0");
    assert!(s.effects.is_empty());
    assert_eq!(over(s).unwrap_err(), "bad");
    let s = applied(&options(&["--dry-run"]), &meta(None), Ok(()), "1.0.0");
    assert_eq!(s.effects.len(), 1);
    assert_eq!(said(&s.effects[0]), "tinycloudinit 1.0.0: instance 'nocloud' initialized");
}

use tinycloudinit::datasource::{
    filesystem_types, find, find_block_device, labelled_devices, local_seed, mount_point,
    race_datasources, read_seed_dir, scan_block_devices, try_device, BlockEntry, DsMode, Probe,
    Race, RaceStep, Search, SearchStep, Seed, Wait,
};

fn seed(source: &str) -> Seed {
    Seed { source: source.into(), meta_data: "m".into(), user_data: None }
}

fn named(p: &Probe) -> String {
    match p {
        Probe::SeedDir(d) => format!("seed {d}"),
        Probe::LocalDir(d) => format!("local {d}"),
        Probe::Devices(w) => format!("devices {w}"),
        Probe::Imds(w) => format!("imds {w}"),
        Probe::Race(w) => format!("race {w}"),
    }
}

fn order(dir: Option<&str>, mode: DsMode) -> Vec<String> {
    find(dir, "/state", mode).iter().map(named).collect()
}

#[test]
fn search_order_by_mode() {
    assert_eq!(order(Some("/x"), DsMode::Ec2), vec!["seed /x"]);
    assert_eq!(order(None, DsMode::NoCloud), vec!["local /state/seed", "devices 10"]);
    assert_eq!(order(None, DsMode::Ec2), vec!["imds 30"]);
    assert_eq!(order(None, DsMode::Auto), vec!["local /state/seed", "devices 0", "race 10"]);
}

fn searched(answers: Vec<Result<Option<Seed>, String>>) -> (Vec<String>, Result<Option<Seed>, String>) {
    let mut asked = Vec::new();
    let mut answers = answers.into_iter();
    let mut step = Search::begin(None, "/state/", DsMode::Auto);
    loop {
        match step {
            SearchStep::Look(p, s) => {
                asked.push(named(&p));
                step = s.answer(answers.next().unwrap());
            }
            SearchStep::Over(r) => return (asked, r),
        }
    }
}

#[test]
fn first_answer_ends_a_search() {
    let (asked, r) = searched(vec![Ok(None), Ok(Some(seed("dev")))]);
    assert_eq!(asked, vec!["local /state/seed", "devices 0"]);
    assert_eq!(r.unwrap().unwrap().source, "dev");
    let (asked, r) = searched(vec![Err("odd".into())]);
    assert_eq!(asked.len(), 1);
    assert_eq!(r.unwrap_err(), "odd");
    let (asked, r) = searched(vec![Ok(None), Ok(None), Ok(None)]);
    assert_eq!(asked.len(), 3);
    assert!(r.unwrap().is_none());
}

fn waiting(s: RaceStep) -> Race {
    match s {
        RaceStep::Wait(r) => r,
        other => panic!("{other:?}"),
    }
}

#[test]
fn first_seed_wins_a_race() {
    assert!(matches!(
        race_datasources().answer(Some(Ok(Some(seed("a"))))),
        RaceStep::Won(s) if s.source == "a"
    ));
    let r = waiting(race_datasources().answer(Some(Err("mkdir".into()))));
    assert!(matches!(r.answer(Some(Ok(Some(seed("b"))))), RaceStep::Won(s) if s.source == "b"));
}

#[test]
fn race_without_a_seed() {
    let r = waiting(race_datasources().answer(Some(Err("one".into()))));
    match r.answer(Some(Err("two".into()))) {
        RaceStep::Over(Err(e)) => assert_eq!(e, "one"),
        other => panic!("{other:?}"),
    }
    let r = waiting(race_datasources().answer(Some(Ok(None))));
    assert!(matches!(r.answer(Some(Ok(None))), RaceStep::Over(Ok(None))));
    let r = waiting(race_datasources().answer(Some(Ok(None))));
    match r.answer(Some(Err("late".into()))) {
        RaceStep::Over(Err(e)) => assert_eq!(e, "late"),
        other => panic!("{other:?}"),
    }
    // the probes are gone
    assert!(matches!(race_datasources().answer(None), RaceStep::Over(Ok(None))));
}

#[test]
fn seed_directories_are_read() {
    let s = read_seed_dir("/d", Some("id".into()), Some("u".into())).unwrap();
    assert_eq!((s.source.as_str(), s.meta_data.as_str()), ("/d", "id"));
    assert_eq!(s.user_data.as_deref(), Some("u"));
    assert!(read_seed_dir("/d", None, Some("".into())).unwrap().meta_data.is_empty());
    let e = "seed directory /d has neither meta-data nor user-data";
    assert_eq!(read_seed_dir("/d", None, None).unwrap_err(), e);
    assert_eq!(read_seed_dir("/d", Some("".into()), None).unwrap_err(), e);
    assert!(local_seed("/d", false, Some("m".into()), None).unwrap().is_none());
    assert_eq!(local_seed("/d", true, None, None).unwrap_err(), e);
    assert_eq!(local_seed("/d", true, Some("m".into()), None).unwrap().unwrap().source, "/d");
}

#[test]
fn devices_are_waited_for() {
    assert!(matches!(find_block_device(Some(seed("d")), true, true), Wait::Found(_)));
    assert!(matches!(find_block_device(None, true, false), Wait::GiveUp));
    assert!(matches!(find_block_device(None, false, true), Wait::GiveUp));
    assert!(matches!(find_block_device(None, false, false), Wait::Sleep(500)));
}

fn tried(entries: &[(&str, &str)]) -> Vec<String> {
    scan_block_devices(
        &entries
            .iter()
            .map(|(n, s)| BlockEntry { name: n.to_string(), size: s.to_string() })
            .collect(),
    )
}

#[test]
fn devices_worth_a_try() {
    assert_eq!(
        labelled_devices(),
        vec!["/dev/disk/by-label/cidata", "/dev/disk/by-label/CIDATA"]
    );
    assert!(tried(&[]).is_empty());
    assert_eq!(filesystem_types(), vec!["iso9660", "vfat"]);
    let none = [
        ("loop0", "8"),
        ("ram1", "8"),
        ("zram0", "8"),
        ("dm-3", "8"),
        ("sr1", "0\n"),
        ("sr2", ""),
    ];
    assert!(tried(&none).is_empty());
    // a blank size is odd, but it is not zero
    let some = tried(&[("vdb", "2048\n"), ("loop0", "8"), ("sr0", "\n")]);
    assert_eq!(some, ["/dev/vdb", "/dev/sr0"]);
}

#[test]
fn device_seeds_name_their_device() {
    let s = try_device("/dev/sr0", "vfat", true, None, Some("u".into())).unwrap();
    assert_eq!(s.source, "/dev/sr0 (vfat)");
    assert_eq!(s.user_data.as_deref(), Some("u"));
    assert!(try_device("/dev/sr0", "vfat", false, Some("m".into()), None).is_none());
    assert!(try_device("/dev/sr0", "vfat", true, None, None).is_none());
    assert_eq!(mount_point(), "/run/tinycloudinit/mnt");
}

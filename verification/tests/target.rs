use std::path::Path;
use tinycloudinit::config::{CloudConfig, GrowMode, GrowpartCfg, GrowpartVal, ResizeVal};
use tinycloudinit::effect::{Command, Effect};
use tinycloudinit::growpart::GrowReport;
use tinycloudinit::target::{
    find_mount, is_sound, kernel_resize, partition_names, resize_filesystem, resolve_target, run,
    run_failed, standalone, sysfs_path, GrowJob, GrowPlan, KernelExtent, Mount, NextMove, Target,
};
use tinycloudinit::Ctx;

fn ctx(dry_run: bool) -> Ctx {
    Ctx { dry_run, state_dir: "/s".into() }
}

fn said(e: &Effect) -> &str {
    match e {
        Effect::Say(t) => t,
        other => panic!("{other:?}"),
    }
}

fn warned(e: &Effect) -> &str {
    match e {
        Effect::Warn(t) => t,
        other => panic!("{other:?}"),
    }
}

fn ran(e: &Effect) -> &Command {
    match e {
        Effect::Run(c) => c,
        other => panic!("{other:?}"),
    }
}

fn targets(p: GrowPlan) -> Vec<(String, bool, bool)> {
    match p {
        GrowPlan::Grow(list) => {
            list.into_iter().map(|r| (r.target, r.resize_fs, r.dry_run)).collect()
        }
        GrowPlan::Disabled(e) => panic!("{e:?}"),
    }
}

fn with(growpart: GrowpartVal) -> CloudConfig {
    CloudConfig { growpart: Some(growpart), ..Default::default() }
}

#[test]
fn root_is_grown_by_default() {
    let root = vec![("/".to_string(), true, false)];
    assert_eq!(targets(run(None, &ctx(false))), root);
    assert_eq!(targets(run(Some(&CloudConfig::default()), &ctx(false))), root);
    assert_eq!(targets(run(Some(&with(GrowpartVal::Enabled(true))), &ctx(false))), root);
    let empty = GrowpartCfg { mode: None, devices: Vec::new() };
    assert_eq!(targets(run(Some(&with(GrowpartVal::Cfg(empty))), &ctx(false))), root);
}

#[test]
fn configuration_chooses_what_to_grow() {
    let cfg = GrowpartCfg { mode: Some(GrowMode::Word("auto".into())), devices: vec!["/var".into(), "/dev/vdb1".into()] };
    let mut c = with(GrowpartVal::Cfg(cfg));
    c.resize_rootfs = Some(ResizeVal::Flag(false));
    assert_eq!(
        targets(run(Some(&c), &ctx(true))),
        vec![("/var".to_string(), false, true), ("/dev/vdb1".to_string(), false, true)]
    );
}

#[test]
fn configuration_turns_growing_off() {
    for v in [
        GrowpartVal::Enabled(false),
        GrowpartVal::Cfg(GrowpartCfg {
            mode: Some(GrowMode::Word("off".into())),
            devices: vec!["/".into()],
        }),
    ] {
        match run(Some(&with(v)), &ctx(false)) {
            GrowPlan::Disabled(e) => assert_eq!(said(&e), "tinycloudinit: growpart disabled"),
            other => panic!("{other:?}"),
        }
    }
    assert_eq!(warned(&run_failed("/", "odd")), "tinycloudinit: growpart /: odd");
    let r = standalone("/data", true);
    assert_eq!((r.target.as_str(), r.resize_fs, r.dry_run), ("/data", true, true));
}

const INFO: &str = "21 1 0:20 / /proc rw shared:5 - proc proc rw\n\
22 1 8:2 / / rw,relatime shared:1 master:3 - ext4 /dev/sda2 rw\n\
23 1 8:3 / /home rw - xfs /dev/sda3 rw\n\
24 1 8:4 / /odd rw - xfs\n\
25 1 8:5 / /nosep rw xfs /dev/sda5 rw\n";

#[test]
fn mounts_are_found_by_point_and_source() {
    let m = find_mount(INFO, "/").unwrap();
    assert_eq!((m.majmin.as_str(), m.mountpoint.as_str(), m.fstype.as_str()), ("8:2", "/", "ext4"));
    let m = find_mount(INFO, "/dev/sda3").unwrap();
    assert_eq!(
        (m.majmin.as_str(), m.mountpoint.as_str(), m.fstype.as_str()),
        ("8:3", "/home", "xfs")
    );
    assert!(find_mount(INFO, "/odd").is_none());
    assert!(find_mount(INFO, "/nosep").is_none());
    assert!(find_mount(INFO, "/none").is_none());
}

#[test]
fn sysfs_describes_mounts_and_devices() {
    let m = find_mount(INFO, "/");
    assert_eq!(sysfs_path("/", &m).unwrap(), "/sys/dev/block/8:2");
    assert_eq!(sysfs_path("/dev/vda1", &None).unwrap(), "/sys/class/block/vda1");
    assert_eq!(
        sysfs_path("/data", &None).unwrap_err(),
        "'/data' is not mounted and is not a device"
    );
}

#[test]
fn targets_are_resolved() {
    let m = find_mount(INFO, "/");
    let t = resolve_target("/sys/x/sda/sda2", Some("2\n"), m).unwrap();
    assert_eq!((t.disk.as_str(), t.partnum, t.partdev.as_str()), ("/dev/sda", 2, "/dev/sda2"));
    assert_eq!(t.mount.unwrap().fstype, "ext4");
    let err = |sys: &str, n: Option<&str>| resolve_target(sys, n, None).unwrap_err();
    assert_eq!(
        err("/sys/x", None),
        "/sys/x is not a partition (LVM/RAID/whole-disk roots are not supported)"
    );
    assert_eq!(err("/", Some("x")), "partition number: invalid digit found in string");
    assert_eq!(err("/", Some("1")), "bad sysfs path");
    assert_eq!(err("/sda1", Some("1")), "no parent disk in sysfs");
}

#[test]
fn names_are_those_of_std_paths() {
    for sys in [
        "", "/", ".", "..", "/a", "a", "./a", "../a", "a/..", "/a/b", "/a/b/", "/a//b/.", "/a/./b",
        "/a/../b", "/a/b/..", "//a", "/sys/devices/pci0/sda/sda2",
    ] {
        let p = Path::new(sys);
        let last = |p: &Path| p.file_name().map(|n| n.to_string_lossy().into_owned());
        assert_eq!(partition_names(sys), (last(p), p.parent().and_then(last)), "{sys}");
    }
}

fn report() -> GrowReport {
    GrowReport { partnum: 2, start: 2048, old_end: 4095, new_end: 4095 + 2 * 2048, sector: 512 }
}

fn job(resize_fs: bool, dry_run: bool, mounted: bool) -> GrowJob {
    let mut request = standalone("/", dry_run);
    request.resize_fs = resize_fs;
    let mount = if mounted {
        Some(Mount { majmin: "8:2".into(), mountpoint: "/".into(), fstype: "ext4".into() })
    } else {
        None
    };
    GrowJob::grow_target(
        request,
        Target { disk: "/dev/sda".into(), partnum: 2, partdev: "/dev/sda2".into(), mount },
    )
}

#[test]
fn growing_goes_from_probe_to_filesystem() {
    let j = job(true, false, true);
    let s = j.after_probe(Ok(Some(report()))).unwrap();
    assert!(s.effects.is_empty());
    let r = match s.next {
        NextMove::Commit(r) => r,
        other => panic!("{other:?}"),
    };
    let s = j.after_commit(r, Ok(Some(report()))).unwrap();
    assert_eq!(
        said(&s.effects[0]),
        "tinycloudinit: grew /dev/sda2 by 2 MiB (end 4095 -> 8191)"
    );
    assert!(matches!(s.next, NextMove::Notify(_)));
    let list = j.after_notify(None);
    assert_eq!(list.len(), 1);
    assert_eq!(ran(&list[0]).program, "resize2fs");
    let list = j.after_notify(Some("busy"));
    assert_eq!(
        warned(&list[0]),
        "tinycloudinit: growpart /: kernel not updated (busy); a reboot may be needed before the filesystem can grow"
    );
    assert_eq!(ran(&list[1]).program, "resize2fs");
}

#[test]
fn growing_stops_where_it_should() {
    let j = job(true, false, false);
    let s = j.after_probe(Ok(None)).unwrap();
    assert_eq!(
        said(&s.effects[0]),
        "tinycloudinit: growpart /: /dev/sda2 already fills /dev/sda"
    );
    assert!(matches!(s.next, NextMove::Finish));
    assert_eq!(j.after_probe(Err("no".into())).unwrap_err(), "no");
    assert_eq!(j.after_commit(report(), Err("full".into())).unwrap_err(), "full");
    assert_eq!(
        said(&j.after_notify(None)[0]),
        "tinycloudinit: growpart /: /dev/sda2 not mounted; skipping filesystem resize"
    );
    assert!(job(false, false, true).after_notify(None).is_empty());
}

#[test]
fn dry_run_of_growing_only_speaks() {
    let s = job(true, true, true).after_probe(Ok(Some(report()))).unwrap();
    assert_eq!(
        said(&s.effects[0]),
        "DRY: would grow /dev/sda2 (partition 2 of /dev/sda) by 2 MiB and resize the filesystem"
    );
    assert!(matches!(s.next, NextMove::Finish));
}

#[test]
fn kernel_is_told_bytes() {
    assert!(is_sound(&report()));
    assert_eq!(
        kernel_resize(&report()),
        KernelExtent { start: 1 << 20, length: 6144 * 512, pno: 2 }
    );
    // what the partition was before makes no difference
    assert_eq!(kernel_resize(&GrowReport { old_end: 9999, ..report() }).length, 6144 * 512);
    let empty = GrowReport { start: 0, new_end: u64::MAX, sector: 0, ..report() };
    assert_eq!(kernel_resize(&empty), KernelExtent { start: 0, length: 0, pno: 2 });
    assert!(!is_sound(&GrowReport { new_end: 4095, ..report() }));
    assert!(!is_sound(&GrowReport { sector: 0, ..report() }));
    assert!(!is_sound(&GrowReport { new_end: u64::MAX, ..report() }));
}

#[test]
fn filesystems_have_their_tools() {
    let line = |fs: &str| {
        let e = resize_filesystem("/dev/sda2", "/mnt", fs, false);
        let c = ran(&e);
        assert!(c.fatal);
        assert_eq!(c.start_context, format!("run {}", c.program));
        assert_eq!(c.exit_name, c.program);
        assert_eq!(
            c.success.as_deref().unwrap(),
            format!("tinycloudinit: filesystem on /dev/sda2 resized ({fs})")
        );
        format!("{} {}", c.program, c.args.join(" "))
    };
    assert_eq!(line("ext2"), "resize2fs /dev/sda2");
    assert_eq!(line("ext3"), "resize2fs /dev/sda2");
    assert_eq!(line("ext4"), "resize2fs /dev/sda2");
    assert_eq!(line("xfs"), "xfs_growfs /mnt");
    assert_eq!(line("btrfs"), "btrfs filesystem resize max /mnt");
    assert_eq!(
        said(&resize_filesystem("/dev/sda2", "/mnt", "zfs", false)),
        "tinycloudinit: growpart: no resize support for zfs; partition grown, filesystem untouched"
    );
    assert_eq!(said(&resize_filesystem("/d", "/mnt", "xfs", true)), "DRY: xfs_growfs /mnt");
}

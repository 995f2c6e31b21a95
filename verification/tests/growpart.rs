use tinycloudinit::bytes::{crc32, ru32, ru64, wu32, wu64};
use tinycloudinit::growpart::{grow_begin, grow_step, GrowAction, GrowReport, GrowState};
use tinycloudinit::image::grow_partition;

#[test]
fn crc32_vector() {
    assert_eq!(crc32(b"123456789"), 0xCBF4_3926);
}

fn mbr_image(total_sectors: usize, parts: &[(u8, u32, u32)]) -> Vec<u8> {
    let mut lba0 = vec![0u8; 512];
    for (i, (ptype, start, size)) in parts.iter().enumerate() {
        let off = 446 + 16 * i;
        lba0[off + 4] = *ptype;
        wu32(&mut lba0, off + 8, *start);
        wu32(&mut lba0, off + 12, *size);
    }
    lba0[510] = 0x55;
    lba0[511] = 0xAA;
    lba0.resize(total_sectors * 512, 0);
    lba0
}

#[test]
fn mbr_grow_last_partition() {
    let mut img = mbr_image(20480, &[(0x83, 2048, 4096)]);
    let r = grow_partition(&mut img, 1, true).unwrap().unwrap();
    assert_eq!(r.old_end, 2048 + 4096 - 1);
    assert_eq!(r.new_end, 20479);
    // idempotent
    assert!(grow_partition(&mut img, 1, true).unwrap().is_none());
}

#[test]
fn mbr_refuses_non_last() {
    let mut img = mbr_image(20480, &[(0x83, 2048, 2048), (0x83, 8192, 2048)]);
    let err = grow_partition(&mut img, 1, true).unwrap_err();
    assert!(err.contains("not the last"), "{err}");
}

#[test]
fn mbr_dry_run_writes_nothing() {
    let mut img = mbr_image(20480, &[(0x83, 2048, 4096)]);
    let before = img.clone();
    let r = grow_partition(&mut img, 1, false).unwrap().unwrap();
    assert_eq!(r.new_end, 20479);
    assert_eq!(img, before);
}

#[test]
fn rejects_blank_disk() {
    let mut img = vec![0u8; 1 << 20];
    assert!(grow_partition(&mut img, 1, true).is_err());
}

#[test]
fn disk_errors_are_exact() {
    let mut img = vec![0u8; 1 << 20];
    assert_eq!(
        grow_partition(&mut img, 1, true).unwrap_err(),
        "no GPT or MBR partition table found"
    );
    let mut img = vec![0u8; 3 * 512 - 1];
    assert_eq!(
        grow_partition(&mut img, 1, true).unwrap_err(),
        "disk too small or unreadable geometry"
    );
}

#[test]
fn mbr_errors_are_exact() {
    let err = |parts: &[(u8, u32, u32)], n: u32| {
        grow_partition(&mut mbr_image(100, parts), n, true).unwrap_err()
    };
    assert_eq!(err(&[], 5), "MBR partition 5: only primary partitions 1-4 supported");
    assert_eq!(err(&[], 0), "MBR partition 0: only primary partitions 1-4 supported");
    assert_eq!(err(&[(0x83, 10, 10)], 2), "partition 2 is empty");
    assert_eq!(err(&[(0x05, 10, 10)], 1), "partition 1 is an extended partition; not growing");
    assert_eq!(err(&[(0x0f, 10, 10)], 1), "partition 1 is an extended partition; not growing");
    assert_eq!(err(&[(0x83, 0, 10)], 1), "partition 1 has no LBA geometry");
    assert_eq!(err(&[(0x83, 10, 0)], 1), "partition 1 has no LBA geometry");
    assert_eq!(
        err(&[(0x83, 10, 10), (0x83, 50, 10)], 1),
        "partition 1 is not the last partition; not growing"
    );
}

#[test]
fn mbr_growth_changes_the_size_alone() {
    let mut img = mbr_image(100, &[(0x83, 4, 4), (0x07, 10, 20)]);
    let before = img.clone();
    let r = grow_partition(&mut img, 2, true).unwrap().unwrap();
    assert_eq!(
        r,
        GrowReport { partnum: 2, start: 10, old_end: 29, new_end: 99, sector: 512 }
    );
    assert_eq!(ru32(&img, 446 + 16 + 12), 90);
    for (i, (a, b)) in before.iter().zip(img.iter()).enumerate() {
        if !(446 + 16 + 12..446 + 16 + 16).contains(&i) {
            assert_eq!(a, b, "byte {i}");
        }
    }
}

const ENTRY: usize = 128;

fn seal(sector: &mut [u8]) {
    wu32(sector, 16, 0);
    let c = crc32(&sector[..92]);
    wu32(sector, 16, c);
}

/// An image with a GPT of 128 entries, made for a disk of `made_for` sectors
/// and lying on one of `total`.
fn gpt_image(made_for: usize, total: usize, parts: &[(u64, u64)]) -> Vec<u8> {
    let mut entries = vec![0u8; 128 * ENTRY];
    for (i, (start, end)) in parts.iter().enumerate() {
        let o = i * ENTRY;
        entries[o] = 0xaf;
        entries[o + 16] = i as u8 + 1;
        wu64(&mut entries, o + 32, *start);
        wu64(&mut entries, o + 40, *end);
        entries[o + 56] = b'p';
    }
    let mut hdr = vec![0u8; 512];
    hdr[..8].copy_from_slice(b"EFI PART");
    wu32(&mut hdr, 8, 0x10000);
    wu32(&mut hdr, 12, 92);
    wu64(&mut hdr, 24, 1);
    wu64(&mut hdr, 32, made_for as u64 - 1);
    wu64(&mut hdr, 40, 34);
    wu64(&mut hdr, 48, made_for as u64 - 34);
    wu64(&mut hdr, 72, 2);
    wu32(&mut hdr, 80, 128);
    wu32(&mut hdr, 84, ENTRY as u32);
    wu32(&mut hdr, 88, crc32(&entries));
    seal(&mut hdr);
    let mut img = vec![0u8; total * 512];
    img[512..1024].copy_from_slice(&hdr);
    img[1024..1024 + entries.len()].copy_from_slice(&entries);
    img
}

#[test]
fn gpt_grow_last_partition() {
    let (old, total) = (4096, 8192);
    let mut img = gpt_image(old, total, &[(34, 99), (100, 2000)]);
    let before = img.clone();
    let r = grow_partition(&mut img, 2, true).unwrap().unwrap();
    assert_eq!(
        r,
        GrowReport { partnum: 2, start: 100, old_end: 2000, new_end: 8192 - 34, sector: 512 }
    );
    assert_eq!(img.len(), before.len());
    // the primary header and the array
    let hdr = &img[512..1024];
    assert_eq!(ru64(hdr, 24), 1);
    assert_eq!(ru64(hdr, 32), 8191);
    assert_eq!(ru64(hdr, 48), 8192 - 34);
    assert_eq!(ru64(hdr, 72), 2);
    let entries = &img[1024..1024 + 128 * ENTRY];
    assert_eq!(crc32(entries), ru32(hdr, 88));
    assert_eq!(ru64(entries, ENTRY + 40), 8192 - 34);
    assert_eq!(ru64(entries, 40), 99);
    let mut copy = hdr.to_vec();
    seal(&mut copy);
    assert_eq!(copy, hdr);
    // the backup
    let end = &img[8191 * 512..];
    assert_eq!(ru64(end, 24), 8191);
    assert_eq!(ru64(end, 32), 1);
    assert_eq!(ru64(end, 72), 8192 - 33);
    let mut copy = end.to_vec();
    seal(&mut copy);
    assert_eq!(copy, end);
    assert_eq!(&img[(8192 - 33) * 512..8191 * 512], entries);
    // idempotent
    let grown = img.clone();
    assert!(grow_partition(&mut img, 2, true).unwrap().is_none());
    assert_eq!(img, grown);
}

#[test]
fn gpt_dry_run_writes_nothing() {
    let mut img = gpt_image(4096, 8192, &[(34, 2000)]);
    let before = img.clone();
    let r = grow_partition(&mut img, 1, false).unwrap().unwrap();
    assert_eq!(r.new_end, 8158);
    assert_eq!(img, before);
}

#[test]
fn gpt_errors_are_exact() {
    let parts = [(34, 99), (100, 2000)];
    let err = |img: &mut Vec<u8>, n: u32| grow_partition(img, n, true).unwrap_err();
    let fresh = || gpt_image(4096, 8192, &parts);
    assert_eq!(err(&mut fresh(), 0), "no partition 0");
    assert_eq!(err(&mut fresh(), 129), "no partition 129");
    assert_eq!(err(&mut fresh(), 3), "partition 3 is empty");
    assert_eq!(err(&mut fresh(), 1), "partition 1 is not the last partition; not growing");
    let mut img = fresh();
    img[512 + 60] ^= 1;
    assert_eq!(
        err(&mut img, 2),
        "primary GPT header CRC mismatch — refusing to touch the disk"
    );
    let mut img = fresh();
    img[1024 + 60] ^= 1;
    assert_eq!(err(&mut img, 2), "GPT entries CRC mismatch — refusing to touch the disk");
    let mut img = fresh();
    wu32(&mut img, 512 + 12, 91);
    assert_eq!(err(&mut img, 2), "implausible GPT header size 91");
    let mut img = fresh();
    wu32(&mut img, 512 + 84, 64);
    seal(&mut img[512..1024]);
    assert_eq!(err(&mut img, 2), "implausible GPT entry layout (128 x 64)");
    let mut img = fresh();
    wu64(&mut img, 512 + 72, 9000);
    seal(&mut img[512..1024]);
    assert_eq!(err(&mut img, 2), "read GPT entries: failed to fill whole buffer");
}

#[test]
fn gpt_disk_of_the_same_size_gains_nothing() {
    let mut img = gpt_image(4096, 4096, &[(34, 4096 - 34)]);
    assert!(grow_partition(&mut img, 1, true).unwrap().is_none());
}

#[test]
fn backup_is_written_before_the_primary() {
    let img = gpt_image(4096, 8192, &[(34, 2000)]);
    let (mut state, mut action) = grow_begin(512, img.len() as u64, 1, true);
    let growth = loop {
        match action {
            GrowAction::Read { lba, len, .. } => {
                let at = lba as usize * 512;
                let data = img[at..at + len as usize].to_vec();
                assert!(state.accepts(&data));
                let next = grow_step(state, data);
                state = next.0;
                action = next.1;
            }
            GrowAction::Finish(r) => {
                let growth = r.unwrap().unwrap();
                assert!(matches!(state, GrowState::Finished));
                break growth;
            }
        }
    };
    let order: Vec<(u64, &str)> = growth.writes.iter().map(|w| (w.lba, w.label)).collect();
    assert_eq!(
        order,
        vec![
            (8192 - 33, "backup GPT entries"),
            (8191, "backup GPT header"),
            (2, "GPT entries"),
            (1, "GPT header"),
        ]
    );
}

#[test]
fn states_refuse_what_they_do_not_wait_for() {
    let (state, action) = grow_begin(512, 8192 * 512, 1, false);
    assert!(matches!(action, GrowAction::Read { lba: 1, len: 512, label: "GPT header" }));
    assert!(!state.accepts(&[0u8; 511]));
    assert!(state.accepts(&[0u8; 512]));
    let (state, action) = grow_step(state, vec![0u8; 512]);
    assert!(matches!(action, GrowAction::Read { lba: 0, len: 512, label: "MBR" }));
    assert!(!state.accepts(&[0u8; 511]));
    let lba0 = mbr_image(1, &[(0x83, 8192, 10)]);
    assert!(state.accepts(&lba0));
    let (state, _) = grow_step(state, lba0);
    assert!(!state.accepts(&[]));
    let (_, action) = grow_begin(0, 8192 * 512, 1, false);
    match action {
        GrowAction::Finish(Err(e)) => assert_eq!(e, "disk too small or unreadable geometry"),
        other => panic!("{other:?}"),
    }
}

#[test]
fn mbr_partition_behind_the_end_gains_nothing() {
    for start in [100, 101, 9000, u32::MAX] {
        let mut img = mbr_image(100, &[(0x83, start, 10)]);
        let before = img.clone();
        for commit in [false, true] {
            assert!(grow_partition(&mut img, 1, commit).unwrap().is_none());
            assert_eq!(img, before);
        }
    }
}

#[test]
fn large_sectors_are_counted() {
    let mut lba0 = vec![0u8; 4096];
    lba0[..512].copy_from_slice(&mbr_image(1, &[(0x83, 8, 8)]));
    let (state, _) = grow_begin(4096, 100 * 4096, 1, true);
    let (state, _) = grow_step(state, vec![0u8; 4096]);
    assert!(state.accepts(&lba0));
    match grow_step(state, lba0).1 {
        GrowAction::Finish(Ok(Some(g))) => {
            assert_eq!(g.report.new_end, 99);
            assert_eq!(g.report.sector, 4096);
            assert_eq!(g.writes.len(), 1);
            assert_eq!(g.writes[0].data.len(), 4096);
            assert_eq!(g.writes[0].label, "MBR");
        }
        other => panic!("{other:?}"),
    }
}

#[test]
fn fields_read_back() {
    let mut b = vec![0xeeu8; 16];
    wu32(&mut b, 1, 0x0403_0201);
    assert_eq!(&b[..6], &[0xee, 1, 2, 3, 4, 0xee]);
    assert_eq!(ru32(&b, 1), 0x0403_0201);
    wu64(&mut b, 8, u64::MAX - 1);
    assert_eq!(ru64(&b, 8), u64::MAX - 1);
    assert_eq!(crc32(b""), 0);
}

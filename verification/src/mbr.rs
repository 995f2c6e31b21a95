//! DOS partition tables: growing the last primary partition.
use vstd::prelude::*;
use vstd::slice::*;
use vstd::string::*;

use crate::bytes;
use crate::bytes::{ru32, wu32};
use crate::growpart;
use crate::growpart::{
    partition_message, GrowReport, Growth, GrowthView, SectorWrite, WriteView,
};
use crate::number;
use crate::number::decimal_text;

verus! {

/// The two bytes that close a sector with a DOS partition table.
pub open spec fn mbr_signature(lba0: Seq<u8>) -> bool {
    lba0[510] == 0x55 && lba0[511] == 0xaa
}

/// Where the slot of primary partition `n`, counted from one, begins.
pub open spec fn slot(n: int) -> int {
    446 + 16 * (n - 1)
}

/// The partition type in slot `n`; zero for an empty slot.
pub open spec fn slot_type(lba0: Seq<u8>, n: int) -> u8 {
    lba0[slot(n) + 4]
}

/// First sector of the partition in slot `n`.
pub open spec fn slot_start(lba0: Seq<u8>, n: int) -> int {
    bytes::field32(lba0, slot(n) + 8)
}

/// Sectors in the partition in slot `n`.
pub open spec fn slot_size(lba0: Seq<u8>, n: int) -> int {
    bytes::field32(lba0, slot(n) + 12)
}

/// Last sector of the partition in slot `n`.
pub open spec fn slot_end(lba0: Seq<u8>, n: int) -> int {
    slot_start(lba0, n) + slot_size(lba0, n) - 1
}

/// Whether slot `i` is another partition that starts behind the one in slot `n`.
pub open spec fn slot_behind(lba0: Seq<u8>, n: int, i: int) -> bool {
    i != n && slot_type(lba0, i) != 0 && slot_start(lba0, i) > slot_end(lba0, n)
}

/// Why partition `partnum` cannot grow whatever the size of the disk, if so.
pub open spec fn mbr_refusal(lba0: Seq<u8>, partnum: int) -> Option<Seq<char>> {
    if !(1 <= partnum <= 4) {
        Some(
            "MBR partition "@ + number::decimal(partnum)
                + ": only primary partitions 1-4 supported"@,
        )
    } else if slot_type(lba0, partnum) == 0 {
        Some(growpart::about_partition(partnum, " is empty"@))
    } else if slot_type(lba0, partnum) == 0x05 || slot_type(lba0, partnum) == 0x0f {
        Some(growpart::about_partition(partnum, " is an extended partition; not growing"@))
    } else if slot_start(lba0, partnum) == 0 || slot_size(lba0, partnum) == 0 {
        Some(growpart::about_partition(partnum, " has no LBA geometry"@))
    } else if exists|i: int| 1 <= i <= 4 && #[trigger] slot_behind(lba0, partnum, i) {
        Some(growpart::about_partition(partnum, " is not the last partition; not growing"@))
    } else {
        None
    }
}

/// The sectors that a partition from `start` on can have on a disk of `total`
/// sectors: up to the end of the disk, as far as the size field can say.
pub open spec fn mbr_room(total: int, start: int) -> int {
    if total - start < u32::MAX {
        total - start
    } else {
        u32::MAX as int
    }
}

/// The table sector with the partition in slot `n` given `size` sectors.
pub open spec fn grown_mbr(lba0: Seq<u8>, n: int, size: int) -> Seq<u8> {
    bytes::splice(lba0, slot(n) + 12, bytes::le32(size))
}

/// What growing primary partition `partnum` comes to.
pub open spec fn mbr_growth(
    lba0: Seq<u8>,
    total: int,
    sector: int,
    partnum: int,
    commit: bool,
) -> Result<Option<GrowthView>, Seq<char>> {
    let start = slot_start(lba0, partnum);
    let room = mbr_room(total, start);
    match mbr_refusal(lba0, partnum) {
        Some(reason) => Err(reason),
        None => if room <= slot_size(lba0, partnum) {
            Ok(None)
        } else {
            Ok(
                Some(
                    GrowthView {
                        report: GrowReport {
                            partnum: partnum as u32,
                            start: start as u64,
                            old_end: slot_end(lba0, partnum) as u64,
                            new_end: (start + room - 1) as u64,
                            sector: sector as u64,
                        },
                        writes: if commit {
                            seq![
                                WriteView {
                                    lba: 0,
                                    data: grown_mbr(lba0, partnum, room),
                                    label: "MBR"@,
                                },
                            ]
                        } else {
                            Seq::<WriteView>::empty()
                        },
                    },
                ),
            )
        },
    }
}

/// Whether a sector closes with the mark of a DOS partition table.
pub fn has_mbr_signature(lba0: &[u8]) -> (r: bool)
    requires
        lba0@.len() >= 512,
    ensures
        r == mbr_signature(lba0@),
{
    lba0[510] == 0x55 && lba0[511] == 0xaa
}

/// Why partition `partnum` cannot grow whatever the size of the disk, if so.
pub fn refuse_mbr(lba0: &[u8], partnum: u32) -> (r: Option<String>)
    requires
        lba0@.len() >= 512,
    ensures
        match r {
            Some(m) => mbr_refusal(lba0@, partnum as int) == Some(m@),
            None => mbr_refusal(lba0@, partnum as int) is None,
        },
{
    if partnum < 1 || partnum > 4 {
        let mut m = "MBR partition ".to_owned();
        m.append(decimal_text(partnum as u64).as_str());
        m.append(": only primary partitions 1-4 supported");
        return Some(m);
    }
    let off: usize = 446 + 16 * ((partnum - 1) as usize);
    let ptype: u8 = lba0[off + 4];
    if ptype == 0 {
        return Some(partition_message(partnum, " is empty"));
    }
    if ptype == 0x05 || ptype == 0x0f {
        return Some(partition_message(partnum, " is an extended partition; not growing"));
    }
    let start: u64 = ru32(lba0, off + 8) as u64;
    let size: u64 = ru32(lba0, off + 12) as u64;
    if start == 0 || size == 0 {
        return Some(partition_message(partnum, " has no LBA geometry"));
    }
    let old_end: u64 = start + size - 1;
    let mut i: u32 = 1;
    while i <= 4
        invariant
            lba0@.len() >= 512,
            1 <= partnum <= 4,
            1 <= i <= 5,
            slot_type(lba0@, partnum as int) != 0,
            slot_type(lba0@, partnum as int) != 0x05,
            slot_type(lba0@, partnum as int) != 0x0f,
            slot_start(lba0@, partnum as int) != 0,
            slot_size(lba0@, partnum as int) != 0,
            old_end == slot_end(lba0@, partnum as int),
            forall|j: int| 1 <= j < i ==> !#[trigger] slot_behind(lba0@, partnum as int, j),
        decreases 5 - i,
    {
        let o: usize = 446 + 16 * ((i - 1) as usize);
        if i != partnum && lba0[o + 4] != 0 && (ru32(lba0, o + 8) as u64) > old_end {
            assert(slot_behind(lba0@, partnum as int, i as int));
            return Some(
                partition_message(partnum, " is not the last partition; not growing"),
            );
        }
        assert(!slot_behind(lba0@, partnum as int, i as int));
        i = i + 1;
    }
    None
}

/// Grows primary partition `partnum` of the table in `lba0` on a disk of
/// `total` sectors. Without `commit` there is nothing to write.
pub fn grow_mbr(lba0: &[u8], total: u64, sector: u64, partnum: u32, commit: bool) -> (r: Result<
    Option<Growth>,
    String,
>)
    requires
        lba0@.len() >= 512,
    ensures
        growpart::outcome(r) == mbr_growth(
            lba0@,
            total as int,
            sector as int,
            partnum as int,
            commit,
        ),
{
    if let Some(reason) = refuse_mbr(lba0, partnum) {
        return Err(reason);
    }
    let off: usize = 446 + 16 * ((partnum - 1) as usize);
    let start: u64 = ru32(lba0, off + 8) as u64;
    let size: u64 = ru32(lba0, off + 12) as u64;
    if total < start {
        return Ok(None);
    }
    let rest: u64 = total - start;
    let room: u64 = if rest < 0xffff_ffff {
        rest
    } else {
        0xffff_ffff
    };
    if room <= size {
        return Ok(None);
    }
    let report = GrowReport {
        partnum,
        start,
        old_end: start + size - 1,
        new_end: start + room - 1,
        sector,
    };
    let mut writes: Vec<SectorWrite> = Vec::new();
    if commit {
        let mut table = slice_to_vec(lba0);
        wu32(table.as_mut_slice(), off + 12, room as u32);
        writes.push(SectorWrite { lba: 0, data: table, label: "MBR" });
        assert(growpart::write_views(writes@) =~= seq![
            WriteView {
                lba: 0,
                data: grown_mbr(lba0@, partnum as int, room as int),
                label: "MBR"@,
            },
        ]);
    } else {
        assert(growpart::write_views(writes@) =~= Seq::<WriteView>::empty());
    }
    Ok(Some(Growth { report, writes }))
}

} // verus!

//! When a partition of a disk grows, how far, and what a growth writes, in terms
//! of the bytes on the disk.
use vstd::prelude::*;

use crate::bytes;
use crate::gpt;
use crate::gpt::GptLayout;
use crate::growpart;
use crate::growpart::{
    GrowActionView, GrowReport, GrowStateView, GrowTask, GrowthView, WriteView,
};
use crate::growth_laws;
use crate::image;
use crate::mbr;
use crate::number;

verus! {

/// Whether entry `i` of an array with entries of `esize` bytes is in use: one of
/// the sixteen bytes of its type is not zero.
pub open spec fn in_use(entries: Seq<u8>, esize: int, i: int) -> bool {
    exists|k: int| 0 <= k < 16 && #[trigger] entries[i * esize + k] != 0
}

/// The first sector of the partition in entry `i`.
pub open spec fn first_sector(entries: Seq<u8>, esize: int, i: int) -> int {
    bytes::field64(entries, i * esize + 32)
}

/// The last sector of the partition in entry `i`.
pub open spec fn last_sector(entries: Seq<u8>, esize: int, i: int) -> int {
    bytes::field64(entries, i * esize + 40)
}

/// Whether no other partition starts behind the one in entry `idx`, whatever the
/// order of the entries.
pub open spec fn none_behind(entries: Seq<u8>, esize: int, n: int, idx: int) -> bool {
    forall|i: int|
        0 <= i < n && i != idx && #[trigger] in_use(entries, esize, i) ==> first_sector(
            entries,
            esize,
            i,
        ) <= last_sector(entries, esize, idx)
}

/// Whether `count` sectors are just enough for `len` bytes.
pub open spec fn just_enough(count: int, len: int, sector: int) -> bool {
    (count - 1) * sector < len <= count * sector
}

/// The sectors that just cover `len` bytes are as many as a table of `len` bytes
/// takes.
pub proof fn sectors_just_cover(count: int, len: int, sector: int)
    requires
        0 < sector,
        0 <= len,
        just_enough(count, len, sector),
    ensures
        growpart::sectors_for(len, sector) == count,
{
    let q = len / sector;
    let r = len % sector;
    assert(len == q * sector + r && 0 <= r < sector) by (nonlinear_arith)
        requires
            0 < sector,
            q == len / sector,
            r == len % sector,
    ;
    assert(r == 0 ==> count == q) by (nonlinear_arith)
        requires
            0 < sector,
            len == q * sector + r,
            (count - 1) * sector < len,
            len <= count * sector,
    ;
    assert(r > 0 ==> count == q + 1) by (nonlinear_arith)
        requires
            0 < sector,
            len == q * sector + r,
            r < sector,
            (count - 1) * sector < len,
            len <= count * sector,
    ;
}

/// A GPT partition grows exactly if its table is intact, it is in use, no other
/// partition starts behind it and there is room behind it; it then ends right in
/// front of the backup of the table. The numbers of the other partitions make no
/// difference. Without room there is nothing to gain, and otherwise growing is
/// refused.
pub proof fn when_a_gpt_partition_grows(
    lba1: Seq<u8>,
    layout: GptLayout,
    entries: Seq<u8>,
    sector: int,
    total: int,
    partnum: int,
    commit: bool,
    count: int,
)
    requires
        0 < sector,
        just_enough(count, layout.num_entries * layout.esize, sector),
    ensures
        ({
            let r = gpt::gpt_growth(lba1, layout, entries, sector, total, partnum, commit);
            let n = layout.num_entries as int;
            let esize = layout.esize as int;
            let idx = partnum - 1;
            let end = total - 2 - count;
            let growable = bytes::crc32_of(entries) == bytes::field32(lba1, 88) && 1 <= partnum
                <= n && in_use(entries, esize, idx) && none_behind(entries, esize, n, idx);
            &&& (r matches Ok(Some(_))) <==> growable && 0 <= end && last_sector(
                entries,
                esize,
                idx,
            ) < end
            &&& r == Ok::<Option<GrowthView>, Seq<char>>(None) <==> growable && 0 <= end
                <= last_sector(entries, esize, idx)
            &&& r matches Ok(Some(g)) ==> g.report == (GrowReport {
                partnum: partnum as u32,
                start: first_sector(entries, esize, idx) as u64,
                old_end: last_sector(entries, esize, idx) as u64,
                new_end: end as u64,
                sector: sector as u64,
            })
            &&& (r matches Ok(Some(g)) && !commit) ==> r->Ok_0->Some_0.writes.len() == 0
        }),
{
    let n = layout.num_entries as int;
    let esize = layout.esize as int;
    let idx = partnum - 1;
    assert(n * esize >= 0) by (nonlinear_arith)
        requires
            n >= 0,
            esize >= 0,
    ;
    sectors_just_cover(count, n * esize, sector);
    assert(layout.entries_bytes() == n * esize);
    assert forall|i: int| gpt::entry_used(entries, #[trigger] layout.entry_at(i)) == in_use(
        entries,
        esize,
        i,
    ) by {}
    assert(gpt::not_last(layout, entries, idx) == !none_behind(entries, esize, n, idx)) by {
        if gpt::not_last(layout, entries, idx) {
            let i = choose|i: int|
                0 <= i < layout.num_entries && #[trigger] gpt::starts_behind(
                    layout,
                    entries,
                    idx,
                    i,
                );
            assert(gpt::entry_used(entries, layout.entry_at(i)));
            assert(in_use(entries, esize, i));
        } else {
            assert forall|i: int|
                0 <= i < n && i != idx && #[trigger] in_use(entries, esize, i) implies first_sector(
                entries,
                esize,
                i,
            ) <= last_sector(entries, esize, idx) by {
                assert(gpt::entry_used(entries, layout.entry_at(i)));
                assert(!gpt::starts_behind(layout, entries, idx, i));
            }
        }
    }
    assert(gpt::entry_used(entries, layout.entry_at(idx)) == in_use(entries, esize, idx));
}

/// A GPT header is trusted exactly if its size is plausible, it carries the CRC
/// of itself, the CRC field taken as zero, and it states a plausible entry
/// array; the layout is then what it states.
pub proof fn when_a_gpt_header_is_trusted(lba1: Seq<u8>, cleared: Seq<u8>)
    requires
        lba1.len() >= 92,
        cleared.len() == bytes::field32(lba1, 12),
        forall|i: int|
            0 <= i < cleared.len() ==> #[trigger] cleared[i] == if 16 <= i < 20 {
                0
            } else {
                lba1[i]
            },
    ensures
        ({
            let size = bytes::field32(lba1, 12);
            let n = bytes::field32(lba1, 80);
            let esize = bytes::field32(lba1, 84);
            &&& (gpt::gpt_layout(lba1) is Ok) <==> 92 <= size <= lba1.len() && bytes::crc32_of(
                cleared,
            ) == bytes::field32(lba1, 16) && 128 <= esize && 0 < n * esize <= 1048576
            &&& !(92 <= size <= lba1.len()) ==> gpt::gpt_layout(lba1) == Err::<
                GptLayout,
                Seq<char>,
            >("implausible GPT header size "@ + number::decimal(size))
            &&& 92 <= size <= lba1.len() && bytes::crc32_of(cleared) != bytes::field32(lba1, 16)
                ==> gpt::gpt_layout(lba1) == Err::<GptLayout, Seq<char>>(
                "primary GPT header CRC mismatch — refusing to touch the disk"@,
            )
            &&& 92 <= size <= lba1.len() && bytes::crc32_of(cleared) == bytes::field32(lba1, 16)
                && !(128 <= esize && 0 < n * esize <= 1048576) ==> gpt::gpt_layout(lba1) == Err::<
                GptLayout,
                Seq<char>,
            >(
                "implausible GPT entry layout ("@ + number::decimal(n) + " x "@
                    + number::decimal(esize) + ")"@,
            )
            &&& gpt::gpt_layout(lba1) matches Ok(layout) ==> layout.hdr_size == size
                && layout.entries_lba == bytes::field64(lba1, 72) && layout.num_entries == n
                && layout.esize == esize
        }),
{
    let size = bytes::field32(lba1, 12);
    if 92 <= size <= lba1.len() {
        assert(cleared =~= gpt::crc_input(lba1, size));
    }
    let layout = gpt::stated_layout(lba1);
    assert(layout.num_entries == bytes::field32(lba1, 80));
    assert(layout.esize == bytes::field32(lba1, 84));
    assert(layout.entries_bytes() == bytes::field32(lba1, 80) * bytes::field32(lba1, 84));
}

/// Whether the eight bytes at `at` say "EFI PART".
pub open spec fn efi_part_at(disk: Seq<u8>, at: int) -> bool {
    &&& disk[at] == 69 && disk[at + 1] == 70 && disk[at + 2] == 73 && disk[at + 3] == 32
    &&& disk[at + 4] == 80 && disk[at + 5] == 65 && disk[at + 6] == 82 && disk[at + 7] == 84
}

proof fn lemma_signature(disk: Seq<u8>, sector: int)
    requires
        8 <= sector,
        2 * sector <= disk.len(),
    ensures
        gpt::gpt_signature(disk.subrange(sector, 2 * sector)) == efi_part_at(disk, sector),
{
    let lba1 = disk.subrange(sector, 2 * sector);
    let head = lba1.take(8);
    let magic = seq![0x45u8, 0x46u8, 0x49u8, 0x20u8, 0x50u8, 0x41u8, 0x52u8, 0x54u8];
    assert(forall|i: int| 0 <= i < 8 ==> #[trigger] head[i] == disk[sector + i]);
    if efi_part_at(disk, sector) {
        assert(head =~= magic);
    } else if head == magic {
        assert(head[0] == 69 && head[1] == 70 && head[2] == 73 && head[3] == 32 && head[4] == 80
            && head[5] == 65 && head[6] == 82 && head[7] == 84);
    }
}

/// Which table a disk is grown by: a GPT, whose header is in the second sector
/// and whose entries are where the header says, comes before a DOS table, which
/// is in the first sector; a disk with neither, or of fewer than three sectors,
/// cannot be grown.
pub proof fn which_table_is_grown(disk: Seq<u8>, sector: int, partnum: int, commit: bool)
    requires
        512 <= sector,
    ensures
        ({
            let r = image::disk_growth(disk, sector, partnum, commit);
            let total = disk.len() as int / sector;
            let lba0 = disk.subrange(0, sector);
            let lba1 = disk.subrange(sector, 2 * sector);
            if disk.len() < 3 * sector {
                r == Err::<Option<GrowthView>, Seq<char>>(
                    "disk too small or unreadable geometry"@,
                )
            } else if efi_part_at(disk, sector) {
                match gpt::gpt_layout(lba1) {
                    Err(e) => r == Err::<Option<GrowthView>, Seq<char>>(e),
                    Ok(layout) => {
                        let at = layout.entries_lba * sector;
                        let len = layout.num_entries * layout.esize;
                        if at + len > disk.len() {
                            r == Err::<Option<GrowthView>, Seq<char>>(
                                "read GPT entries: failed to fill whole buffer"@,
                            )
                        } else {
                            r == gpt::gpt_growth(
                                lba1,
                                layout,
                                disk.subrange(at, at + len),
                                sector,
                                total,
                                partnum,
                                commit,
                            )
                        }
                    },
                }
            } else if disk[510] == 85 && disk[511] == 170 {
                r == mbr::mbr_growth(lba0, total, sector, partnum, commit)
            } else {
                r == Err::<Option<GrowthView>, Seq<char>>("no GPT or MBR partition table found"@)
            }
        }),
{
    reveal_strlit("read ");
    reveal_strlit("GPT entries");
    reveal_strlit(": failed to fill whole buffer");
    reveal_strlit("read GPT entries: failed to fill whole buffer");
    assert(image::short_read("GPT entries"@) =~= "read GPT entries: failed to fill whole buffer"@);
    if disk.len() >= 3 * sector {
        lemma_signature(disk, sector);
        assert(image::sector_of(disk, sector, 0) =~= disk.subrange(0, sector)) by {
            assert(0 * sector == 0);
        }
        assert(image::sector_of(disk, sector, 1) =~= disk.subrange(sector, 2 * sector)) by {
            assert(1 * sector == sector);
        }
    }
}

/// The type of primary partition `n`, counted from one.
pub open spec fn dos_type(lba0: Seq<u8>, n: int) -> u8 {
    lba0[430 + 16 * n + 4]
}

/// The first sector of primary partition `n`.
pub open spec fn dos_start(lba0: Seq<u8>, n: int) -> int {
    bytes::field32(lba0, 430 + 16 * n + 8)
}

/// The sectors of primary partition `n`.
pub open spec fn dos_size(lba0: Seq<u8>, n: int) -> int {
    bytes::field32(lba0, 430 + 16 * n + 12)
}

/// Whether primary partition `n` can grow at all: it is there, it is not an
/// extended one, it has an extent, and no other one starts behind it.
pub open spec fn dos_growable(lba0: Seq<u8>, n: int) -> bool {
    &&& 1 <= n <= 4
    &&& dos_type(lba0, n) != 0 && dos_type(lba0, n) != 5 && dos_type(lba0, n) != 15
    &&& dos_start(lba0, n) > 0 && dos_size(lba0, n) > 0
    &&& forall|i: int|
        1 <= i <= 4 && i != n && #[trigger] dos_type(lba0, i) != 0 ==> dos_start(lba0, i)
            < dos_start(lba0, n) + dos_size(lba0, n)
}

/// A primary partition grows exactly if it can grow and there is room behind it.
/// It then fills the disk, up to its last sector, as long as the size can be
/// written down in four bytes, and that size is what is written.
pub proof fn when_a_dos_partition_grows(
    lba0: Seq<u8>,
    total: int,
    sector: int,
    partnum: int,
    commit: bool,
)
    requires
        lba0.len() >= 512,
        total <= u64::MAX,
    ensures
        ({
            let r = mbr::mbr_growth(lba0, total, sector, partnum, commit);
            let start = dos_start(lba0, partnum);
            let size = dos_size(lba0, partnum);
            let most = 0xffff_ffffint;
            &&& (r is Ok) <==> dos_growable(lba0, partnum)
            &&& (r matches Ok(Some(_))) <==> dos_growable(lba0, partnum) && total - start > size
                && size < most
            &&& r matches Ok(Some(g)) ==> {
                let room = g.report.new_end + 1 - start;
                &&& g.report.partnum == partnum
                &&& g.report.start == start
                &&& g.report.old_end == start + size - 1
                &&& g.report.sector == sector as u64
                &&& total - start <= most ==> g.report.new_end == total - 1
                &&& total - start > most ==> room == most
                &&& !commit ==> g.writes.len() == 0
                &&& commit ==> g.writes.len() == 1 && g.writes[0].lba == 0 && dos_size(
                    g.writes[0].data,
                    partnum,
                ) == room
            }
        }),
{
    assert forall|i: int| 1 <= i <= 4 && 1 <= partnum <= 4 implies #[trigger] mbr::slot_behind(
        lba0,
        partnum,
        i,
    ) == (i != partnum && dos_type(lba0, i) != 0 && dos_start(lba0, i) >= dos_start(lba0, partnum)
        + dos_size(lba0, partnum)) by {}
    assert((mbr::mbr_refusal(lba0, partnum) is None) == dos_growable(lba0, partnum)) by {
        if 1 <= partnum <= 4 {
            if exists|i: int| 1 <= i <= 4 && #[trigger] mbr::slot_behind(lba0, partnum, i) {
                let i = choose|i: int| 1 <= i <= 4 && #[trigger] mbr::slot_behind(lba0, partnum, i);
                assert(dos_type(lba0, i) != 0);
            } else {
                assert forall|i: int|
                    1 <= i <= 4 && i != partnum && #[trigger] dos_type(lba0, i) != 0 implies dos_start(
                    lba0,
                    i,
                ) < dos_start(lba0, partnum) + dos_size(lba0, partnum) by {
                    assert(!mbr::slot_behind(lba0, partnum, i));
                }
            }
        }
    }
    if dos_growable(lba0, partnum) {
        let room = mbr::mbr_room(total, dos_start(lba0, partnum));
        if room > dos_size(lba0, partnum) {
            bytes::field32_round_trip(lba0, 430 + 16 * partnum + 12, room);
        }
    }
}

/// Why a GPT partition is refused: the table is damaged, there is no such
/// partition, it is not in use, another one starts behind it, or the disk is too
/// small for the table; in that order.
pub proof fn why_a_gpt_partition_is_refused(
    lba1: Seq<u8>,
    layout: GptLayout,
    entries: Seq<u8>,
    sector: int,
    total: int,
    partnum: int,
    commit: bool,
    count: int,
)
    requires
        0 < sector,
        just_enough(count, layout.num_entries * layout.esize, sector),
    ensures
        ({
            let r = gpt::gpt_growth(lba1, layout, entries, sector, total, partnum, commit);
            let n = layout.num_entries as int;
            let esize = layout.esize as int;
            let idx = partnum - 1;
            let intact = bytes::crc32_of(entries) == bytes::field32(lba1, 88);
            let there = intact && 1 <= partnum <= n;
            let used = there && in_use(entries, esize, idx);
            let last = used && none_behind(entries, esize, n, idx);
            let says = |m: Seq<char>| r == Err::<Option<GrowthView>, Seq<char>>(m);
            &&& !intact ==> says("GPT entries CRC mismatch — refusing to touch the disk"@)
            &&& intact && !there ==> says("no partition "@ + number::decimal(partnum))
            &&& there && !used ==> says("partition "@ + number::decimal(partnum) + " is empty"@)
            &&& used && !last ==> says(
                "partition "@ + number::decimal(partnum)
                    + " is not the last partition; not growing"@,
            )
            &&& last && total < 2 + count ==> says("disk too small for GPT"@)
        }),
{
    when_a_gpt_partition_grows(lba1, layout, entries, sector, total, partnum, commit, count);
    let n = layout.num_entries as int;
    let esize = layout.esize as int;
    let idx = partnum - 1;
    assert(n * esize >= 0) by (nonlinear_arith)
        requires
            n >= 0,
            esize >= 0,
    ;
    sectors_just_cover(count, n * esize, sector);
    assert(layout.entries_bytes() == n * esize);
    assert(gpt::entry_used(entries, layout.entry_at(idx)) == in_use(entries, esize, idx));
    if gpt::not_last(layout, entries, idx) {
        let i = choose|i: int|
            0 <= i < layout.num_entries && #[trigger] gpt::starts_behind(layout, entries, idx, i);
        assert(in_use(entries, esize, i));
    } else {
        assert forall|i: int|
            0 <= i < n && i != idx && #[trigger] in_use(entries, esize, i) implies first_sector(
            entries,
            esize,
            i,
        ) <= last_sector(entries, esize, idx) by {
            assert(gpt::entry_used(entries, layout.entry_at(i)));
            assert(!gpt::starts_behind(layout, entries, idx, i));
        }
    }
}

/// Why a primary partition is refused: there are only four of them, and the one
/// that is meant is empty, extended, without an extent, or not the last one.
pub proof fn why_a_dos_partition_is_refused(
    lba0: Seq<u8>,
    total: int,
    sector: int,
    n: int,
    commit: bool,
)
    requires
        lba0.len() >= 512,
        total <= u64::MAX,
    ensures
        ({
            let r = mbr::mbr_growth(lba0, total, sector, n, commit);
            let one = "partition "@ + number::decimal(n);
            let says = |m: Seq<char>| r == Err::<Option<GrowthView>, Seq<char>>(m);
            let there = 1 <= n <= 4;
            let kind = dos_type(lba0, n);
            let extent = dos_start(lba0, n) > 0 && dos_size(lba0, n) > 0;
            &&& !there ==> says(
                "MBR partition "@ + number::decimal(n)
                    + ": only primary partitions 1-4 supported"@,
            )
            &&& there && kind == 0 ==> says(one + " is empty"@)
            &&& there && (kind == 5 || kind == 15) ==> says(
                one + " is an extended partition; not growing"@,
            )
            &&& there && kind != 0 && kind != 5 && kind != 15 && !extent ==> says(
                one + " has no LBA geometry"@,
            )
            &&& there && kind != 0 && kind != 5 && kind != 15 && extent && !dos_growable(lba0, n)
                ==> says(one + " is not the last partition; not growing"@)
        }),
{
    when_a_dos_partition_grows(lba0, total, sector, n, commit);
}

/// Growing a primary partition of a disk with a DOS table changes the four bytes
/// of its size on the disk, and nothing else: together with the start they then
/// reach to the new end.
pub proof fn what_a_grown_dos_disk_holds(disk: Seq<u8>, sector: int, n: int)
    requires
        512 <= sector <= u64::MAX,
        disk.len() <= u64::MAX,
        !efi_part_at(disk, sector),
        image::disk_growth(disk, sector, n, true) matches Ok(Some(_)),
    ensures
        ({
            let growth = image::disk_growth(disk, sector, n, true)->Ok_0->Some_0;
            let grown = image::after_writes(disk, growth.writes, sector);
            let field = 430 + 16 * n + 12;
            &&& 1 <= n <= 4
            &&& grown.len() == disk.len()
            &&& forall|i: int|
                0 <= i < disk.len() && !(field <= i < field + 4) ==> grown[i] == disk[i]
            &&& dos_start(disk, n) + dos_size(grown, n) == growth.report.new_end + 1
        }),
{
    which_table_is_grown(disk, sector, n, true);
    lemma_signature(disk, sector);
    let total = disk.len() as int / sector;
    assert(total <= disk.len()) by (nonlinear_arith)
        requires
            0 < sector,
            total == disk.len() as int / sector,
    ;
    let lba0 = disk.subrange(0, sector);
    assert(1 * sector == sector && 0 * sector == 0);
    assert(image::sector_of(disk, sector, 1) =~= disk.subrange(sector, 2 * sector));
    assert(image::sector_of(disk, sector, 0) =~= lba0);
    when_a_dos_partition_grows(lba0, total, sector, n, true);
    growth_laws::mbr_disk_growth_is_final(disk, sector, n, true);
    let growth = image::disk_growth(disk, sector, n, true)->Ok_0->Some_0;
    let w = growth.writes;
    assert(w.drop_last() =~= Seq::<WriteView>::empty());
    assert(image::after_writes(disk, w.drop_last(), sector) == disk);
    let grown = image::after_writes(disk, w, sector);
    assert(grown == image::stored(disk, 0, w[0].data));
    assert(w[0].data.len() == sector);
}

/// Storing data on a disk puts every byte of it in its place, in the order of
/// the writes, and leaves the rest of the disk alone.
pub proof fn stored_data_is_in_its_place(
    disk: Seq<u8>,
    writes: Seq<WriteView>,
    w: WriteView,
    sector: int,
    i: int,
)
    requires
        0 <= w.lba * sector,
        w.lba * sector + w.data.len() <= disk.len(),
        image::after_writes(disk, writes, sector).len() == disk.len(),
        0 <= i < disk.len(),
    ensures
        ({
            let before = image::after_writes(disk, writes, sector);
            let after = image::after_writes(disk, writes.push(w), sector);
            let at = w.lba * sector;
            &&& after.len() == disk.len()
            &&& at <= i < at + w.data.len() ==> after[i] == w.data[i - at]
            &&& i < at || at + w.data.len() <= i ==> after[i] == before[i]
        }),
        image::after_writes(disk, Seq::<WriteView>::empty(), sector) == disk,
{
    assert(writes.push(w).drop_last() =~= writes);
}

/// Whatever is read as it was asked for can be gone on with, where a sector holds
/// 512 bytes or more.
pub proof fn what_was_asked_for_is_accepted(
    task: GrowTask,
    lba1: Seq<u8>,
    layout: GptLayout,
    data: Seq<u8>,
)
    requires
        task.sector >= 512,
    ensures
        data.len() == task.sector ==> GrowStateView::Header(task).accepts(data)
            && GrowStateView::Boot(task).accepts(data),
        data.len() != task.sector ==> !GrowStateView::Header(task).accepts(data)
            && !GrowStateView::Boot(task).accepts(data),
        (GrowStateView::Entries { task, lba1, layout }).accepts(data) <==> data.len()
            == layout.num_entries * layout.esize,
        !GrowStateView::Finished.accepts(data),
{
}

/// A disk is read sector by sector as growing it needs: the GPT header first, then
/// the entries that it names, or the first sector where there is no GPT.
pub proof fn what_is_read_to_grow(
    sector: u64,
    total: u64,
    bytes: int,
    partnum: u32,
    commit: bool,
    data: Seq<u8>,
)
    requires
        512 <= sector,
        bytes >= 3 * sector,
        total == bytes / sector as int,
        data.len() == sector,
    ensures
        ({
            let task = GrowTask { partnum, commit, sector, total };
            let first = growpart::first_step(sector as int, bytes, partnum, commit);
            let second = growpart::next_step(GrowStateView::Header(task), data);
            &&& first.0 == GrowStateView::Header(task)
            &&& first.1 == (GrowActionView::Read {
                lba: 1,
                len: sector as int,
                label: "GPT header"@,
            })
            &&& !efi_part_at(data, 0) ==> second.0 == GrowStateView::Boot(task) && second.1 == (
            GrowActionView::Read { lba: 0, len: sector as int, label: "MBR"@ })
            &&& efi_part_at(data, 0) ==> match gpt::gpt_layout(data) {
                Ok(layout) => second.0 == (GrowStateView::Entries { task, lba1: data, layout })
                    && second.1 == (GrowActionView::Read {
                    lba: layout.entries_lba as int,
                    len: layout.num_entries * layout.esize,
                    label: "GPT entries"@,
                }),
                Err(e) => second.1 == GrowActionView::Finish(Err(e)),
            }
        }),
        forall|small: int|
            0 < small && bytes < 3 * small ==> (#[trigger] growpart::first_step(
                small,
                bytes,
                partnum,
                commit,
            ).1 matches GrowActionView::Finish(r) && r is Err),
{
    let n = sector as int;
    let padded = data + data;
    lemma_signature(padded, n);
    assert(padded.subrange(n, 2 * n) =~= data);
    assert(efi_part_at(padded, n) == efi_part_at(data, 0)) by {
        assert(forall|i: int| 0 <= i < n ==> #[trigger] padded[n + i] == data[i]);
        assert(padded[n + 0] == data[0]);
    }
}

} // verus!

//! What holds of every grown partition table.
use vstd::prelude::*;

use crate::bytes;
use crate::disk_laws;
use crate::gpt;
use crate::gpt::GptLayout;
use crate::growpart;
use crate::growpart::{GrowthView, WriteView};
use crate::image;
use crate::mbr;

verus! {

proof fn lemma_sealed(header: Seq<u8>, size: int)
    requires
        20 <= size <= header.len(),
    ensures
        gpt::crc_input(gpt::sealed(header, size), size) == gpt::crc_input(header, size),
        gpt::header_sealed(gpt::sealed(header, size), size),
        gpt::sealed(header, size).len() == header.len(),
{
    let out = gpt::sealed(header, size);
    assert(gpt::crc_input(out, size) =~= gpt::crc_input(header, size));
    bytes::field32_round_trip(header, 16, bytes::crc32_of(gpt::crc_input(header, size)) as int);
}

proof fn lemma_field32_apart(b: Seq<u8>, o: int, d: Seq<u8>, p: int)
    requires
        0 <= p,
        p + 4 <= b.len(),
        p + 4 <= o || o + d.len() <= p,
    ensures
        bytes::field32(bytes::splice(b, o, d), p) == bytes::field32(b, p),
{
}

proof fn lemma_field64_apart(b: Seq<u8>, o: int, d: Seq<u8>, p: int)
    requires
        0 <= p,
        p + 8 <= b.len(),
        p + 8 <= o || o + d.len() <= p,
    ensures
        bytes::field64(bytes::splice(b, o, d), p) == bytes::field64(b, p),
{
    lemma_field32_apart(b, o, d, p);
    lemma_field32_apart(b, o, d, p + 4);
}

/// A sealed header with the same signature, size and entry array states the
/// same layout.
proof fn lemma_same_layout(a: Seq<u8>, b: Seq<u8>, layout: GptLayout)
    requires
        gpt::gpt_layout(a) == Ok::<GptLayout, Seq<char>>(layout),
        a.len() == b.len(),
        forall|i: int| 0 <= i < 16 ==> a[i] == b[i],
        forall|i: int| 72 <= i < 88 ==> a[i] == b[i],
        gpt::header_sealed(b, layout.hdr_size as int),
    ensures
        gpt::gpt_signature(b) == gpt::gpt_signature(a),
        gpt::gpt_layout(b) == Ok::<GptLayout, Seq<char>>(layout),
{
    assert(a.take(8) =~= b.take(8));
    assert(gpt::stated_layout(a) == gpt::stated_layout(b));
}

/// The grown primary header is a header of the same table: it carries the
/// signature, its own CRC and the CRC of the entries, names the same entry
/// array, and states where the backup header and the last usable sector are.
#[verifier::rlimit(40)]
#[verifier::spinoff_prover]
pub proof fn grown_primary_is_valid(
    lba1: Seq<u8>,
    layout: GptLayout,
    total: int,
    end: int,
    entries_crc: u32,
)
    requires
        gpt::gpt_layout(lba1) == Ok::<GptLayout, Seq<char>>(layout),
        0 < total <= u64::MAX,
        0 <= end <= u64::MAX,
    ensures
        ({
            let primary = gpt::grown_primary(lba1, layout, total, end, entries_crc);
            &&& primary.len() == lba1.len()
            &&& gpt::gpt_signature(primary) == gpt::gpt_signature(lba1)
            &&& gpt::gpt_layout(primary) == Ok::<GptLayout, Seq<char>>(layout)
            &&& bytes::field64(primary, 32) == total - 1
            &&& bytes::field64(primary, 48) == end
            &&& bytes::field32(primary, 88) == entries_crc
        }),
{
    let size = layout.hdr_size as int;
    let a = bytes::splice(lba1, 32, bytes::le64(total - 1));
    let b = bytes::splice(a, 48, bytes::le64(end));
    let c = bytes::splice(b, 88, bytes::le32(entries_crc as int));
    let primary = gpt::sealed(c, size);
    lemma_sealed(c, size);
    let crc = bytes::le32(bytes::crc32_of(gpt::crc_input(c, size)) as int);
    bytes::field64_round_trip(lba1, 32, total - 1);
    bytes::field64_round_trip(a, 48, end);
    bytes::field32_round_trip(b, 88, entries_crc as int);
    lemma_field64_apart(a, 48, bytes::le64(end), 32);
    lemma_field64_apart(b, 88, bytes::le32(entries_crc as int), 32);
    lemma_field64_apart(b, 88, bytes::le32(entries_crc as int), 48);
    lemma_field64_apart(c, 16, crc, 32);
    lemma_field64_apart(c, 16, crc, 48);
    lemma_field32_apart(c, 16, crc, 88);
    lemma_same_layout(lba1, primary, layout);
}

/// The backup header carries its own CRC, sits in the last sector, points back
/// at the primary header and names the backup entry array; everything else it
/// says is what the primary header says.
#[verifier::rlimit(40)]
#[verifier::spinoff_prover]
pub proof fn grown_backup_is_valid(primary: Seq<u8>, layout: GptLayout, total: int, entries_lba: int)
    requires
        gpt::gpt_layout(primary) == Ok::<GptLayout, Seq<char>>(layout),
        0 < total <= u64::MAX,
        0 <= entries_lba <= u64::MAX,
    ensures
        ({
            let backup = gpt::grown_backup(primary, layout, total, entries_lba);
            &&& backup.len() == primary.len()
            &&& gpt::gpt_signature(backup) == gpt::gpt_signature(primary)
            &&& gpt::gpt_layout(backup) == Ok::<GptLayout, Seq<char>>(
                GptLayout { entries_lba: entries_lba as u64, ..layout },
            )
            &&& bytes::field64(backup, 24) == total - 1
            &&& bytes::field64(backup, 32) == 1
            &&& bytes::field64(backup, 48) == bytes::field64(primary, 48)
            &&& bytes::field32(backup, 88) == bytes::field32(primary, 88)
            &&& forall|i: int|
                0 <= i < primary.len() && !(16 <= i < 20) && !(24 <= i < 40) && !(72 <= i < 80)
                    ==> backup[i] == primary[i]
        }),
{
    let size = layout.hdr_size as int;
    let a = bytes::splice(primary, 24, bytes::le64(total - 1));
    let b = bytes::splice(a, 32, bytes::le64(1));
    let c = bytes::splice(b, 72, bytes::le64(entries_lba));
    let backup = gpt::sealed(c, size);
    lemma_sealed(c, size);
    let crc = bytes::le32(bytes::crc32_of(gpt::crc_input(c, size)) as int);
    bytes::field64_round_trip(primary, 24, total - 1);
    bytes::field64_round_trip(a, 32, 1);
    bytes::field64_round_trip(b, 72, entries_lba);
    lemma_field64_apart(a, 32, bytes::le64(1), 24);
    lemma_field64_apart(b, 72, bytes::le64(entries_lba), 24);
    lemma_field64_apart(b, 72, bytes::le64(entries_lba), 32);
    lemma_field64_apart(c, 16, crc, 24);
    lemma_field64_apart(c, 16, crc, 32);
    lemma_field64_apart(c, 16, crc, 72);
    assert(backup.take(8) =~= primary.take(8));
    assert(gpt::stated_layout(backup) == (GptLayout {
        entries_lba: entries_lba as u64,
        ..layout
    }));
    assert(bytes::field64(backup, 48) == bytes::field64(primary, 48));
    assert(bytes::field32(backup, 88) == bytes::field32(primary, 88));
}

proof fn lemma_entries_apart(layout: GptLayout, i: int, j: int)
    requires
        i != j,
    ensures
        layout.entry_at(i) + layout.esize <= layout.entry_at(j) || layout.entry_at(j)
            + layout.esize <= layout.entry_at(i),
{
    let e = layout.esize as int;
    assert(i < j ==> i * e + e <= j * e) by (nonlinear_arith)
        requires
            0 <= e,
    ;
    assert(j < i ==> j * e + e <= i * e) by (nonlinear_arith)
        requires
            0 <= e,
    ;
}

/// Growing a GPT partition changes the entry array in one place only, the
/// field that holds the last sector of that partition: every other byte, and
/// so every other partition, stays as it was.
#[verifier::rlimit(40)]
#[verifier::spinoff_prover]
pub proof fn only_the_end_changes(
    layout: GptLayout,
    entries: Seq<u8>,
    sector: int,
    idx: int,
    end: int,
)
    requires
        0 < sector,
        128 <= layout.esize,
        0 <= idx < layout.num_entries,
        entries.len() == layout.entries_bytes(),
        0 <= end <= u64::MAX,
    ensures
        ({
            let off = layout.entry_at(idx);
            let grown = gpt::grown_entries(layout, entries, sector, idx, end).take(
                layout.entries_bytes(),
            );
            &&& grown.len() == entries.len()
            &&& gpt::entry_end(grown, off) == end
            &&& gpt::entry_start(grown, off) == gpt::entry_start(entries, off)
            &&& gpt::entry_used(grown, off) == gpt::entry_used(entries, off)
            &&& forall|i: int|
                0 <= i < entries.len() && !(off + 40 <= i < off + 48) ==> grown[i] == entries[i]
            &&& forall|i: int|
                0 <= i < layout.num_entries && i != idx ==> {
                    &&& gpt::entry_used(grown, #[trigger] layout.entry_at(i)) == gpt::entry_used(
                        entries,
                        layout.entry_at(i),
                    )
                    &&& gpt::entry_start(grown, layout.entry_at(i)) == gpt::entry_start(
                        entries,
                        layout.entry_at(i),
                    )
                    &&& gpt::entry_end(grown, layout.entry_at(i)) == gpt::entry_end(
                        entries,
                        layout.entry_at(i),
                    )
                }
        }),
{
    let off = layout.entry_at(idx);
    let bytes = layout.entries_bytes();
    gpt::entry_fits(layout, idx);
    gpt::sectors_cover(layout.entries_bytes(), sector);
    let array = gpt::grown_entries(layout, entries, sector, idx, end);
    let grown = array.take(bytes);
    assert(grown =~= bytes::splice(entries, off + 40, bytes::le64(end)));
    bytes::field64_round_trip(entries, off + 40, end);
    lemma_field64_apart(entries, off + 40, bytes::le64(end), off + 32);
    lemma_used_apart(entries, grown, off);
    assert forall|i: int| 0 <= i < layout.num_entries && i != idx implies {
        &&& gpt::entry_used(grown, #[trigger] layout.entry_at(i)) == gpt::entry_used(
            entries,
            layout.entry_at(i),
        )
        &&& gpt::entry_start(grown, layout.entry_at(i)) == gpt::entry_start(
            entries,
            layout.entry_at(i),
        )
        &&& gpt::entry_end(grown, layout.entry_at(i)) == gpt::entry_end(
            entries,
            layout.entry_at(i),
        )
    } by {
        let o = layout.entry_at(i);
        gpt::entry_fits(layout, i);
        lemma_entries_apart(layout, i, idx);
        lemma_used_apart(entries, grown, o);
        lemma_field64_apart(entries, off + 40, bytes::le64(end), o + 32);
        lemma_field64_apart(entries, off + 40, bytes::le64(end), o + 40);
    }
}

proof fn lemma_used_apart(a: Seq<u8>, b: Seq<u8>, off: int)
    requires
        forall|p: int| off <= p < off + 16 ==> a[p] == b[p],
    ensures
        gpt::entry_used(a, off) == gpt::entry_used(b, off),
{
    if gpt::entry_used(a, off) {
        let k = choose|k: int| 0 <= k < 16 && #[trigger] a[off + k] != 0;
        assert(b[off + k] != 0);
    }
    if gpt::entry_used(b, off) {
        let k = choose|k: int| 0 <= k < 16 && #[trigger] b[off + k] != 0;
        assert(a[off + k] != 0);
    }
}

proof fn lemma_growth_facts(
    lba1: Seq<u8>,
    layout: GptLayout,
    entries: Seq<u8>,
    sector: int,
    total: int,
    partnum: int,
    commit: bool,
)
    requires
        gpt::gpt_growth(lba1, layout, entries, sector, total, partnum, commit) matches Ok(Some(_)),
    ensures
        0 <= partnum - 1 < layout.num_entries,
        gpt::entry_used(entries, layout.entry_at(partnum - 1)),
        !gpt::not_last(layout, entries, partnum - 1),
        0 <= gpt::last_usable(layout, sector, total),
        gpt::entry_end(entries, layout.entry_at(partnum - 1)) < gpt::last_usable(
            layout,
            sector,
            total,
        ),
{
}

proof fn lemma_nothing_to_gain(
    lba1: Seq<u8>,
    layout: GptLayout,
    entries: Seq<u8>,
    sector: int,
    total: int,
    partnum: int,
    commit: bool,
)
    requires
        bytes::crc32_of(entries) == bytes::field32(lba1, 88),
        0 <= partnum - 1 < layout.num_entries,
        gpt::entry_used(entries, layout.entry_at(partnum - 1)),
        !gpt::not_last(layout, entries, partnum - 1),
        0 <= gpt::last_usable(layout, sector, total),
        gpt::entry_end(entries, layout.entry_at(partnum - 1)) >= gpt::last_usable(
            layout,
            sector,
            total,
        ),
    ensures
        gpt::gpt_growth(lba1, layout, entries, sector, total, partnum, commit) == Ok::<
            Option<GrowthView>,
            Seq<char>,
        >(None),
{
}

proof fn lemma_still_last(
    layout: GptLayout,
    entries: Seq<u8>,
    sector: int,
    idx: int,
    end: int,
)
    requires
        0 < sector,
        128 <= layout.esize,
        0 <= idx < layout.num_entries,
        entries.len() == layout.entries_bytes(),
        gpt::entry_end(entries, layout.entry_at(idx)) <= end <= u64::MAX,
        0 <= end,
        !gpt::not_last(layout, entries, idx),
    ensures
        !gpt::not_last(
            layout,
            gpt::grown_entries(layout, entries, sector, idx, end).take(layout.entries_bytes()),
            idx,
        ),
{
    only_the_end_changes(layout, entries, sector, idx, end);
    let grown = gpt::grown_entries(layout, entries, sector, idx, end).take(layout.entries_bytes());
    assert forall|i: int| 0 <= i < layout.num_entries implies !#[trigger] gpt::starts_behind(
        layout,
        grown,
        idx,
        i,
    ) by {
        assert(!gpt::starts_behind(layout, entries, idx, i));
        let o = layout.entry_at(i);
    }
}

#[verifier::rlimit(40)]
#[verifier::spinoff_prover]
proof fn lemma_final_parts(
    lba1: Seq<u8>,
    layout: GptLayout,
    entries: Seq<u8>,
    sector: int,
    total: int,
    partnum: int,
    again: bool,
    header: Seq<u8>,
    grown: Seq<u8>,
)
    requires
        0 < sector,
        gpt::gpt_layout(lba1) == Ok::<GptLayout, Seq<char>>(layout),
        entries.len() == layout.entries_bytes(),
        total <= u64::MAX,
        gpt::gpt_growth(lba1, layout, entries, sector, total, partnum, true) matches Ok(Some(_)),
        grown == gpt::grown_entries(
            layout,
            entries,
            sector,
            partnum - 1,
            gpt::last_usable(layout, sector, total),
        ).take(layout.entries_bytes()),
        header == gpt::grown_primary(
            lba1,
            layout,
            total,
            gpt::last_usable(layout, sector, total),
            bytes::crc32_of(grown),
        ),
    ensures
        gpt::gpt_signature(header) == gpt::gpt_signature(lba1),
        gpt::gpt_layout(header) == Ok::<GptLayout, Seq<char>>(layout),
        gpt::gpt_growth(header, layout, grown, sector, total, partnum, again) == Ok::<
            Option<GrowthView>,
            Seq<char>,
        >(None),
{
    let idx = partnum - 1;
    let end = gpt::last_usable(layout, sector, total);
    gpt::sectors_cover(layout.entries_bytes(), sector);
    lemma_growth_facts(lba1, layout, entries, sector, total, partnum, true);
    let off = layout.entry_at(idx);
    assert(gpt::entry_used(grown, off) && gpt::entry_end(grown, off) == end) by {
        only_the_end_changes(layout, entries, sector, idx, end);
    }
    lemma_still_last(layout, entries, sector, idx, end);
    grown_primary_is_valid(lba1, layout, total, end, bytes::crc32_of(grown));
    lemma_nothing_to_gain(header, layout, grown, sector, total, partnum, again);
}

/// A GPT partition that has been grown fills its disk: growing it again, from
/// the header and entries that were written, finds nothing to gain.
#[verifier::rlimit(40)]
#[verifier::spinoff_prover]
pub proof fn gpt_growth_is_final(
    lba1: Seq<u8>,
    layout: GptLayout,
    entries: Seq<u8>,
    sector: int,
    total: int,
    partnum: int,
    again: bool,
)
    requires
        0 < sector,
        gpt::gpt_layout(lba1) == Ok::<GptLayout, Seq<char>>(layout),
        entries.len() == layout.entries_bytes(),
        total <= u64::MAX,
        gpt::gpt_growth(lba1, layout, entries, sector, total, partnum, true) matches Ok(Some(_)),
    ensures
        ({
            let writes = gpt::gpt_writes(lba1, layout, entries, sector, total, partnum - 1);
            let header = writes[3].data;
            let array = writes[2].data.take(layout.entries_bytes());
            &&& gpt::gpt_signature(header) == gpt::gpt_signature(lba1)
            &&& gpt::gpt_layout(header) == Ok::<GptLayout, Seq<char>>(layout)
            &&& gpt::gpt_growth(header, layout, array, sector, total, partnum, again) == Ok::<
                Option<GrowthView>,
                Seq<char>,
            >(None)
        }),
{
    let idx = partnum - 1;
    let end = gpt::last_usable(layout, sector, total);
    let array = gpt::grown_entries(layout, entries, sector, idx, end);
    let grown = array.take(layout.entries_bytes());
    let header = gpt::grown_primary(lba1, layout, total, end, bytes::crc32_of(grown));
    let writes = gpt::gpt_writes(lba1, layout, entries, sector, total, idx);
    assert(writes[3].data == header && writes[2].data == array);
    lemma_final_parts(lba1, layout, entries, sector, total, partnum, again, header, grown);
}

/// Whether the primary entry array lies behind the primary header and ahead of
/// the place that the backup takes when the table is grown.
pub open spec fn array_in_place(layout: GptLayout, sector: int, total: int) -> bool {
    &&& 2 <= layout.entries_lba
    &&& layout.entries_lba + growpart::sectors_for(layout.entries_bytes(), sector)
        <= gpt::last_usable(layout, sector, total) + 1
}

proof fn lemma_scale(a: int, b: int, sector: int)
    requires
        a <= b,
        0 < sector,
    ensures
        a * sector <= b * sector,
{
    assert(a * sector <= b * sector) by (nonlinear_arith)
        requires
            a <= b,
            0 < sector,
    ;
}

/// A disk after the first `k` of four writes.
spec fn after_some(disk: Seq<u8>, w: Seq<WriteView>, sector: int, k: int) -> Seq<u8> {
    let d1 = image::stored(disk, w[0].lba * sector, w[0].data);
    let d2 = image::stored(d1, w[1].lba * sector, w[1].data);
    let d3 = image::stored(d2, w[2].lba * sector, w[2].data);
    let d4 = image::stored(d3, w[3].lba * sector, w[3].data);
    if k == 0 {
        disk
    } else if k == 1 {
        d1
    } else if k == 2 {
        d2
    } else if k == 3 {
        d3
    } else {
        d4
    }
}

proof fn lemma_after_some(disk: Seq<u8>, w: Seq<WriteView>, sector: int, k: int)
    requires
        w.len() == 4,
        0 <= k <= 4,
    ensures
        image::after_writes(disk, w.take(k), sector) == after_some(disk, w, sector, k),
    decreases k,
{
    if k > 0 {
        lemma_after_some(disk, w, sector, k - 1);
        assert(w.take(k).drop_last() =~= w.take(k - 1));
        assert(w.take(k).last() == w[k - 1]);
    }
}

/// Where the four writes of a grown GPT land on a disk of `total` sectors.
#[verifier::spinoff_prover]
#[verifier::rlimit(40)]
proof fn lemma_positions(
    disk: Seq<u8>,
    lba1: Seq<u8>,
    layout: GptLayout,
    entries: Seq<u8>,
    sector: int,
    idx: int,
)
    requires
        0 < sector,
        lba1.len() == sector,
        gpt::gpt_layout(lba1) == Ok::<GptLayout, Seq<char>>(layout),
        entries.len() == layout.entries_bytes(),
        0 <= gpt::last_usable(layout, sector, disk.len() as int / sector),
    ensures
        ({
            let total = disk.len() as int / sector;
            let end = gpt::last_usable(layout, sector, total);
            let es = growpart::sectors_for(layout.entries_bytes(), sector);
            let w = gpt::gpt_writes(lba1, layout, entries, sector, total, idx);
            &&& w.len() == 4
            &&& 0 <= es
            &&& total * sector <= disk.len()
            &&& layout.entries_bytes() <= es * sector
            &&& w[0].data.len() == es * sector
            &&& w[1].data.len() == sector
            &&& w[2].data.len() == es * sector
            &&& w[3].data.len() == sector
            &&& w[0].lba == end + 1
            &&& w[1].lba == total - 1
            &&& w[2].lba == layout.entries_lba
            &&& w[3].lba == 1
            &&& (end + 1) * sector + es * sector == (total - 1) * sector
            &&& (total - 1) * sector + sector == total * sector
        }),
{
    let total = disk.len() as int / sector;
    let end = gpt::last_usable(layout, sector, total);
    let es = growpart::sectors_for(layout.entries_bytes(), sector);
    let len = disk.len() as int;
    gpt::sectors_cover(layout.entries_bytes(), sector);
    assert(total * sector <= len) by (nonlinear_arith)
        requires
            0 < sector,
            0 <= len,
            total == len / sector,
    ;
    assert((end + 1) * sector + es * sector == (total - 1) * sector) by (nonlinear_arith)
        requires
            end + 1 + es == total - 1,
    ;
    assert((total - 1) * sector + sector == total * sector) by (nonlinear_arith);
    let array = gpt::grown_entries(layout, entries, sector, idx, end);
    assert(array.len() == es * sector);
    let crc = bytes::crc32_of(array.take(layout.entries_bytes()));
    let primary = gpt::grown_primary(lba1, layout, total, end, crc);
    assert(primary.len() == sector);
    let backup = gpt::grown_backup(primary, layout, total, end + 1);
    assert(backup.len() == sector);
}

/// The disk growth of a disk with a GPT in terms of its header and entries.
proof fn lemma_gpt_disk(
    disk: Seq<u8>,
    lba1: Seq<u8>,
    layout: GptLayout,
    entries: Seq<u8>,
    sector: int,
    partnum: int,
    commit: bool,
)
    requires
        0 < sector,
        disk.len() >= 3 * sector,
        image::sector_of(disk, sector, 1) == lba1,
        gpt::gpt_signature(lba1),
        gpt::gpt_layout(lba1) == Ok::<GptLayout, Seq<char>>(layout),
        layout.entries_lba * sector + layout.entries_bytes() <= disk.len(),
        image::entries_of(disk, sector, layout) == entries,
    ensures
        image::disk_growth(disk, sector, partnum, commit) == gpt::gpt_growth(
            lba1,
            layout,
            entries,
            sector,
            disk.len() as int / sector,
            partnum,
            commit,
        ),
{
}

/// Growing a GPT partition of a disk is final: once the writes have reached
/// the disk, growing the partition again finds nothing to gain.
#[verifier::rlimit(40)]
#[verifier::spinoff_prover]
pub proof fn gpt_disk_growth_is_final(
    disk: Seq<u8>,
    sector: int,
    layout: GptLayout,
    partnum: int,
    again: bool,
)
    requires
        0 < sector,
        disk.len() <= u64::MAX,
        gpt::gpt_signature(image::sector_of(disk, sector, 1)),
        gpt::gpt_layout(image::sector_of(disk, sector, 1)) == Ok::<GptLayout, Seq<char>>(layout),
        array_in_place(layout, sector, disk.len() as int / sector),
        image::disk_growth(disk, sector, partnum, true) matches Ok(Some(_)),
    ensures
        ({
            let growth = image::disk_growth(disk, sector, partnum, true)->Ok_0->Some_0;
            let grown = image::after_writes(disk, growth.writes, sector);
            &&& grown.len() == disk.len()
            &&& image::disk_growth(grown, sector, partnum, again) == Ok::<
                Option<GrowthView>,
                Seq<char>,
            >(None)
        }),
{
    let total = disk.len() as int / sector;
    let lba1 = image::sector_of(disk, sector, 1);
    let entries = image::entries_of(disk, sector, layout);
    let idx = partnum - 1;
    let end = gpt::last_usable(layout, sector, total);
    let es = growpart::sectors_for(layout.entries_bytes(), sector);
    assert(total <= disk.len()) by (nonlinear_arith)
        requires
            0 < sector,
            total == disk.len() as int / sector,
    ;
    assert(1 * sector == sector);
    lemma_gpt_disk(disk, lba1, layout, entries, sector, partnum, true);
    lemma_growth_facts(lba1, layout, entries, sector, total, partnum, true);
    let w = gpt::gpt_writes(lba1, layout, entries, sector, total, idx);
    lemma_positions(disk, lba1, layout, entries, sector, idx);
    lemma_after_some(disk, w, sector, 4);
    assert(w.take(4) =~= w);
    lemma_scale(layout.entries_lba + es, end + 1, sector);
    lemma_scale(2, layout.entries_lba as int, sector);
    assert((layout.entries_lba + es) * sector == layout.entries_lba * sector + es * sector)
        by (nonlinear_arith);
    assert(2 * sector == sector + sector);
    lemma_scale(end + 1, total, sector);
    let grown = after_some(disk, w, sector, 4);
    assert(grown.len() == disk.len());
    assert(image::sector_of(grown, sector, 1) =~= w[3].data);
    assert(image::entries_of(grown, sector, layout) =~= w[2].data.take(layout.entries_bytes()));
    gpt_growth_is_final(lba1, layout, entries, sector, total, partnum, again);
    lemma_gpt_disk(
        grown,
        w[3].data,
        layout,
        w[2].data.take(layout.entries_bytes()),
        sector,
        partnum,
        again,
    );
}

/// If writing a grown GPT stops before the primary structures are touched, the
/// disk can be grown again as if nothing had happened: nothing ahead of the
/// backup has changed, and growing comes to the same as before.
#[verifier::rlimit(40)]
#[verifier::spinoff_prover]
pub proof fn interrupted_before_primary(
    disk: Seq<u8>,
    sector: int,
    layout: GptLayout,
    partnum: int,
    done: int,
    commit: bool,
)
    requires
        0 < sector,
        disk.len() <= u64::MAX,
        gpt::gpt_signature(image::sector_of(disk, sector, 1)),
        gpt::gpt_layout(image::sector_of(disk, sector, 1)) == Ok::<GptLayout, Seq<char>>(layout),
        array_in_place(layout, sector, disk.len() as int / sector),
        image::disk_growth(disk, sector, partnum, true) matches Ok(Some(_)),
        0 <= done <= 2,
    ensures
        ({
            let growth = image::disk_growth(disk, sector, partnum, true)->Ok_0->Some_0;
            let after = image::after_writes(disk, growth.writes.take(done), sector);
            let backup = gpt::last_usable(layout, sector, disk.len() as int / sector) + 1;
            &&& after.len() == disk.len()
            &&& forall|i: int| 0 <= i < backup * sector ==> after[i] == disk[i]
            &&& image::disk_growth(after, sector, partnum, commit) == image::disk_growth(
                disk,
                sector,
                partnum,
                commit,
            )
        }),
{
    let total = disk.len() as int / sector;
    let lba1 = image::sector_of(disk, sector, 1);
    let entries = image::entries_of(disk, sector, layout);
    let idx = partnum - 1;
    let end = gpt::last_usable(layout, sector, total);
    let es = growpart::sectors_for(layout.entries_bytes(), sector);
    assert(1 * sector == sector);
    lemma_gpt_disk(disk, lba1, layout, entries, sector, partnum, true);
    lemma_gpt_disk(disk, lba1, layout, entries, sector, partnum, commit);
    lemma_growth_facts(lba1, layout, entries, sector, total, partnum, true);
    let w = gpt::gpt_writes(lba1, layout, entries, sector, total, idx);
    lemma_positions(disk, lba1, layout, entries, sector, idx);
    lemma_after_some(disk, w, sector, done);
    lemma_scale(layout.entries_lba + es, end + 1, sector);
    lemma_scale(2, layout.entries_lba as int, sector);
    assert((layout.entries_lba + es) * sector == layout.entries_lba * sector + es * sector)
        by (nonlinear_arith);
    assert(2 * sector == sector + sector);
    lemma_scale(end + 1, total, sector);
    lemma_scale(end + 1, total - 1, sector);
    let after = after_some(disk, w, sector, done);
    assert(after.len() == disk.len());
    assert(image::sector_of(after, sector, 1) =~= lba1);
    assert(image::entries_of(after, sector, layout) =~= entries);
    lemma_gpt_disk(after, lba1, layout, entries, sector, partnum, commit);
}

/// When the primary structures of a GPT are touched, the backup is already
/// complete, and it stays so: the last sector holds a valid header of the grown
/// table, and the entry array that it names carries the CRC that it states.
#[verifier::rlimit(40)]
#[verifier::spinoff_prover]
pub proof fn backup_complete_before_primary(
    disk: Seq<u8>,
    sector: int,
    layout: GptLayout,
    partnum: int,
    done: int,
)
    requires
        0 < sector,
        disk.len() <= u64::MAX,
        gpt::gpt_signature(image::sector_of(disk, sector, 1)),
        gpt::gpt_layout(image::sector_of(disk, sector, 1)) == Ok::<GptLayout, Seq<char>>(layout),
        array_in_place(layout, sector, disk.len() as int / sector),
        image::disk_growth(disk, sector, partnum, true) matches Ok(Some(_)),
        2 <= done <= 4,
    ensures
        ({
            let growth = image::disk_growth(disk, sector, partnum, true)->Ok_0->Some_0;
            let after = image::after_writes(disk, growth.writes.take(done), sector);
            let total = disk.len() as int / sector;
            let backup = image::sector_of(after, sector, total - 1);
            let place = gpt::last_usable(layout, sector, total) + 1;
            let there = GptLayout { entries_lba: place as u64, ..layout };
            &&& gpt::gpt_signature(backup)
            &&& gpt::gpt_layout(backup) == Ok::<GptLayout, Seq<char>>(there)
            &&& bytes::crc32_of(image::entries_of(after, sector, there)) == bytes::field32(
                backup,
                88,
            )
        }),
{
    let total = disk.len() as int / sector;
    let lba1 = image::sector_of(disk, sector, 1);
    let entries = image::entries_of(disk, sector, layout);
    let idx = partnum - 1;
    let end = gpt::last_usable(layout, sector, total);
    let es = growpart::sectors_for(layout.entries_bytes(), sector);
    assert(total <= disk.len()) by (nonlinear_arith)
        requires
            0 < sector,
            total == disk.len() as int / sector,
    ;
    assert(1 * sector == sector);
    lemma_gpt_disk(disk, lba1, layout, entries, sector, partnum, true);
    lemma_growth_facts(lba1, layout, entries, sector, total, partnum, true);
    let w = gpt::gpt_writes(lba1, layout, entries, sector, total, idx);
    lemma_positions(disk, lba1, layout, entries, sector, idx);
    lemma_after_some(disk, w, sector, done);
    lemma_scale(layout.entries_lba + es, end + 1, sector);
    lemma_scale(2, layout.entries_lba as int, sector);
    assert((layout.entries_lba + es) * sector == layout.entries_lba * sector + es * sector)
        by (nonlinear_arith);
    assert(2 * sector == sector + sector);
    lemma_scale(end + 1, total - 1, sector);
    let after = after_some(disk, w, sector, done);
    let there = GptLayout { entries_lba: (end + 1) as u64, ..layout };
    let crc = bytes::crc32_of(w[0].data.take(layout.entries_bytes()));
    grown_primary_is_valid(lba1, layout, total, end, crc);
    let primary = gpt::grown_primary(lba1, layout, total, end, crc);
    grown_backup_is_valid(primary, layout, total, end + 1);
    assert(image::sector_of(after, sector, total - 1) =~= w[1].data);
    assert(image::entries_of(after, sector, there) =~= w[0].data.take(layout.entries_bytes()));
}

proof fn lemma_field32_moved(a: Seq<u8>, b: Seq<u8>, o: int, at: int)
    requires
        forall|i: int| 0 <= i < 4 ==> #[trigger] b[at + o + i] == a[o + i],
    ensures
        bytes::field32(b, at + o) == bytes::field32(a, o),
{
    assert(b[at + o + 0] == a[o + 0]);
    assert(b[at + o + 1] == a[o + 1]);
    assert(b[at + o + 2] == a[o + 2]);
    assert(b[at + o + 3] == a[o + 3]);
}

/// The number in a field of a part of a buffer is the number at that place of
/// the buffer.
proof fn lemma_field64_in_part(b: Seq<u8>, at: int, end: int, o: int)
    requires
        0 <= at,
        0 <= o,
        at + o + 8 <= end <= b.len(),
    ensures
        bytes::field32(b.subrange(at, end), o) == bytes::field32(b, at + o),
        bytes::field64(b.subrange(at, end), o) == bytes::field64(b, at + o),
{
    let part = b.subrange(at, end);
    assert(forall|i: int| 0 <= i < 4 ==> #[trigger] b[at + o + i] == part[o + i]);
    lemma_field32_moved(part, b, o, at);
    assert(forall|i: int| 0 <= i < 4 ==> #[trigger] b[at + (o + 4) + i] == part[o + 4 + i]);
    lemma_field32_moved(part, b, o + 4, at);
    assert(at + (o + 4) == at + o + 4);
}

/// The grown header says what the header said, but for where the backup is, how
/// far partitions may go, and the two CRCs.
pub proof fn little_of_the_header_changes(
    lba1: Seq<u8>,
    layout: GptLayout,
    total: int,
    end: int,
    entries_crc: u32,
)
    ensures
        ({
            let primary = gpt::grown_primary(lba1, layout, total, end, entries_crc);
            &&& primary.len() == lba1.len()
            &&& forall|i: int|
                0 <= i < lba1.len() && !(16 <= i < 20) && !(32 <= i < 40) && !(48 <= i < 56)
                    && !(88 <= i < 92) ==> primary[i] == lba1[i]
        }),
{
}

/// A disk with the four parts of a table stored on it one by one.
#[verifier::opaque]
spec fn four_stores(
    disk: Seq<u8>,
    array: Seq<u8>,
    backup: Seq<u8>,
    primary: Seq<u8>,
    at: int,
    copy: int,
    last: int,
) -> Seq<u8> {
    image::stored(
        image::stored(image::stored(image::stored(disk, copy, array), last, backup), at, array),
        primary.len() as int,
        primary,
    )
}

/// Four parts of a disk that do not touch each other, stored one by one.
proof fn lemma_four_parts(
    disk: Seq<u8>,
    array: Seq<u8>,
    backup: Seq<u8>,
    primary: Seq<u8>,
    at: int,
    copy: int,
    last: int,
)
    requires
        primary.len() == backup.len(),
        2 * primary.len() <= at,
        at + array.len() <= copy,
        copy + array.len() == last,
        last + backup.len() <= disk.len(),
    ensures
        ({
            let n = primary.len() as int;
            let grown = four_stores(disk, array, backup, primary, at, copy, last);
            &&& grown.len() == disk.len()
            &&& grown.subrange(n, 2 * n) == primary
            &&& grown.subrange(at, at + array.len()) == array
            &&& grown.subrange(copy, last) == array
            &&& grown.subrange(last, last + n) == backup
            &&& forall|i: int| n <= i < 2 * n ==> #[trigger] grown[i] == primary[i - n]
            &&& forall|i: int|
                at <= i < at + array.len() ==> #[trigger] grown[i] == array[i - at]
            &&& forall|i: int|
                0 <= i < disk.len() && !(n <= i < 2 * n) && !(at <= i < at + array.len()) && !(copy
                    <= i < last + n) ==> #[trigger] grown[i] == disk[i]
        }),
{
    let n = primary.len() as int;
    let d1 = image::stored(disk, copy, array);
    let d2 = image::stored(d1, last, backup);
    let d3 = image::stored(d2, at, array);
    let grown = image::stored(d3, n, primary);
    reveal(four_stores);
    assert(grown == four_stores(disk, array, backup, primary, at, copy, last));
    assert(grown.subrange(n, 2 * n) =~= primary);
    assert(grown.subrange(at, at + array.len()) =~= array);
    assert(grown.subrange(copy, last) =~= array);
    assert(grown.subrange(last, last + n) =~= backup);
}

/// The parts of a grown table: the entry array, the backup header and the header.
#[verifier::rlimit(40)]
#[verifier::spinoff_prover]
proof fn lemma_grown_parts(
    lba1: Seq<u8>,
    layout: GptLayout,
    entries: Seq<u8>,
    sector: int,
    total: int,
    idx: int,
)
    requires
        0 < sector,
        gpt::gpt_layout(lba1) == Ok::<GptLayout, Seq<char>>(layout),
        entries.len() == layout.entries_bytes(),
        0 <= idx < layout.num_entries,
        total <= u64::MAX,
        0 <= gpt::last_usable(layout, sector, total),
    ensures
        ({
            let w = gpt::gpt_writes(lba1, layout, entries, sector, total, idx);
            let end = gpt::last_usable(layout, sector, total);
            let len = layout.entries_bytes();
            let field = layout.entry_at(idx) + 40;
            let array = w[0].data;
            let backup = w[1].data;
            let primary = w[3].data;
            &&& array.len() == layout.padded_bytes(sector)
            &&& len <= array.len()
            &&& 0 <= field && field + 8 <= len
            &&& w[2].data == array
            &&& bytes::field64(array, field) == end
            &&& forall|i: int|
                0 <= i < len && !(field <= i < field + 8) ==> #[trigger] array[i] == entries[i]
            &&& forall|i: int| len <= i < array.len() ==> #[trigger] array[i] == 0
            &&& primary.len() == lba1.len()
            &&& gpt::gpt_layout(primary) == Ok::<GptLayout, Seq<char>>(layout)
            &&& bytes::field64(primary, 32) == total - 1
            &&& bytes::field64(primary, 48) == end
            &&& bytes::field32(primary, 88) == bytes::crc32_of(array.take(len))
            &&& forall|i: int|
                0 <= i < lba1.len() && !(16 <= i < 20) && !(32 <= i < 40) && !(48 <= i < 56)
                    && !(88 <= i < 92) ==> #[trigger] primary[i] == lba1[i]
            &&& backup.len() == lba1.len()
            &&& gpt::gpt_layout(backup) == Ok::<GptLayout, Seq<char>>(
                GptLayout { entries_lba: (end + 1) as u64, ..layout },
            )
            &&& bytes::field64(backup, 24) == total - 1
            &&& bytes::field64(backup, 32) == 1
            &&& bytes::field64(backup, 72) == end + 1
            &&& forall|i: int|
                0 <= i < lba1.len() && !(16 <= i < 20) && !(24 <= i < 40) && !(72 <= i < 80)
                    ==> backup[i] == primary[i]
        }),
{
    let w = gpt::gpt_writes(lba1, layout, entries, sector, total, idx);
    let end = gpt::last_usable(layout, sector, total);
    let len = layout.entries_bytes();
    let field = layout.entry_at(idx) + 40;
    let array = gpt::grown_entries(layout, entries, sector, idx, end);
    assert(w[0].data == array);
    gpt::sectors_cover(len, sector);
    gpt::entry_fits(layout, idx);
    let crc = bytes::crc32_of(array.take(len));
    let primary = gpt::grown_primary(lba1, layout, total, end, crc);
    assert(w[3].data == primary);
    let backup = gpt::grown_backup(primary, layout, total, end + 1);
    assert(w[1].data == backup);
    let padding = Seq::new((layout.padded_bytes(sector) - len) as nat, |i: int| 0u8);
    bytes::field64_round_trip(entries + padding, field, end);
    grown_primary_is_valid(lba1, layout, total, end, crc);
    little_of_the_header_changes(lba1, layout, total, end, crc);
    grown_backup_is_valid(primary, layout, total, end + 1);
    assert(gpt::gpt_layout(backup)->Ok_0.entries_lba == bytes::field64(backup, 72) as u64);
    lemma_field64_bound(backup, 72);
}

proof fn lemma_field64_bound(b: Seq<u8>, o: int)
    ensures
        0 <= bytes::field64(b, o) <= u64::MAX,
{
}

/// What a disk holds after the parts of a table have been stored.
#[verifier::rlimit(40)]
#[verifier::spinoff_prover]
proof fn lemma_stored_parts(
    disk: Seq<u8>,
    grown: Seq<u8>,
    array: Seq<u8>,
    backup: Seq<u8>,
    primary: Seq<u8>,
    at: int,
    copy: int,
    last: int,
    len: int,
    field: int,
)
    requires
        92 <= primary.len() == backup.len(),
        2 * primary.len() <= at,
        at + array.len() <= copy,
        copy + array.len() == last,
        last + backup.len() <= disk.len(),
        0 <= field,
        field + 8 <= len <= array.len(),
        grown == four_stores(disk, array, backup, primary, at, copy, last),
        forall|i: int|
            0 <= i < len && !(field <= i < field + 8) ==> #[trigger] array[i] == disk[at + i],
        forall|i: int| len <= i < array.len() ==> #[trigger] array[i] == 0,
        forall|i: int|
            0 <= i < primary.len() && !(16 <= i < 20) && !(32 <= i < 40) && !(48 <= i < 56)
                && !(88 <= i < 92) ==> #[trigger] primary[i] == disk[primary.len() + i],
    ensures
        ({
            let n = primary.len() as int;
            &&& grown.len() == disk.len()
            &&& grown.subrange(n, 2 * n) == primary
            &&& grown.subrange(at, at + array.len()) == array
            &&& grown.subrange(at, at + len) == array.take(len)
            &&& grown.subrange(copy, last) == array
            &&& grown.subrange(last, last + n) == backup
            &&& bytes::field64(grown, at + field) == bytes::field64(array, field)
            &&& bytes::field64(grown, n + 32) == bytes::field64(primary, 32)
            &&& bytes::field64(grown, n + 48) == bytes::field64(primary, 48)
            &&& bytes::field32(grown, n + 88) == bytes::field32(primary, 88)
            &&& forall|i: int| at + len <= i < at + array.len() ==> grown[i] == 0
            &&& forall|i: int|
                0 <= i < copy && !(at + field <= i < at + field + 8) && !(n + 16 <= i < n + 20)
                    && !(n + 32 <= i < n + 40) && !(n + 48 <= i < n + 56) && !(n + 88 <= i < n + 92)
                    && !(at + len <= i < at + array.len()) ==> grown[i] == disk[i]
            &&& forall|i: int| last + n <= i < disk.len() ==> grown[i] == disk[i]
        }),
{
    let n = primary.len() as int;
    lemma_four_parts(disk, array, backup, primary, at, copy, last);
    assert(grown.subrange(at, at + len) =~= array.take(len));
    lemma_field64_in_part(grown, at, at + array.len(), field);
    lemma_field64_in_part(grown, n, 2 * n, 32);
    lemma_field64_in_part(grown, n, 2 * n, 48);
    lemma_field32_moved(primary, grown, 88, n);
    assert forall|i: int|
        0 <= i < copy && !(at + field <= i < at + field + 8) && !(n + 16 <= i < n + 20) && !(n + 32
            <= i < n + 40) && !(n + 48 <= i < n + 56) && !(n + 88 <= i < n + 92) && !(at + len <= i
            < at + array.len()) implies grown[i] == disk[i] by {
        if n <= i < 2 * n {
            assert(grown[i] == primary[i - n]);
        } else if at <= i < at + len {
            assert(grown[i] == array[i - at]);
        }
    }
}

/// The writes that grow a GPT partition of a disk, in terms of the disk.
#[verifier::spinoff_prover]
proof fn lemma_disk_writes(
    disk: Seq<u8>,
    sector: int,
    layout: GptLayout,
    partnum: int,
    count: int,
)
    requires
        0 < sector,
        disk.len() <= u64::MAX,
        gpt::gpt_signature(disk.subrange(sector, 2 * sector)),
        gpt::gpt_layout(disk.subrange(sector, 2 * sector)) == Ok::<GptLayout, Seq<char>>(layout),
        (count - 1) * sector < layout.num_entries * layout.esize <= count * sector,
        image::disk_growth(disk, sector, partnum, true) matches Ok(Some(_)),
    ensures
        ({
            let total = disk.len() as int / sector;
            let at = layout.entries_lba * sector;
            let len = layout.num_entries * layout.esize;
            &&& 92 <= sector
            &&& 0 <= partnum - 1 < layout.num_entries
            &&& gpt::last_usable(layout, sector, total) == total - 2 - count
            &&& layout.padded_bytes(sector) == count * sector
            &&& 0 <= total - 2 - count
            &&& total <= u64::MAX
            &&& total * sector <= disk.len()
            &&& at + len <= disk.len()
            &&& 2 * sector <= disk.len()
            &&& image::disk_growth(disk, sector, partnum, true)->Ok_0->Some_0.writes
                == gpt::gpt_writes(
                disk.subrange(sector, 2 * sector),
                layout,
                disk.subrange(at, at + len),
                sector,
                total,
                partnum - 1,
            )
        }),
{
    let total = disk.len() as int / sector;
    let lba1 = image::sector_of(disk, sector, 1);
    assert(1 * sector == sector);
    assert(lba1 =~= disk.subrange(sector, 2 * sector));
    let entries = image::entries_of(disk, sector, layout);
    disk_laws::sectors_just_cover(count, layout.entries_bytes(), sector);
    let len = disk.len() as int;
    assert(total <= len && total * sector <= len) by (nonlinear_arith)
        requires
            0 < sector,
            0 <= len,
            total == len / sector,
    ;
    lemma_gpt_disk(disk, lba1, layout, entries, sector, partnum, true);
    lemma_growth_facts(lba1, layout, entries, sector, total, partnum, true);
}

/// Four writes, one by one.
proof fn lemma_four_writes(disk: Seq<u8>, w: Seq<WriteView>, sector: int)
    requires
        w.len() == 4,
    ensures
        image::after_writes(disk, w, sector) == image::stored(
            image::stored(
                image::stored(
                    image::stored(disk, w[0].lba * sector, w[0].data),
                    w[1].lba * sector,
                    w[1].data,
                ),
                w[2].lba * sector,
                w[2].data,
            ),
            w[3].lba * sector,
            w[3].data,
        ),
{
    lemma_after_some(disk, w, sector, 4);
    assert(w.take(4) =~= w);
}

/// Where the parts of a grown table are on a disk of `total` sectors.
proof fn lemma_places(sector: int, total: int, count: int, array_lba: int)
    requires
        0 < sector,
        2 <= array_lba,
        array_lba + count <= total - 1 - count,
    ensures
        2 * sector <= array_lba * sector,
        array_lba * sector + count * sector <= (total - 1 - count) * sector,
        (total - 1 - count) * sector + count * sector == (total - 1) * sector,
        (total - 1) * sector + sector == total * sector,
{
    lemma_scale(2, array_lba, sector);
    lemma_scale(array_lba + count, total - 1 - count, sector);
    assert((array_lba + count) * sector == array_lba * sector + count * sector)
        by (nonlinear_arith);
    assert((total - 1 - count) * sector + count * sector == (total - 1) * sector)
        by (nonlinear_arith);
    assert((total - 1) * sector + sector == total * sector) by (nonlinear_arith);
}

/// Whether the parts of a grown table are what they have to be, and `grown` is
/// the disk with them in their places.
#[verifier::opaque]
spec fn placed(
    disk: Seq<u8>,
    grown: Seq<u8>,
    sector: int,
    layout: GptLayout,
    partnum: int,
    count: int,
    parts: (Seq<u8>, Seq<u8>, Seq<u8>),
) -> bool {
    let (array, backup, primary) = parts;
    let total = disk.len() as int / sector;
    let end = total - 2 - count;
    let len = layout.num_entries * layout.esize;
    let at = layout.entries_lba * sector;
    let field = (partnum - 1) * layout.esize + 40;
    let copy = (total - 1 - count) * sector;
    let last = (total - 1) * sector;
    &&& grown == four_stores(disk, array, backup, primary, at, copy, last)
    &&& 92 <= sector
    &&& array.len() == count * sector
    &&& primary.len() == sector
    &&& backup.len() == sector
    &&& 2 * sector <= at
    &&& at + array.len() <= copy
    &&& copy + array.len() == last
    &&& last + sector == total * sector
    &&& total * sector <= disk.len()
    &&& len <= array.len()
    &&& 0 <= field && field + 8 <= len
    &&& bytes::field64(array, field) == end
    &&& forall|i: int|
        0 <= i < len && !(field <= i < field + 8) ==> #[trigger] array[i] == disk[at + i]
    &&& forall|i: int| len <= i < array.len() ==> #[trigger] array[i] == 0
    &&& gpt::gpt_layout(primary) == Ok::<GptLayout, Seq<char>>(layout)
    &&& bytes::field64(primary, 32) == total - 1
    &&& bytes::field64(primary, 48) == end
    &&& bytes::field32(primary, 88) == bytes::crc32_of(array.take(len))
    &&& forall|i: int|
        0 <= i < sector && !(16 <= i < 20) && !(32 <= i < 40) && !(48 <= i < 56) && !(88
            <= i < 92) ==> #[trigger] primary[i] == disk[sector + i]
    &&& gpt::gpt_layout(backup) == Ok::<GptLayout, Seq<char>>(
        GptLayout { entries_lba: (end + 1) as u64, ..layout },
    )
    &&& bytes::field64(backup, 24) == total - 1
    &&& bytes::field64(backup, 32) == 1
    &&& bytes::field64(backup, 72) == end + 1
    &&& forall|i: int|
        0 <= i < sector && !(16 <= i < 20) && !(24 <= i < 40) && !(72 <= i < 80)
            ==> backup[i] == primary[i]
}

/// Whether the parts of a grown table are what they have to be, in terms of the
/// header and the entries before.
#[verifier::opaque]
spec fn made_of(
    lba1: Seq<u8>,
    entries: Seq<u8>,
    sector: int,
    layout: GptLayout,
    total: int,
    idx: int,
    count: int,
    parts: (Seq<u8>, Seq<u8>, Seq<u8>),
) -> bool {
    let (array, backup, primary) = parts;
    let end = total - 2 - count;
    let len = layout.num_entries * layout.esize;
    let field = idx * layout.esize + 40;
    &&& array.len() == count * sector
    &&& primary.len() == sector
    &&& backup.len() == sector
    &&& len <= array.len()
    &&& 0 <= field && field + 8 <= len
    &&& bytes::field64(array, field) == end
    &&& forall|i: int|
        0 <= i < len && !(field <= i < field + 8) ==> #[trigger] array[i] == entries[i]
    &&& forall|i: int| len <= i < array.len() ==> #[trigger] array[i] == 0
    &&& gpt::gpt_layout(primary) == Ok::<GptLayout, Seq<char>>(layout)
    &&& bytes::field64(primary, 32) == total - 1
    &&& bytes::field64(primary, 48) == end
    &&& bytes::field32(primary, 88) == bytes::crc32_of(array.take(len))
    &&& forall|i: int|
        0 <= i < sector && !(16 <= i < 20) && !(32 <= i < 40) && !(48 <= i < 56) && !(88
            <= i < 92) ==> #[trigger] primary[i] == lba1[i]
    &&& gpt::gpt_layout(backup) == Ok::<GptLayout, Seq<char>>(
        GptLayout { entries_lba: (end + 1) as u64, ..layout },
    )
    &&& bytes::field64(backup, 24) == total - 1
    &&& bytes::field64(backup, 32) == 1
    &&& bytes::field64(backup, 72) == end + 1
    &&& forall|i: int|
        0 <= i < sector && !(16 <= i < 20) && !(24 <= i < 40) && !(72 <= i < 80)
            ==> backup[i] == primary[i]
}

/// The parts of a grown table, and that the writes put them in their places.
#[verifier::rlimit(40)]
#[verifier::spinoff_prover]
proof fn lemma_parts_in_place(
    disk: Seq<u8>,
    lba1: Seq<u8>,
    layout: GptLayout,
    entries: Seq<u8>,
    sector: int,
    total: int,
    idx: int,
    count: int,
) -> (parts: (Seq<u8>, Seq<u8>, Seq<u8>))
    requires
        0 < sector,
        lba1.len() == sector,
        gpt::gpt_layout(lba1) == Ok::<GptLayout, Seq<char>>(layout),
        entries.len() == layout.entries_bytes(),
        0 <= idx < layout.num_entries,
        total <= u64::MAX,
        0 <= gpt::last_usable(layout, sector, total),
        gpt::last_usable(layout, sector, total) == total - 2 - count,
        layout.padded_bytes(sector) == count * sector,
    ensures
        ({
            let (array, backup, primary) = parts;
            &&& image::after_writes(
                disk,
                gpt::gpt_writes(lba1, layout, entries, sector, total, idx),
                sector,
            ) == four_stores(
                disk,
                array,
                backup,
                primary,
                layout.entries_lba * sector,
                (total - 1 - count) * sector,
                (total - 1) * sector,
            )
            &&& made_of(lba1, entries, sector, layout, total, idx, count, parts)
        }),
{
    reveal(made_of);
    let w = gpt::gpt_writes(lba1, layout, entries, sector, total, idx);
    lemma_grown_parts(lba1, layout, entries, sector, total, idx);
    assert(w.len() == 4 && w[0].lba == total - 1 - count && w[1].lba == total - 1 && w[2].lba
        == layout.entries_lba && w[3].lba == 1);
    assert(1 * sector == sector);
    assert(image::after_writes(disk, w, sector) == four_stores(
        disk,
        w[0].data,
        w[1].data,
        w[3].data,
        layout.entries_lba * sector,
        (total - 1 - count) * sector,
        (total - 1) * sector,
    )) by {
        reveal(four_stores);
        lemma_four_writes(disk, w, sector);
    }
    (w[0].data, w[1].data, w[3].data)
}

/// Parts that are made of what is on a disk, in their places.
#[verifier::rlimit(40)]
#[verifier::spinoff_prover]
proof fn lemma_placed(
    disk: Seq<u8>,
    grown: Seq<u8>,
    sector: int,
    layout: GptLayout,
    partnum: int,
    count: int,
    parts: (Seq<u8>, Seq<u8>, Seq<u8>),
)
    requires
        92 <= sector,
        2 * sector <= disk.len(),
        0 <= layout.entries_lba * sector,
        layout.entries_lba * sector + layout.num_entries * layout.esize <= disk.len(),
        2 <= layout.entries_lba,
        layout.entries_lba + count <= disk.len() as int / sector - 1 - count,
        (disk.len() as int / sector) * sector <= disk.len(),
        made_of(
            disk.subrange(sector, 2 * sector),
            disk.subrange(
                layout.entries_lba * sector,
                layout.entries_lba * sector + layout.num_entries * layout.esize,
            ),
            sector,
            layout,
            disk.len() as int / sector,
            partnum - 1,
            count,
            parts,
        ),
        grown == four_stores(
            disk,
            parts.0,
            parts.1,
            parts.2,
            layout.entries_lba * sector,
            (disk.len() as int / sector - 1 - count) * sector,
            (disk.len() as int / sector - 1) * sector,
        ),
    ensures
        placed(disk, grown, sector, layout, partnum, count, parts),
{
    reveal(made_of);
    reveal(placed);
    let total = disk.len() as int / sector;
    let at = layout.entries_lba * sector;
    let len = layout.num_entries * layout.esize;
    let lba1 = disk.subrange(sector, 2 * sector);
    let entries = disk.subrange(at, at + len);
    lemma_places(sector, total, count, layout.entries_lba as int);
    assert forall|i: int| 0 <= i < len implies #[trigger] entries[i] == disk[at + i] by {}
    assert forall|i: int| 0 <= i < sector implies #[trigger] lba1[i] == disk[sector + i] by {}
}

/// The parts that growing a GPT partition of a disk stores, and where.
#[verifier::rlimit(60)]
#[verifier::spinoff_prover]
proof fn lemma_disk_parts(
    disk: Seq<u8>,
    sector: int,
    layout: GptLayout,
    partnum: int,
    count: int,
) -> (parts: (Seq<u8>, Seq<u8>, Seq<u8>))
    requires
        0 < sector,
        disk.len() <= u64::MAX,
        gpt::gpt_signature(disk.subrange(sector, 2 * sector)),
        gpt::gpt_layout(disk.subrange(sector, 2 * sector)) == Ok::<GptLayout, Seq<char>>(layout),
        (count - 1) * sector < layout.num_entries * layout.esize <= count * sector,
        2 <= layout.entries_lba,
        layout.entries_lba + count <= disk.len() as int / sector - 1 - count,
        image::disk_growth(disk, sector, partnum, true) matches Ok(Some(_)),
    ensures
        placed(
            disk,
            image::after_writes(
                disk,
                image::disk_growth(disk, sector, partnum, true)->Ok_0->Some_0.writes,
                sector,
            ),
            sector,
            layout,
            partnum,
            count,
            parts,
        ),
{
    let total = disk.len() as int / sector;
    let at = layout.entries_lba * sector;
    let len = layout.num_entries * layout.esize;
    let idx = partnum - 1;
    let lba1 = disk.subrange(sector, 2 * sector);
    let entries = disk.subrange(at, at + len);
    lemma_disk_writes(disk, sector, layout, partnum, count);
    let parts = lemma_parts_in_place(
        disk,
        lba1,
        layout,
        entries,
        sector,
        total,
        idx,
        count,
    );
    let w = image::disk_growth(disk, sector, partnum, true)->Ok_0->Some_0.writes;
    let grown = image::after_writes(disk, w, sector);
    assert(at >= 0) by (nonlinear_arith)
        requires
            at == layout.entries_lba * sector,
            0 <= layout.entries_lba,
            0 < sector,
    ;
    lemma_placed(disk, grown, sector, layout, partnum, count, parts);
    parts
}

/// Whether `grown` is what a disk holds once a GPT partition of it has been
/// grown, where `count` sectors are what the entry array takes: the entry says
/// the new end, the header where the backup is and how far partitions may go,
/// both with the right CRC; the array is filled up with zeros; the backup array,
/// right behind the last usable sector, is a copy of the array, and the backup
/// header in the last sector is the header seen from the other end. Nothing else
/// changes.
pub open spec fn is_grown(
    disk: Seq<u8>,
    grown: Seq<u8>,
    sector: int,
    layout: GptLayout,
    partnum: int,
    count: int,
) -> bool {
    let total = disk.len() as int / sector;
    let end = total - 2 - count;
    let len = layout.num_entries * layout.esize;
    let at = layout.entries_lba * sector;
    let field = at + (partnum - 1) * layout.esize + 40;
    let copy = (end + 1) * sector;
    let last = (total - 1) * sector;
    let header = grown.subrange(sector, 2 * sector);
    let backup = grown.subrange(last, total * sector);
    &&& grown.len() == disk.len()
    &&& bytes::field64(grown, field) == end
    &&& bytes::field64(grown, sector + 32) == total - 1
    &&& bytes::field64(grown, sector + 48) == end
    &&& bytes::field32(grown, sector + 88) == bytes::crc32_of(grown.subrange(at, at + len))
    &&& gpt::gpt_layout(header) == Ok::<GptLayout, Seq<char>>(layout)
    &&& forall|i: int| at + len <= i < at + count * sector ==> grown[i] == 0
    &&& forall|i: int|
        0 <= i < copy && !(field <= i < field + 8) && !(sector + 16 <= i < sector + 20)
            && !(sector + 32 <= i < sector + 40) && !(sector + 48 <= i < sector + 56)
            && !(sector + 88 <= i < sector + 92) && !(at + len <= i < at + count * sector)
            ==> grown[i] == disk[i]
    &&& grown.subrange(copy, last) == grown.subrange(at, at + count * sector)
    &&& bytes::field64(backup, 24) == total - 1
    &&& bytes::field64(backup, 32) == 1
    &&& bytes::field64(backup, 72) == end + 1
    &&& gpt::gpt_layout(backup) == Ok::<GptLayout, Seq<char>>(
        GptLayout { entries_lba: (end + 1) as u64, ..layout },
    )
    &&& forall|i: int|
        0 <= i < sector && !(16 <= i < 20) && !(24 <= i < 40) && !(72 <= i < 80)
            ==> backup[i] == header[i]
    &&& forall|i: int| total * sector <= i < disk.len() ==> grown[i] == disk[i]
}

/// The parts of a grown table in their places make a grown disk.
#[verifier::rlimit(40)]
#[verifier::spinoff_prover]
proof fn lemma_is_grown(
    disk: Seq<u8>,
    grown: Seq<u8>,
    sector: int,
    layout: GptLayout,
    partnum: int,
    count: int,
    parts: (Seq<u8>, Seq<u8>, Seq<u8>),
)
    requires
        placed(disk, grown, sector, layout, partnum, count, parts),
    ensures
        is_grown(disk, grown, sector, layout, partnum, count),
{
    reveal(placed);
    let (array, backup, primary) = parts;
    let total = disk.len() as int / sector;
    let len = layout.num_entries * layout.esize;
    let at = layout.entries_lba * sector;
    let field = (partnum - 1) * layout.esize + 40;
    let copy = (total - 1 - count) * sector;
    let last = (total - 1) * sector;
    lemma_stored_parts(disk, grown, array, backup, primary, at, copy, last, len, field);
}

/// Growing a GPT partition of a disk, whatever the disk, leaves what a grown disk
/// holds.
pub proof fn what_a_grown_disk_holds(
    disk: Seq<u8>,
    sector: int,
    layout: GptLayout,
    partnum: int,
    count: int,
)
    requires
        0 < sector,
        disk.len() <= u64::MAX,
        gpt::gpt_signature(disk.subrange(sector, 2 * sector)),
        gpt::gpt_layout(disk.subrange(sector, 2 * sector)) == Ok::<GptLayout, Seq<char>>(layout),
        (count - 1) * sector < layout.num_entries * layout.esize <= count * sector,
        2 <= layout.entries_lba,
        layout.entries_lba + count <= disk.len() as int / sector - 1 - count,
        image::disk_growth(disk, sector, partnum, true) matches Ok(Some(_)),
    ensures
        is_grown(
            disk,
            image::after_writes(
                disk,
                image::disk_growth(disk, sector, partnum, true)->Ok_0->Some_0.writes,
                sector,
            ),
            sector,
            layout,
            partnum,
            count,
        ),
{
    let parts = lemma_disk_parts(disk, sector, layout, partnum, count);
    let growth = image::disk_growth(disk, sector, partnum, true)->Ok_0->Some_0;
    let grown = image::after_writes(disk, growth.writes, sector);
    lemma_is_grown(disk, grown, sector, layout, partnum, count, parts);
}

/// Without `commit` growing comes to the same as with it, except that there is
/// nothing to write.
pub proof fn dry_run_only_reports(disk: Seq<u8>, sector: int, partnum: int)
    ensures
        match image::disk_growth(disk, sector, partnum, true) {
            Ok(Some(growth)) => image::disk_growth(disk, sector, partnum, false) == Ok::<
                Option<GrowthView>,
                Seq<char>,
            >(Some(GrowthView { report: growth.report, writes: Seq::<WriteView>::empty() })),
            other => image::disk_growth(disk, sector, partnum, false) == other,
        },
{
}

/// A partition only ever gains space, at its end and within the disk.
pub proof fn growth_stays_on_the_disk(disk: Seq<u8>, sector: int, partnum: int, commit: bool)
    requires
        0 < sector <= u64::MAX,
        disk.len() <= u64::MAX,
        image::disk_growth(disk, sector, partnum, commit) matches Ok(Some(_)),
    ensures
        ({
            let report = image::disk_growth(
                disk,
                sector,
                partnum,
                commit,
            )->Ok_0->Some_0.report;
            &&& report.old_end < report.new_end
            &&& (report.new_end + 1) * sector <= disk.len()
            &&& report.sector == sector
        }),
{
    let len = disk.len() as int;
    let total = len / sector;
    assert(total * sector <= len && total <= len) by (nonlinear_arith)
        requires
            0 < sector,
            0 <= len,
            total == len / sector,
    ;
    let lba1 = image::sector_of(disk, sector, 1);
    let end = if gpt::gpt_signature(lba1) {
        let layout = gpt::gpt_layout(lba1)->Ok_0;
        gpt::sectors_cover(layout.entries_bytes(), sector);
        gpt::last_usable(layout, sector, total)
    } else {
        let start = mbr::slot_start(image::sector_of(disk, sector, 0), partnum);
        start + mbr::mbr_room(total, start) - 1
    };
    lemma_scale(end + 1, total, sector);
}

/// The space that a GPT partition gains is free: no partition of the table
/// starts in it.
pub proof fn gained_space_is_free(
    lba1: Seq<u8>,
    layout: GptLayout,
    entries: Seq<u8>,
    sector: int,
    total: int,
    partnum: int,
    commit: bool,
    i: int,
)
    requires
        entries.len() == layout.entries_bytes(),
        gpt::gpt_growth(lba1, layout, entries, sector, total, partnum, commit) matches Ok(Some(_)),
        0 <= i < layout.num_entries,
        gpt::entry_used(entries, layout.entry_at(i)),
    ensures
        i == partnum - 1 || gpt::entry_start(entries, layout.entry_at(i)) <= gpt::entry_end(
            entries,
            layout.entry_at(partnum - 1),
        ),
{
    assert(!gpt::starts_behind(layout, entries, partnum - 1, i));
}

/// A primary partition that starts at or behind the end of the disk, as it can
/// in a table made for a larger one, has nothing to gain.
pub proof fn nothing_to_gain_behind_the_end(
    lba0: Seq<u8>,
    total: int,
    sector: int,
    partnum: int,
    commit: bool,
)
    requires
        mbr::mbr_refusal(lba0, partnum) is None,
        mbr::slot_start(lba0, partnum) >= total,
    ensures
        mbr::mbr_growth(lba0, total, sector, partnum, commit) == Ok::<
            Option<GrowthView>,
            Seq<char>,
        >(None),
{
}

/// Growing a primary partition changes its size in the table and nothing else
/// in the sector, and the sector is still a partition table.
pub proof fn only_the_size_changes(lba0: Seq<u8>, partnum: int, size: int)
    requires
        lba0.len() >= 512,
        1 <= partnum <= 4,
        0 <= size <= u32::MAX,
    ensures
        ({
            let grown = mbr::grown_mbr(lba0, partnum, size);
            let field = mbr::slot(partnum) + 12;
            &&& grown.len() == lba0.len()
            &&& mbr::slot_size(grown, partnum) == size
            &&& mbr::mbr_signature(grown) == mbr::mbr_signature(lba0)
            &&& forall|i: int|
                0 <= i < lba0.len() && !(field <= i < field + 4) ==> grown[i] == lba0[i]
            &&& forall|n: int|
                1 <= n <= 4 ==> #[trigger] mbr::slot_type(grown, n) == mbr::slot_type(lba0, n)
                    && mbr::slot_start(grown, n) == mbr::slot_start(lba0, n)
            &&& forall|n: int|
                1 <= n <= 4 && n != partnum ==> #[trigger] mbr::slot_size(grown, n)
                    == mbr::slot_size(lba0, n)
        }),
{
    bytes::field32_round_trip(lba0, mbr::slot(partnum) + 12, size);
    let grown = mbr::grown_mbr(lba0, partnum, size);
    let d = bytes::le32(size);
    assert forall|n: int| 1 <= n <= 4 implies #[trigger] mbr::slot_type(grown, n)
        == mbr::slot_type(lba0, n) && mbr::slot_start(grown, n) == mbr::slot_start(lba0, n) by {
        lemma_field32_apart(lba0, mbr::slot(partnum) + 12, d, mbr::slot(n) + 8);
    }
    assert forall|n: int| 1 <= n <= 4 && n != partnum implies #[trigger] mbr::slot_size(grown, n)
        == mbr::slot_size(lba0, n) by {
        lemma_field32_apart(lba0, mbr::slot(partnum) + 12, d, mbr::slot(n) + 12);
    }
}

/// A primary partition that has been grown fills its disk: growing it again
/// finds nothing to gain.
pub proof fn mbr_growth_is_final(
    lba0: Seq<u8>,
    total: int,
    sector: int,
    partnum: int,
    again: bool,
)
    requires
        lba0.len() >= 512,
        mbr::mbr_growth(lba0, total, sector, partnum, true) matches Ok(Some(_)),
    ensures
        ({
            let grown = mbr::mbr_growth(
                lba0,
                total,
                sector,
                partnum,
                true,
            )->Ok_0->Some_0.writes[0].data;
            &&& grown.len() == lba0.len()
            &&& mbr::mbr_signature(grown) == mbr::mbr_signature(lba0)
            &&& mbr::mbr_growth(grown, total, sector, partnum, again) == Ok::<
                Option<GrowthView>,
                Seq<char>,
            >(None)
        }),
{
    let start = mbr::slot_start(lba0, partnum);
    let room = mbr::mbr_room(total, start);
    let grown = mbr::grown_mbr(lba0, partnum, room);
    only_the_size_changes(lba0, partnum, room);
    assert(mbr::mbr_growth(lba0, total, sector, partnum, true)->Ok_0->Some_0.writes[0].data
        == grown);
    assert(mbr::slot_type(grown, partnum) == mbr::slot_type(lba0, partnum));
    assert forall|i: int| 1 <= i <= 4 implies !#[trigger] mbr::slot_behind(grown, partnum, i) by {
        assert(!mbr::slot_behind(lba0, partnum, i));
        assert(mbr::slot_type(grown, i) == mbr::slot_type(lba0, i));
    }
    assert(mbr::mbr_refusal(grown, partnum) is None);
}

/// Growing a primary partition of a disk is final, and touches nothing of the
/// disk but the four bytes that hold the size of that partition.
pub proof fn mbr_disk_growth_is_final(disk: Seq<u8>, sector: int, partnum: int, again: bool)
    requires
        512 <= sector <= u64::MAX,
        disk.len() <= u64::MAX,
        !gpt::gpt_signature(image::sector_of(disk, sector, 1)),
        image::disk_growth(disk, sector, partnum, true) matches Ok(Some(_)),
    ensures
        ({
            let growth = image::disk_growth(disk, sector, partnum, true)->Ok_0->Some_0;
            let grown = image::after_writes(disk, growth.writes, sector);
            let field = mbr::slot(partnum) + 12;
            &&& grown.len() == disk.len()
            &&& forall|i: int|
                0 <= i < disk.len() && !(field <= i < field + 4) ==> grown[i] == disk[i]
            &&& image::disk_growth(grown, sector, partnum, again) == Ok::<
                Option<GrowthView>,
                Seq<char>,
            >(None)
        }),
{
    let total = disk.len() as int / sector;
    let lba0 = image::sector_of(disk, sector, 0);
    let lba1 = image::sector_of(disk, sector, 1);
    assert(1 * sector == sector && 0 * sector == 0);
    let growth = image::disk_growth(disk, sector, partnum, true)->Ok_0->Some_0;
    let w = growth.writes;
    mbr_growth_is_final(lba0, total, sector, partnum, again);
    only_the_size_changes(
        lba0,
        partnum,
        mbr::mbr_room(total, mbr::slot_start(lba0, partnum)),
    );
    assert(w.len() == 1);
    assert(w.drop_last() =~= Seq::<WriteView>::empty());
    assert(image::after_writes(disk, w.drop_last(), sector) == disk);
    let grown = image::after_writes(disk, w, sector);
    assert(grown == image::stored(disk, 0, w[0].data));
    assert(grown.len() == disk.len());
    assert(image::sector_of(grown, sector, 0) =~= w[0].data);
    assert(image::sector_of(grown, sector, 1) =~= lba1);
}

} // verus!

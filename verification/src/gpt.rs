//! GUID partition tables: reading the header, and growing the last partition.
use vstd::prelude::*;
use vstd::slice::*;
use vstd::string::*;

use crate::bytes;
use crate::bytes::{crc32, ru32, ru64, wu32, wu64};
use crate::growpart;
use crate::growpart::{
    partition_message, GrowReport, Growth, GrowthView, SectorWrite, WriteView,
};
use crate::number;
use crate::number::decimal_text;

verus! {

/// The bytes "EFI PART" that open a GPT header.
pub open spec fn gpt_signature(lba1: Seq<u8>) -> bool {
    lba1.take(8) == seq![0x45u8, 0x46u8, 0x49u8, 0x20u8, 0x50u8, 0x41u8, 0x52u8, 0x54u8]
}

/// Where a GPT keeps its entries, and how large its header is.
#[derive(Debug, Clone, Copy, PartialEq, Eq, Structural)]
pub struct GptLayout {
    /// Bytes of the header that its CRC covers.
    pub hdr_size: u32,
    /// First sector of the entry array.
    pub entries_lba: u64,
    pub num_entries: u32,
    /// Bytes per entry.
    pub esize: u32,
}

impl GptLayout {
    /// Bytes in the entry array.
    pub open spec fn entries_bytes(self) -> int {
        self.num_entries * self.esize
    }

    /// Where entry `i`, counted from zero, begins in the array.
    pub open spec fn entry_at(self, i: int) -> int {
        i * self.esize
    }

    /// Whether a table can have this layout in sectors of `sector` bytes.
    pub open spec fn plausible(self, sector: int) -> bool {
        &&& 92 <= self.hdr_size <= sector
        &&& 128 <= self.esize
        &&& 0 < self.entries_bytes() <= 0x10_0000
    }

    /// Bytes in the entry array when it fills whole sectors.
    pub open spec fn padded_bytes(self, sector: int) -> int {
        growpart::sectors_for(self.entries_bytes(), sector) * sector
    }
}

/// The first `size` bytes of a header with its CRC field cleared.
pub open spec fn crc_input(header: Seq<u8>, size: int) -> Seq<u8> {
    bytes::splice(header, 16, seq![0u8, 0u8, 0u8, 0u8]).take(size)
}

/// Whether the header holds its own CRC.
pub open spec fn header_sealed(header: Seq<u8>, size: int) -> bool {
    bytes::crc32_of(crc_input(header, size)) == bytes::field32(header, 16)
}

/// The header with its CRC field set to its own CRC.
pub open spec fn sealed(header: Seq<u8>, size: int) -> Seq<u8> {
    bytes::splice(
        header,
        16,
        bytes::le32(bytes::crc32_of(crc_input(header, size)) as int),
    )
}

/// The layout that a header states.
pub open spec fn stated_layout(header: Seq<u8>) -> GptLayout {
    GptLayout {
        hdr_size: bytes::field32(header, 12) as u32,
        entries_lba: bytes::field64(header, 72) as u64,
        num_entries: bytes::field32(header, 80) as u32,
        esize: bytes::field32(header, 84) as u32,
    }
}

/// The layout of the table whose header sector is `lba1`, or why the header
/// cannot be trusted.
pub open spec fn gpt_layout(lba1: Seq<u8>) -> Result<GptLayout, Seq<char>> {
    let hdr_size = bytes::field32(lba1, 12);
    let layout = stated_layout(lba1);
    if !(92 <= hdr_size <= lba1.len()) {
        Err("implausible GPT header size "@ + number::decimal(hdr_size))
    } else if !header_sealed(lba1, hdr_size) {
        Err("primary GPT header CRC mismatch — refusing to touch the disk"@)
    } else if !layout.plausible(lba1.len() as int) {
        Err(
            "implausible GPT entry layout ("@ + number::decimal(layout.num_entries as int)
                + " x "@ + number::decimal(layout.esize as int) + ")"@,
        )
    } else {
        Ok(layout)
    }
}

/// Whether the entry at `off` describes a partition: its type is not all zeros.
pub open spec fn entry_used(entries: Seq<u8>, off: int) -> bool {
    exists|k: int| 0 <= k < 16 && #[trigger] entries[off + k] != 0
}

/// First sector of the partition whose entry is at `off`.
pub open spec fn entry_start(entries: Seq<u8>, off: int) -> int {
    bytes::field64(entries, off + 32)
}

/// Last sector of the partition whose entry is at `off`.
pub open spec fn entry_end(entries: Seq<u8>, off: int) -> int {
    bytes::field64(entries, off + 40)
}

/// Whether entry `i` is another partition that starts behind entry `idx`.
pub open spec fn starts_behind(layout: GptLayout, entries: Seq<u8>, idx: int, i: int) -> bool {
    &&& i != idx
    &&& entry_used(entries, layout.entry_at(i))
    &&& entry_start(entries, layout.entry_at(i)) > entry_end(entries, layout.entry_at(idx))
}

/// Whether any partition starts behind entry `idx`.
pub open spec fn not_last(layout: GptLayout, entries: Seq<u8>, idx: int) -> bool {
    exists|i: int| 0 <= i < layout.num_entries && #[trigger] starts_behind(layout, entries, idx, i)
}

/// The last sector that partitions may use on a disk of `total` sectors: the
/// backup entries and the backup header come behind it.
pub open spec fn last_usable(layout: GptLayout, sector: int, total: int) -> int {
    total - 2 - growpart::sectors_for(layout.entries_bytes(), sector)
}

/// The entry array, filled up to whole sectors, with entry `idx` ending at `end`.
pub open spec fn grown_entries(
    layout: GptLayout,
    entries: Seq<u8>,
    sector: int,
    idx: int,
    end: int,
) -> Seq<u8> {
    let padding = Seq::new(
        (layout.padded_bytes(sector) - layout.entries_bytes()) as nat,
        |i: int| 0u8,
    );
    bytes::splice(entries + padding, layout.entry_at(idx) + 40, bytes::le64(end))
}

/// The primary header of the grown table on a disk of `total` sectors.
pub open spec fn grown_primary(
    lba1: Seq<u8>,
    layout: GptLayout,
    total: int,
    end: int,
    entries_crc: u32,
) -> Seq<u8> {
    let alternate = bytes::splice(lba1, 32, bytes::le64(total - 1));
    let usable = bytes::splice(alternate, 48, bytes::le64(end));
    let array = bytes::splice(usable, 88, bytes::le32(entries_crc as int));
    sealed(array, layout.hdr_size as int)
}

/// The backup header that goes with a primary header.
pub open spec fn grown_backup(
    primary: Seq<u8>,
    layout: GptLayout,
    total: int,
    backup_entries_lba: int,
) -> Seq<u8> {
    let current = bytes::splice(primary, 24, bytes::le64(total - 1));
    let alternate = bytes::splice(current, 32, bytes::le64(1));
    let array = bytes::splice(alternate, 72, bytes::le64(backup_entries_lba));
    sealed(array, layout.hdr_size as int)
}

/// The writes that make entry `idx` end at the last usable sector. The backup
/// structures come first, so that the primary ones stay intact until the
/// backup is complete.
pub open spec fn gpt_writes(
    lba1: Seq<u8>,
    layout: GptLayout,
    entries: Seq<u8>,
    sector: int,
    total: int,
    idx: int,
) -> Seq<WriteView> {
    let end = last_usable(layout, sector, total);
    let array = grown_entries(layout, entries, sector, idx, end);
    let entries_crc = bytes::crc32_of(array.take(layout.entries_bytes()));
    let primary = grown_primary(lba1, layout, total, end, entries_crc);
    let backup = grown_backup(primary, layout, total, end + 1);
    seq![
        WriteView { lba: end + 1, data: array, label: "backup GPT entries"@ },
        WriteView { lba: total - 1, data: backup, label: "backup GPT header"@ },
        WriteView {
            lba: layout.entries_lba as int,
            data: array,
            label: "GPT entries"@,
        },
        WriteView { lba: 1, data: primary, label: "GPT header"@ },
    ]
}

/// What growing partition `partnum` of a GPT comes to.
pub open spec fn gpt_growth(
    lba1: Seq<u8>,
    layout: GptLayout,
    entries: Seq<u8>,
    sector: int,
    total: int,
    partnum: int,
    commit: bool,
) -> Result<Option<GrowthView>, Seq<char>> {
    let idx = partnum - 1;
    let off = layout.entry_at(idx);
    let end = last_usable(layout, sector, total);
    if bytes::crc32_of(entries) != bytes::field32(lba1, 88) {
        Err("GPT entries CRC mismatch — refusing to touch the disk"@)
    } else if !(0 <= idx < layout.num_entries) {
        Err("no partition "@ + number::decimal(partnum))
    } else if !entry_used(entries, off) {
        Err(growpart::about_partition(partnum, " is empty"@))
    } else if not_last(layout, entries, idx) {
        Err(
            growpart::about_partition(
                partnum,
                " is not the last partition; not growing"@,
            ),
        )
    } else if end < 0 {
        Err("disk too small for GPT"@)
    } else if end <= entry_end(entries, off) {
        Ok(None)
    } else {
        Ok(
            Some(
                GrowthView {
                    report: GrowReport {
                        partnum: partnum as u32,
                        start: entry_start(entries, off) as u64,
                        old_end: entry_end(entries, off) as u64,
                        new_end: end as u64,
                        sector: sector as u64,
                    },
                    writes: if commit {
                        gpt_writes(lba1, layout, entries, sector, total, idx)
                    } else {
                        Seq::<WriteView>::empty()
                    },
                },
            ),
        )
    }
}

/// Whether a sector opens a GPT header.
pub fn has_gpt_signature(lba1: &[u8]) -> (r: bool)
    requires
        lba1@.len() >= 8,
    ensures
        r == gpt_signature(lba1@),
{
    let r = lba1[0] == 0x45 && lba1[1] == 0x46 && lba1[2] == 0x49 && lba1[3] == 0x20 && lba1[4]
        == 0x50 && lba1[5] == 0x41 && lba1[6] == 0x52 && lba1[7] == 0x54;
    proof {
        let head = lba1@.take(8);
        let magic = seq![0x45u8, 0x46u8, 0x49u8, 0x20u8, 0x50u8, 0x41u8, 0x52u8, 0x54u8];
        if r {
            assert(head =~= magic);
        } else if head == magic {
            assert(forall|i: int| 0 <= i < 8 ==> head[i] == lba1@[i]);
            assert(head[0] == 0x45 && head[1] == 0x46 && head[2] == 0x49 && head[3] == 0x20
                && head[4] == 0x50 && head[5] == 0x41 && head[6] == 0x52 && head[7] == 0x54);
        }
    }
    r
}

/// The CRC of the first `size` bytes of a header, its CRC field taken as zero.
fn header_crc(header: &[u8], size: usize) -> (r: u32)
    requires
        20 <= header@.len(),
        size <= header@.len(),
    ensures
        r == bytes::crc32_of(crc_input(header@, size as int)),
{
    let mut copy = slice_to_vec(header);
    copy[16] = 0;
    copy[17] = 0;
    copy[18] = 0;
    copy[19] = 0;
    assert(copy@.subrange(0, size as int) =~= crc_input(header@, size as int));
    crc32(slice_subrange(copy.as_slice(), 0, size))
}

/// Stores the CRC of a header in the header.
pub fn seal_gpt_crc(hdr: &mut [u8], hdr_size: usize)
    requires
        20 <= old(hdr)@.len(),
        hdr_size <= old(hdr)@.len(),
    ensures
        final(hdr)@ == sealed(old(hdr)@, hdr_size as int),
{
    let c: u32 = header_crc(hdr, hdr_size);
    wu32(hdr, 16, c);
}

/// Reads the layout of the table whose header sector is `lba1`.
pub fn read_gpt_layout(lba1: &[u8]) -> (r: Result<GptLayout, String>)
    requires
        lba1@.len() >= 16,
    ensures
        match r {
            Ok(layout) => gpt_layout(lba1@) == Ok::<GptLayout, Seq<char>>(layout),
            Err(e) => gpt_layout(lba1@) == Err::<GptLayout, Seq<char>>(e@),
        },
{
    let hdr_size: u32 = ru32(lba1, 12);
    if hdr_size < 92 || (hdr_size as usize) > lba1.len() {
        let mut m = "implausible GPT header size ".to_owned();
        m.append(decimal_text(hdr_size as u64).as_str());
        return Err(m);
    }
    if header_crc(lba1, hdr_size as usize) != ru32(lba1, 16) {
        return Err("primary GPT header CRC mismatch — refusing to touch the disk".to_owned());
    }
    let layout = GptLayout {
        hdr_size,
        entries_lba: ru64(lba1, 72),
        num_entries: ru32(lba1, 80),
        esize: ru32(lba1, 84),
    };
    assert(layout.num_entries * layout.esize <= 0xffff_ffff * 0xffff_ffff) by (nonlinear_arith)
        requires
            0 <= layout.num_entries <= 0xffff_ffff,
            0 <= layout.esize <= 0xffff_ffff,
    ;
    let entries_bytes: u64 = (layout.num_entries as u64) * (layout.esize as u64);
    if layout.esize < 128 || entries_bytes == 0 || entries_bytes > 0x10_0000 {
        let mut m = "implausible GPT entry layout (".to_owned();
        m.append(decimal_text(layout.num_entries as u64).as_str());
        m.append(" x ");
        m.append(decimal_text(layout.esize as u64).as_str());
        m.append(")");
        return Err(m);
    }
    Ok(layout)
}

/// The entry array in whole sectors, with the padding zeroed.
fn pad_entries(layout: &GptLayout, entries: &[u8], sector: u64) -> (r: (Vec<u8>, u64))
    requires
        sector > 0,
        entries@.len() == layout.entries_bytes() <= 0x10_0000,
        layout.padded_bytes(sector as int) <= usize::MAX,
    ensures
        r.0@ == entries@ + Seq::new(
            (layout.padded_bytes(sector as int) - layout.entries_bytes()) as nat,
            |i: int| 0u8,
        ),
        r.1 == growpart::sectors_for(layout.entries_bytes(), sector as int),
        r.0@.len() == layout.padded_bytes(sector as int),
{
    let len: u64 = entries.len() as u64;
    let whole: u64 = len / sector;
    let count: u64 = if len % sector == 0 {
        whole
    } else {
        whole + 1
    };
    proof {
        sectors_cover(len as int, sector as int);
    }
    let padded: u64 = count * sector;
    let mut array = slice_to_vec(entries);
    array.resize(padded as usize, 0);
    assert(array@ =~= entries@ + Seq::new((padded - len) as nat, |i: int| 0u8));
    (array, count)
}

/// Whole sectors hold the bytes that they are counted for, with less than one
/// sector to spare.
pub proof fn sectors_cover(bytes: int, sector: int)
    requires
        0 <= bytes,
        0 < sector,
    ensures
        0 <= growpart::sectors_for(bytes, sector) <= bytes,
        bytes <= growpart::sectors_for(bytes, sector) * sector < bytes + sector,
{
    let q = bytes / sector;
    let r = bytes % sector;
    assert(bytes == q * sector + r && 0 <= r < sector && 0 <= q <= bytes) by (nonlinear_arith)
        requires
            0 <= bytes,
            0 < sector,
            q == bytes / sector,
            r == bytes % sector,
    ;
    assert((q + 1) * sector == q * sector + sector) by (nonlinear_arith);
    assert(r != 0 ==> q + 1 <= bytes) by (nonlinear_arith)
        requires
            bytes == q * sector + r,
            0 <= r < sector,
            0 <= q,
    ;
}

/// The entry array in whole sectors is no larger than a sector or than what two
/// mebibytes hold.
pub proof fn padding_fits(layout: GptLayout, sector: int, limit: int)
    requires
        0 < sector <= limit,
        0x20_0000 <= limit,
        0 <= layout.entries_bytes() <= 0x10_0000,
    ensures
        layout.padded_bytes(sector) <= limit,
{
    let bytes = layout.entries_bytes();
    sectors_cover(bytes, sector);
    if sector >= bytes {
        let count = growpart::sectors_for(bytes, sector);
        assert(count <= 1) by (nonlinear_arith)
            requires
                count * sector < bytes + sector,
                bytes <= sector,
                0 < sector,
        ;
        assert(count * sector <= sector) by (nonlinear_arith)
            requires
                count <= 1,
                0 < sector,
        ;
    }
}

/// Every entry lies within the array, right behind the one before it.
pub proof fn entry_fits(layout: GptLayout, i: int)
    requires
        0 <= i < layout.num_entries,
    ensures
        0 <= layout.entry_at(i),
        layout.entry_at(i) + layout.esize <= layout.entries_bytes(),
        layout.entry_at(i + 1) == layout.entry_at(i) + layout.esize,
{
    let n = layout.num_entries as int;
    let e = layout.esize as int;
    assert(0 <= i * e && i * e + e <= n * e && (i + 1) * e == i * e + e) by (nonlinear_arith)
        requires
            0 <= i < n,
            0 <= e,
    ;
}

/// Whether the entry at `off` describes a partition.
fn is_entry_used(entries: &[u8], off: usize) -> (r: bool)
    requires
        off + 16 <= entries@.len(),
    ensures
        r == entry_used(entries@, off as int),
{
    assert(entries.len() >= off + 16);
    let mut k: usize = 0;
    while k < 16
        invariant
            off + 16 <= entries@.len(),
            off + 16 <= entries.len(),
            0 <= k <= 16,
            forall|j: int| 0 <= j < k ==> #[trigger] entries@[off + j] == 0,
        decreases 16 - k,
    {
        if entries[off + k] != 0 {
            assert(entries@[off + k as int] != 0);
            return true;
        }
        k = k + 1;
    }
    false
}

/// Whether any partition starts behind entry `idx`.
fn any_behind(layout: &GptLayout, entries: &[u8], idx: u32, old_end: u64) -> (r: bool)
    requires
        128 <= layout.esize,
        entries@.len() == layout.entries_bytes() <= 0x10_0000,
        idx < layout.num_entries,
        old_end == entry_end(entries@, layout.entry_at(idx as int)),
    ensures
        r == not_last(*layout, entries@, idx as int),
{
    let mut i: u32 = 0;
    let mut o: usize = 0;
    while i < layout.num_entries
        invariant
            128 <= layout.esize,
            entries@.len() == layout.entries_bytes() <= 0x10_0000,
            0 <= i <= layout.num_entries,
            o == layout.entry_at(i as int),
            old_end == entry_end(entries@, layout.entry_at(idx as int)),
            forall|j: int|
                0 <= j < i ==> !#[trigger] starts_behind(*layout, entries@, idx as int, j),
        decreases layout.num_entries - i,
    {
        proof {
            entry_fits(*layout, i as int);
        }
        if i != idx && is_entry_used(entries, o) && ru64(entries, o + 32) > old_end {
            assert(starts_behind(*layout, entries@, idx as int, i as int));
            return true;
        }
        assert(!starts_behind(*layout, entries@, idx as int, i as int));
        o = o + layout.esize as usize;
        i = i + 1;
    }
    false
}

/// The primary header of the grown table.
fn primary_header(lba1: &[u8], layout: &GptLayout, total: u64, end: u64, ecrc: u32) -> (r: Vec<u8>)
    requires
        lba1@.len() >= 92,
        20 <= layout.hdr_size <= lba1@.len(),
        total > 0,
    ensures
        r@ == grown_primary(lba1@, *layout, total as int, end as int, ecrc),
        r@.len() == lba1@.len(),
{
    let mut primary = slice_to_vec(lba1);
    wu64(primary.as_mut_slice(), 32, total - 1);
    wu64(primary.as_mut_slice(), 48, end);
    wu32(primary.as_mut_slice(), 88, ecrc);
    seal_gpt_crc(primary.as_mut_slice(), layout.hdr_size as usize);
    primary
}

/// The backup header that goes with a primary header.
fn backup_header(primary: &[u8], layout: &GptLayout, total: u64, entries_lba: u64) -> (r: Vec<u8>)
    requires
        primary@.len() >= 92,
        20 <= layout.hdr_size <= primary@.len(),
        total > 0,
    ensures
        r@ == grown_backup(primary@, *layout, total as int, entries_lba as int),
{
    let mut backup = slice_to_vec(primary);
    wu64(backup.as_mut_slice(), 24, total - 1);
    wu64(backup.as_mut_slice(), 32, 1);
    wu64(backup.as_mut_slice(), 72, entries_lba);
    seal_gpt_crc(backup.as_mut_slice(), layout.hdr_size as usize);
    backup
}

/// The writes that store the table once the entry at `off` ends at `end`.
/// `array` holds the entries in whole sectors; `len` bytes of it are entries.
#[verifier::rlimit(40)]
fn table_writes(
    lba1: &[u8],
    layout: &GptLayout,
    mut array: Vec<u8>,
    len: usize,
    total: u64,
    end: u64,
    off: usize,
) -> (r: Vec<SectorWrite>)
    requires
        lba1@.len() >= 92,
        20 <= layout.hdr_size <= lba1@.len(),
        end + 1 < total,
        off + 48 <= len <= array@.len(),
    ensures
        ({
            let grown = bytes::splice(array@, off + 40, bytes::le64(end as int));
            let entries_crc = bytes::crc32_of(grown.take(len as int));
            let primary = grown_primary(lba1@, *layout, total as int, end as int, entries_crc);
            let backup = grown_backup(primary, *layout, total as int, end + 1);
            growpart::write_views(r@) == seq![
                WriteView { lba: end + 1, data: grown, label: "backup GPT entries"@ },
                WriteView { lba: total - 1, data: backup, label: "backup GPT header"@ },
                WriteView { lba: layout.entries_lba as int, data: grown, label: "GPT entries"@ },
                WriteView { lba: 1, data: primary, label: "GPT header"@ },
            ]
        }),
{
    wu64(array.as_mut_slice(), off + 40, end);
    let ghost grown = array@;
    assert(grown.subrange(0, len as int) =~= grown.take(len as int));
    let ecrc: u32 = crc32(slice_subrange(array.as_slice(), 0, len));
    let primary = primary_header(lba1, layout, total, end, ecrc);
    let backup = backup_header(primary.as_slice(), layout, total, end + 1);
    let again = slice_to_vec(array.as_slice());
    let mut writes: Vec<SectorWrite> = Vec::new();
    writes.push(SectorWrite { lba: end + 1, data: again, label: "backup GPT entries" });
    writes.push(SectorWrite { lba: total - 1, data: backup, label: "backup GPT header" });
    writes.push(SectorWrite { lba: layout.entries_lba, data: array, label: "GPT entries" });
    writes.push(SectorWrite { lba: 1, data: primary, label: "GPT header" });
    assert(growpart::write_views(writes@) =~= seq![
        WriteView { lba: end + 1, data: grown, label: "backup GPT entries"@ },
        WriteView { lba: total - 1, data: backup@, label: "backup GPT header"@ },
        WriteView { lba: layout.entries_lba as int, data: grown, label: "GPT entries"@ },
        WriteView { lba: 1, data: primary@, label: "GPT header"@ },
    ]);
    writes
}

/// Grows partition `partnum` of the table with header sector `lba1` and entry
/// array `entries` on a disk of `total` sectors. Without `commit` there is
/// nothing to write.
#[verifier::rlimit(40)]
pub fn grow_gpt(
    lba1: &[u8],
    layout: &GptLayout,
    entries: &[u8],
    sector: u64,
    total: u64,
    partnum: u32,
    commit: bool,
) -> (r: Result<Option<Growth>, String>)
    requires
        sector > 0,
        lba1@.len() == sector,
        gpt_layout(lba1@) == Ok::<GptLayout, Seq<char>>(*layout),
        entries@.len() == layout.entries_bytes(),
    ensures
        growpart::outcome(r) == gpt_growth(
            lba1@,
            *layout,
            entries@,
            sector as int,
            total as int,
            partnum as int,
            commit,
        ),
{
    if crc32(entries) != ru32(lba1, 88) {
        return Err("GPT entries CRC mismatch — refusing to touch the disk".to_owned());
    }
    if partnum == 0 || partnum - 1 >= layout.num_entries {
        let mut m = "no partition ".to_owned();
        m.append(decimal_text(partnum as u64).as_str());
        return Err(m);
    }
    let idx: u32 = partnum - 1;
    proof {
        entry_fits(*layout, idx as int);
        sectors_cover(layout.entries_bytes(), sector as int);
        assert(lba1.len() <= usize::MAX);
        padding_fits(*layout, sector as int, usize::MAX as int);
    }
    let off: usize = (idx as usize) * (layout.esize as usize);
    if !is_entry_used(entries, off) {
        return Err(partition_message(partnum, " is empty"));
    }
    let start: u64 = ru64(entries, off + 32);
    let old_end: u64 = ru64(entries, off + 40);
    if any_behind(layout, entries, idx, old_end) {
        return Err(partition_message(partnum, " is not the last partition; not growing"));
    }
    let (array, count) = pad_entries(layout, entries, sector);
    if total < 2 + count {
        return Err("disk too small for GPT".to_owned());
    }
    let end: u64 = total - 2 - count;
    if end <= old_end {
        return Ok(None);
    }
    let report = GrowReport { partnum, start, old_end, new_end: end, sector };
    if !commit {
        let writes: Vec<SectorWrite> = Vec::new();
        assert(growpart::write_views(writes@) =~= Seq::<WriteView>::empty());
        return Ok(Some(Growth { report, writes }));
    }
    let writes = table_writes(lba1, layout, array, entries.len(), total, end, off);
    Ok(Some(Growth { report, writes }))
}

} // verus!

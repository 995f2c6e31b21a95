//! Growing a partition of a disk image held in memory.
use vstd::prelude::*;
use vstd::slice::*;
use vstd::string::*;

use crate::bytes;
use crate::gpt;
use crate::gpt::GptLayout;
use crate::growpart;
use crate::growpart::{
    grow_begin, grow_step, GrowAction, GrowActionView, GrowReport, GrowStateView, GrowthView,
    SectorWrite, WriteView,
};
use crate::mbr;

verus! {

/// Bytes per sector of a disk image.
pub const IMAGE_SECTOR: u64 = 512;

/// A disk after `data` was stored from byte `pos` on; it grows when the data
/// reaches past its end.
pub open spec fn stored(disk: Seq<u8>, pos: int, data: Seq<u8>) -> Seq<u8> {
    let end = pos + data.len();
    Seq::new(
        if end > disk.len() {
            end as nat
        } else {
            disk.len()
        },
        |i: int|
            if pos <= i < end {
                data[i - pos]
            } else {
                disk[i]
            },
    )
}

/// A disk after the writes, the first one first.
pub open spec fn after_writes(disk: Seq<u8>, writes: Seq<WriteView>, sector: int) -> Seq<u8>
    decreases writes.len(),
{
    if writes.len() == 0 {
        disk
    } else {
        let last = writes.last();
        stored(after_writes(disk, writes.drop_last(), sector), last.lba * sector, last.data)
    }
}

/// The bytes of sector `lba` of a disk.
pub open spec fn sector_of(disk: Seq<u8>, sector: int, lba: int) -> Seq<u8> {
    disk.subrange(lba * sector, lba * sector + sector)
}

/// The entry array of the table on a disk.
pub open spec fn entries_of(disk: Seq<u8>, sector: int, layout: GptLayout) -> Seq<u8> {
    disk.subrange(
        layout.entries_lba * sector,
        layout.entries_lba * sector + layout.entries_bytes(),
    )
}

/// The error for a read that reaches past the end of the disk.
pub open spec fn short_read(label: Seq<char>) -> Seq<char> {
    "read "@ + label + ": failed to fill whole buffer"@
}

/// What growing partition `partnum` of the disk comes to.
pub open spec fn disk_growth(disk: Seq<u8>, sector: int, partnum: int, commit: bool) -> Result<
    Option<GrowthView>,
    Seq<char>,
> {
    let total = disk.len() as int / sector;
    let lba0 = sector_of(disk, sector, 0);
    let lba1 = sector_of(disk, sector, 1);
    if disk.len() < 3 * sector {
        Err("disk too small or unreadable geometry"@)
    } else if gpt::gpt_signature(lba1) {
        match gpt::gpt_layout(lba1) {
            Err(e) => Err(e),
            Ok(layout) => if layout.entries_lba * sector + layout.entries_bytes() > disk.len() {
                Err(short_read("GPT entries"@))
            } else {
                gpt::gpt_growth(
                    lba1,
                    layout,
                    entries_of(disk, sector, layout),
                    sector,
                    total,
                    partnum,
                    commit,
                )
            },
        }
    } else if mbr::mbr_signature(lba0) {
        mbr::mbr_growth(lba0, total, sector, partnum, commit)
    } else {
        Err("no GPT or MBR partition table found"@)
    }
}

fn store(image: &mut Vec<u8>, pos: usize, data: &[u8])
    requires
        pos <= old(image)@.len(),
        pos + data@.len() <= usize::MAX,
    ensures
        final(image)@ == stored(old(image)@, pos as int, data@),
{
    let n: usize = data.len();
    let ghost before = image@;
    let mut i: usize = 0;
    assert(image@ =~= stored(before, pos as int, data@.take(0)));
    while i < n
        invariant
            n == data@.len(),
            0 <= i <= n,
            pos <= before.len(),
            pos + n <= usize::MAX,
            image@ == stored(before, pos as int, data@.take(i as int)),
        decreases n - i,
    {
        if pos + i < image.len() {
            image[pos + i] = data[i];
        } else {
            image.push(data[i]);
        }
        i = i + 1;
        assert(image@ =~= stored(before, pos as int, data@.take(i as int)));
    }
    assert(data@.take(n as int) =~= data@);
}

/// Whether every write of the list starts on the disk and stays below `limit`.
pub open spec fn writes_fit(writes: Seq<WriteView>, sector: int, len: int, limit: int) -> bool {
    forall|i: int|
        0 <= i < writes.len() ==> 0 <= (#[trigger] writes[i]).lba * sector <= len
            && writes[i].lba * sector + writes[i].data.len() <= limit
}

fn store_all(image: &mut Vec<u8>, writes: &Vec<SectorWrite>)
    requires
        writes_fit(
            growpart::write_views(writes@),
            512,
            old(image)@.len() as int,
            usize::MAX as int,
        ),
    ensures
        final(image)@ == after_writes(old(image)@, growpart::write_views(writes@), 512),
{
    let n: usize = writes.len();
    let ghost before = image@;
    let ghost all = growpart::write_views(writes@);
    let mut i: usize = 0;
    while i < n
        invariant
            n == writes@.len(),
            0 <= i <= n,
            all == growpart::write_views(writes@),
            writes_fit(all, 512, before.len() as int, usize::MAX as int),
            image@.len() >= before.len(),
            image@ == after_writes(before, all.take(i as int), 512),
        decreases n - i,
    {
        proof {
            assert(all.take(i + 1).drop_last() =~= all.take(i as int));
            assert(all.take(i + 1).last() == writes@[i as int]@);
            assert(all[i as int] == writes@[i as int]@);
        }
        let pos: usize = (writes[i].lba as usize) * 512;
        store(image, pos, writes[i].data.as_slice());
        i = i + 1;
    }
    assert(all.take(n as int) =~= all);
}

/// How many reads a state can still ask for.
pub open spec fn reads_left(state: GrowStateView) -> nat {
    match state {
        GrowStateView::Header(_) => 2,
        GrowStateView::Boot(_) => 1,
        GrowStateView::Entries { .. } => 1,
        GrowStateView::Finished => 0,
    }
}

/// What the steps that follow a state and an action come to on a disk, when
/// every read is answered from the disk.
pub open spec fn driven(disk: Seq<u8>, sector: int, step: (GrowStateView, GrowActionView)) -> Result<
    Option<GrowthView>,
    Seq<char>,
>
    decreases reads_left(step.0),
{
    match step.1 {
        GrowActionView::Finish(r) => r,
        GrowActionView::Read { lba, len, label } => if lba * sector + len > disk.len() {
            Err(short_read(label))
        } else if step.0 is Finished {
            Err(Seq::<char>::empty())
        } else {
            driven(
                disk,
                sector,
                growpart::next_step(step.0, disk.subrange(lba * sector, lba * sector + len)),
            )
        },
    }
}

/// Driving the steps over a disk comes to what [`disk_growth`] says of it.
#[verifier::rlimit(40)]
pub proof fn steps_reach_disk_growth(disk: Seq<u8>, sector: int, partnum: u32, commit: bool)
    requires
        0 < sector <= u64::MAX,
        disk.len() <= u64::MAX,
    ensures
        driven(disk, sector, growpart::first_step(sector, disk.len() as int, partnum, commit))
            == disk_growth(disk, sector, partnum as int, commit),
{
    if disk.len() >= 3 * sector {
        let total = disk.len() as int / sector;
        assert(3 <= total <= disk.len()) by (nonlinear_arith)
            requires
                disk.len() >= 3 * sector,
                sector > 0,
                total == disk.len() as int / sector,
        ;
        assert(1 * sector == sector && 0 * sector == 0);
        let first = growpart::first_step(sector, disk.len() as int, partnum, commit);
        let lba1 = sector_of(disk, sector, 1);
        let second = growpart::next_step(first.0, lba1);
        reveal_with_fuel(driven, 4);
        assert(driven(disk, sector, first) == driven(disk, sector, second));
        if !gpt::gpt_signature(lba1) {
            let lba0 = sector_of(disk, sector, 0);
            assert(driven(disk, sector, second) == driven(
                disk,
                sector,
                growpart::next_step(second.0, lba0),
            ));
        }
    }
}

/// Reads `len` bytes of the image from the start of sector `lba` on.
fn read_image(image: &Vec<u8>, lba: u64, len: u64, label: &str) -> (r: Result<Vec<u8>, String>)
    ensures
        match r {
            Ok(data) => lba * 512 + len <= image@.len() && data@ == image@.subrange(
                lba * 512,
                lba * 512 + len,
            ),
            Err(e) => lba * 512 + len > image@.len() && e@ == short_read(label@),
        },
{
    let size: u64 = image.len() as u64;
    if lba > size / 512 || len > size - lba * 512 {
        let mut m = "read ".to_owned();
        m.append(label);
        m.append(": failed to fill whole buffer");
        return Err(m);
    }
    let from: usize = (lba as usize) * 512;
    let to: usize = from + (len as usize);
    Ok(slice_to_vec(slice_subrange(image.as_slice(), from, to)))
}

/// Grows partition `partnum` (counted from one) of a disk image to fill the
/// available space. With `commit` false the image stays as it is. Returns
/// `None` when there is nothing to gain.
#[verifier::rlimit(40)]
pub fn grow_partition(image: &mut Vec<u8>, partnum: u32, commit: bool) -> (r: Result<
    Option<GrowReport>,
    String,
>)
    requires
        old(image)@.len() + 512 <= usize::MAX,
    ensures
        match disk_growth(old(image)@, 512, partnum as int, commit) {
            Ok(Some(growth)) => r == Ok::<Option<GrowReport>, String>(Some(growth.report))
                && final(image)@ == after_writes(old(image)@, growth.writes, 512),
            Ok(None) => r == Ok::<Option<GrowReport>, String>(None) && final(image)@ == old(
                image,
            )@,
            Err(e) => r is Err && r->Err_0@ == e && final(image)@ == old(image)@,
        },
        !commit || !(r matches Ok(Some(_))) ==> final(image)@ == old(image)@,
{
    let ghost disk = image@;
    let (mut state, mut action) = grow_begin(IMAGE_SECTOR, image.len() as u64, partnum, commit);
    proof {
        steps_reach_disk_growth(disk, 512, partnum, commit);
    }
    loop
        invariant
            image@ == disk,
            disk.len() + 512 <= usize::MAX,
            state@.wf(),
            driven(disk, 512, (state@, action@)) == disk_growth(disk, 512, partnum as int, commit),
            underway(disk, partnum, commit, state@, action@),
        ensures
            action is Finish,
        decreases reads_left(state@),
    {
        match action {
            GrowAction::Finish(_) => break ,
            GrowAction::Read { lba, len, label } => {
                let data = match read_image(image, lba, len, label) {
                    Err(e) => {
                        return Err(e);
                    },
                    Ok(data) => data,
                };
                let ghost before = (state@, action@);
                let ghost given = data@;
                proof {
                    assert(given =~= disk.subrange(lba * 512, lba * 512 + len));
                }
                let (next_state, next_action) = grow_step(state, data);
                state = next_state;
                action = next_action;
                assert(driven(disk, 512, before) == driven(disk, 512, (state@, action@)));
            },
        }
    }
    match action {
        GrowAction::Finish(Ok(Some(growth))) => {
            proof {
                lemma_writes_fit(disk, partnum, commit);
            }
            store_all(image, &growth.writes);
            Ok(Some(growth.report))
        },
        GrowAction::Finish(Ok(None)) => Ok(None),
        GrowAction::Finish(Err(e)) => Err(e),
        GrowAction::Read { .. } => Ok(None),
    }
}

/// The states and actions that occur on the way.
spec fn underway(
    disk: Seq<u8>,
    partnum: u32,
    commit: bool,
    state: GrowStateView,
    action: GrowActionView,
) -> bool {
    let task = growpart::GrowTask {
        partnum,
        commit,
        sector: 512,
        total: (disk.len() as int / 512) as u64,
    };
    let lba1 = sector_of(disk, 512, 1);
    match state {
        GrowStateView::Header(t) => {
            &&& t == task
            &&& disk.len() >= 3 * 512
            &&& action is Read
            &&& action->lba == 1
            &&& action->len == 512
        },
        GrowStateView::Boot(t) => {
            &&& t == task
            &&& disk.len() >= 3 * 512
            &&& !gpt::gpt_signature(lba1)
            &&& action is Read
            &&& action->lba == 0
            &&& action->len == 512
        },
        GrowStateView::Entries { task: t, lba1: h, layout } => {
            &&& t == task
            &&& action is Read
            &&& action->lba == layout.entries_lba
            &&& action->len == layout.entries_bytes()
        },
        GrowStateView::Finished => action is Finish,
    }
}

#[verifier::spinoff_prover]
#[verifier::rlimit(40)]
proof fn lemma_gpt_write_sizes(
    lba1: Seq<u8>,
    layout: GptLayout,
    entries: Seq<u8>,
    total: int,
    idx: int,
)
    requires
        lba1.len() == 512,
        gpt::gpt_layout(lba1) == Ok::<GptLayout, Seq<char>>(layout),
        entries.len() == layout.entries_bytes(),
    ensures
        ({
            let writes = gpt::gpt_writes(lba1, layout, entries, 512, total, idx);
            &&& writes[0].data.len() == layout.padded_bytes(512)
            &&& writes[1].data.len() == 512
            &&& writes[2].data.len() == layout.padded_bytes(512)
            &&& writes[3].data.len() == 512
        }),
{
    gpt::sectors_cover(layout.entries_bytes(), 512);
    let end = gpt::last_usable(layout, 512, total);
    let array = gpt::grown_entries(layout, entries, 512, idx, end);
    assert(array.len() == layout.padded_bytes(512));
    let crc = bytes::crc32_of(array.take(layout.entries_bytes()));
    let primary = gpt::grown_primary(lba1, layout, total, end, crc);
    assert(primary.len() == 512);
    let backup = gpt::grown_backup(primary, layout, total, end + 1);
    assert(backup.len() == 512);
}

#[verifier::spinoff_prover]
#[verifier::rlimit(40)]
proof fn lemma_writes_fit(disk: Seq<u8>, partnum: u32, commit: bool)
    requires
        disk.len() + 512 <= usize::MAX,
    ensures
        disk_growth(disk, 512, partnum as int, commit) matches Ok(Some(g)) ==> writes_fit(
            g.writes,
            512,
            disk.len() as int,
            usize::MAX as int,
        ),
{
    let lba1 = sector_of(disk, 512, 1);
    if disk.len() >= 3 * 512 && gpt::gpt_signature(lba1) {
        if let Ok(layout) = gpt::gpt_layout(lba1) {
            let total = disk.len() as int / 512;
            let entries = entries_of(disk, 512, layout);
            gpt::sectors_cover(layout.entries_bytes(), 512);
            if layout.entries_lba * 512 + layout.entries_bytes() <= disk.len() {
                lemma_gpt_write_sizes(lba1, layout, entries, total, partnum - 1);
            }
        }
    }
}

} // verus!

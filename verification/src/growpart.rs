//! Growing the last partition of a disk to fill it.
//!
//! [`grow_begin`] and [`grow_step`] decide what to read next and, once enough
//! of the disk is known, what to write; the caller moves the bytes.
//! [`grow_partition`] does the same on a disk image in memory.
use vstd::prelude::*;
use vstd::slice::*;
use vstd::string::*;

use crate::gpt;
use crate::gpt::{grow_gpt, has_gpt_signature, read_gpt_layout, GptLayout};
use crate::mbr;
use crate::mbr::{grow_mbr, has_mbr_signature};
use crate::number;

verus! {

/// What growing a partition changes, in sectors of `sector` bytes.
#[derive(Debug, Clone, Copy, PartialEq, Eq, Structural)]
pub struct GrowReport {
    pub partnum: u32,
    /// First sector of the partition.
    pub start: u64,
    /// Last sector before growing.
    pub old_end: u64,
    /// Last sector after growing.
    pub new_end: u64,
    /// Bytes per sector.
    pub sector: u64,
}

/// Bytes to store from the start of sector `lba` on.
#[derive(Debug)]
pub struct SectorWrite {
    pub lba: u64,
    pub data: Vec<u8>,
    /// What is written, for error messages.
    pub label: &'static str,
}

/// The contents of a [`SectorWrite`].
pub struct WriteView {
    pub lba: int,
    pub data: Seq<u8>,
    pub label: Seq<char>,
}

impl View for SectorWrite {
    type V = WriteView;

    open spec fn view(&self) -> WriteView {
        WriteView { lba: self.lba as int, data: self.data@, label: self.label@ }
    }
}

/// A partition that can grow, and the writes that make it grow, in the order
/// in which they have to reach the disk.
#[derive(Debug)]
pub struct Growth {
    pub report: GrowReport,
    pub writes: Vec<SectorWrite>,
}

/// The contents of a [`Growth`].
pub struct GrowthView {
    pub report: GrowReport,
    pub writes: Seq<WriteView>,
}

/// The contents of each write of a list.
pub open spec fn write_views(writes: Seq<SectorWrite>) -> Seq<WriteView> {
    Seq::new(writes.len(), |i: int| writes[i]@)
}

impl View for Growth {
    type V = GrowthView;

    open spec fn view(&self) -> GrowthView {
        GrowthView { report: self.report, writes: write_views(self.writes@) }
    }
}

/// The contents of what an attempt to grow came to: nothing to gain, a growth,
/// or the reason for a refusal.
pub open spec fn outcome(r: Result<Option<Growth>, String>) -> Result<
    Option<GrowthView>,
    Seq<char>,
> {
    match r {
        Ok(Some(g)) => Ok(Some(g@)),
        Ok(None) => Ok(None),
        Err(e) => Err(e@),
    }
}

/// The number of sectors that hold `bytes` bytes.
pub open spec fn sectors_for(bytes: int, sector: int) -> int {
    if bytes % sector == 0 {
        bytes / sector
    } else {
        bytes / sector + 1
    }
}

/// The text "partition N", followed by `rest`.
pub open spec fn about_partition(partnum: int, rest: Seq<char>) -> Seq<char> {
    "partition "@ + number::decimal(partnum) + rest
}

/// The text "partition N", followed by `rest`.
pub fn partition_message(partnum: u32, rest: &str) -> (r: String)
    ensures
        r@ == about_partition(partnum as int, rest@),
{
    let mut m = "partition ".to_owned();
    m.append(number::decimal_text(partnum as u64).as_str());
    m.append(rest);
    m
}

/// What to grow, on which disk.
#[derive(Debug, Clone, Copy, PartialEq, Eq, Structural)]
pub struct GrowTask {
    /// Partition number, counted from one.
    pub partnum: u32,
    /// Whether anything is to be written.
    pub commit: bool,
    /// Bytes per sector.
    pub sector: u64,
    /// Sectors on the disk.
    pub total: u64,
}

/// How far growing a partition has come.
#[derive(Debug)]
pub enum GrowState {
    /// The sector with the GPT header is to come.
    Header(GrowTask),
    /// There is no GPT; the first sector is to come.
    Boot(GrowTask),
    /// The GPT header is known; the entry array is to come.
    Entries { task: GrowTask, lba1: Vec<u8>, layout: GptLayout },
    /// Nothing more is to come.
    Finished,
}

/// What to do next to grow a partition.
#[derive(Debug)]
pub enum GrowAction {
    /// Read `len` bytes from the start of sector `lba` on.
    Read { lba: u64, len: u64, label: &'static str },
    /// Store the writes of the growth, if there is one, and stop.
    Finish(Result<Option<Growth>, String>),
}

/// The contents of a [`GrowState`].
pub enum GrowStateView {
    Header(GrowTask),
    Boot(GrowTask),
    Entries { task: GrowTask, lba1: Seq<u8>, layout: GptLayout },
    Finished,
}

/// The contents of a [`GrowAction`].
pub enum GrowActionView {
    Read { lba: int, len: int, label: Seq<char> },
    Finish(Result<Option<GrowthView>, Seq<char>>),
}

impl View for GrowState {
    type V = GrowStateView;

    open spec fn view(&self) -> GrowStateView {
        match *self {
            GrowState::Header(task) => GrowStateView::Header(task),
            GrowState::Boot(task) => GrowStateView::Boot(task),
            GrowState::Entries { task, lba1, layout } => GrowStateView::Entries {
                task,
                lba1: lba1@,
                layout,
            },
            GrowState::Finished => GrowStateView::Finished,
        }
    }
}

impl View for GrowAction {
    type V = GrowActionView;

    open spec fn view(&self) -> GrowActionView {
        match *self {
            GrowAction::Read { lba, len, label } => GrowActionView::Read {
                lba: lba as int,
                len: len as int,
                label: label@,
            },
            GrowAction::Finish(r) => GrowActionView::Finish(outcome(r)),
        }
    }
}

impl GrowStateView {
    /// Whether the state is one that growing a partition goes through.
    pub open spec fn wf(self) -> bool {
        match self {
            GrowStateView::Header(task) => task.sector > 0,
            GrowStateView::Boot(task) => task.sector > 0,
            GrowStateView::Entries { task, lba1, layout } => {
                &&& task.sector > 0
                &&& lba1.len() == task.sector
                &&& gpt::gpt_layout(lba1) == Ok::<GptLayout, Seq<char>>(layout)
            },
            GrowStateView::Finished => true,
        }
    }

    /// Whether `data` answers what the state is waiting for: it has the length
    /// that was asked for, and the sector is large enough for the table in it.
    pub open spec fn accepts(self, data: Seq<u8>) -> bool {
        match self {
            GrowStateView::Header(task) => {
                &&& data.len() == task.sector
                &&& data.len() >= 8
                &&& gpt::gpt_signature(data) ==> data.len() >= 16
            },
            GrowStateView::Boot(task) => {
                &&& data.len() == task.sector
                &&& data.len() >= 512
            },
            GrowStateView::Entries { task, lba1, layout } => {
                data.len() == layout.entries_bytes()
            },
            GrowStateView::Finished => false,
        }
    }
}

/// The first state and action for a disk of `bytes` bytes in sectors of
/// `sector` bytes.
pub open spec fn first_step(sector: int, bytes: int, partnum: u32, commit: bool) -> (
    GrowStateView,
    GrowActionView,
) {
    if sector == 0 || bytes < 3 * sector {
        (
            GrowStateView::Finished,
            GrowActionView::Finish(Err("disk too small or unreadable geometry"@)),
        )
    } else {
        (
            GrowStateView::Header(
                GrowTask {
                    partnum,
                    commit,
                    sector: sector as u64,
                    total: (bytes / sector) as u64,
                },
            ),
            GrowActionView::Read { lba: 1, len: sector, label: "GPT header"@ },
        )
    }
}

/// The state and action that follow when `data` was read.
pub open spec fn next_step(state: GrowStateView, data: Seq<u8>) -> (GrowStateView, GrowActionView) {
    match state {
        GrowStateView::Header(task) => if gpt::gpt_signature(data) {
            match gpt::gpt_layout(data) {
                Err(e) => (GrowStateView::Finished, GrowActionView::Finish(Err(e))),
                Ok(layout) => (
                    GrowStateView::Entries { task, lba1: data, layout },
                    GrowActionView::Read {
                        lba: layout.entries_lba as int,
                        len: layout.entries_bytes(),
                        label: "GPT entries"@,
                    },
                ),
            }
        } else {
            (
                GrowStateView::Boot(task),
                GrowActionView::Read { lba: 0, len: task.sector as int, label: "MBR"@ },
            )
        },
        GrowStateView::Boot(task) => (
            GrowStateView::Finished,
            GrowActionView::Finish(
                if mbr::mbr_signature(data) {
                    mbr::mbr_growth(
                        data,
                        task.total as int,
                        task.sector as int,
                        task.partnum as int,
                        task.commit,
                    )
                } else {
                    Err("no GPT or MBR partition table found"@)
                },
            ),
        ),
        GrowStateView::Entries { task, lba1, layout } => (
            GrowStateView::Finished,
            GrowActionView::Finish(
                gpt::gpt_growth(
                    lba1,
                    layout,
                    data,
                    task.sector as int,
                    task.total as int,
                    task.partnum as int,
                    task.commit,
                ),
            ),
        ),
        GrowStateView::Finished => (
            GrowStateView::Finished,
            GrowActionView::Finish(Err(Seq::<char>::empty())),
        ),
    }
}

impl GrowState {
    /// Whether `data` answers what the state is waiting for.
    pub fn accepts(&self, data: &[u8]) -> (r: bool)
        requires
            self@.wf(),
        ensures
            r == self@.accepts(data@),
    {
        let len: u64 = data.len() as u64;
        match self {
            GrowState::Header(task) => len == task.sector && len >= 8 && (!has_gpt_signature(data)
                || len >= 16),
            GrowState::Boot(task) => len == task.sector && len >= 512,
            GrowState::Entries { task: _, lba1: _, layout } => {
                assert(layout.num_entries * layout.esize >= 0) by (nonlinear_arith)
                    requires
                        layout.num_entries >= 0,
                        layout.esize >= 0,
                ;
                len == (layout.num_entries as u64) * (layout.esize as u64)
            },
            GrowState::Finished => false,
        }
    }
}

/// Begins to grow partition `partnum` (counted from one) of a disk of
/// `total_bytes` bytes in sectors of `sector` bytes. With `commit` false
/// nothing will be written.
pub fn grow_begin(sector: u64, total_bytes: u64, partnum: u32, commit: bool) -> (r: (
    GrowState,
    GrowAction,
))
    ensures
        (r.0@, r.1@) == first_step(sector as int, total_bytes as int, partnum, commit),
        r.0@.wf(),
{
    if sector == 0 || total_bytes / 3 < sector {
        return (
            GrowState::Finished,
            GrowAction::Finish(Err("disk too small or unreadable geometry".to_owned())),
        );
    }
    (
        GrowState::Header(GrowTask { partnum, commit, sector, total: total_bytes / sector }),
        GrowAction::Read { lba: 1, len: sector, label: "GPT header" },
    )
}

/// Goes on with what was read.
pub fn grow_step(state: GrowState, data: Vec<u8>) -> (r: (GrowState, GrowAction))
    requires
        state@.wf(),
        state@.accepts(data@),
    ensures
        (r.0@, r.1@) == next_step(state@, data@),
        r.0@.wf(),
{
    match state {
        GrowState::Header(task) => {
            if !has_gpt_signature(data.as_slice()) {
                return (
                    GrowState::Boot(task),
                    GrowAction::Read { lba: 0, len: task.sector, label: "MBR" },
                );
            }
            match read_gpt_layout(data.as_slice()) {
                Err(e) => (GrowState::Finished, GrowAction::Finish(Err(e))),
                Ok(layout) => {
                    let len: u64 = (layout.num_entries as u64) * (layout.esize as u64);
                    let lba: u64 = layout.entries_lba;
                    (
                        GrowState::Entries { task, lba1: data, layout },
                        GrowAction::Read { lba, len, label: "GPT entries" },
                    )
                },
            }
        },
        GrowState::Boot(task) => {
            let r = if has_mbr_signature(data.as_slice()) {
                grow_mbr(data.as_slice(), task.total, task.sector, task.partnum, task.commit)
            } else {
                Err("no GPT or MBR partition table found".to_owned())
            };
            (GrowState::Finished, GrowAction::Finish(r))
        },
        GrowState::Entries { task, lba1, layout } => {
            let r = grow_gpt(
                lba1.as_slice(),
                &layout,
                data.as_slice(),
                task.sector,
                task.total,
                task.partnum,
                task.commit,
            );
            (GrowState::Finished, GrowAction::Finish(r))
        },
        GrowState::Finished => (GrowState::Finished, GrowAction::Finish(Err(String::new()))),
    }
}

} // verus!

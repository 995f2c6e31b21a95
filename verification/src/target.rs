//! Growing what backs a mountpoint: finding the partition, and the steps that
//! lead from a larger disk to a larger filesystem.
use vstd::prelude::*;
use vstd::string::*;

use crate::config::{CloudConfig, GrowpartVal};
use crate::effect;
use crate::effect::{
    add_effect, command_line_text, copy_texts, no_effects, one_effect, Command, CommandView,
    Effect, EffectView,
};
use crate::growpart::GrowReport;
use crate::number;
use crate::number::{decimal_text, parse_number};
use crate::text;
use crate::text::{begins_with, chars_of, lines_of, same, split_text, text_of, trimmed, Cut};
use crate::Ctx;

verus! {

// ---- what to grow -------------------------------------------------------

/// A wish to grow what backs a mountpoint or a partition device.
#[derive(Debug)]
pub struct GrowRequest {
    pub target: String,
    /// Whether the filesystem is resized, too.
    pub resize_fs: bool,
    pub dry_run: bool,
}

/// The contents of a [`GrowRequest`].
pub struct RequestView {
    pub target: Seq<char>,
    pub resize_fs: bool,
    pub dry_run: bool,
}

impl View for GrowRequest {
    type V = RequestView;

    open spec fn view(&self) -> RequestView {
        RequestView { target: self.target@, resize_fs: self.resize_fs, dry_run: self.dry_run }
    }
}

/// The contents of each request of a list.
pub open spec fn requests(list: Seq<GrowRequest>) -> Seq<RequestView> {
    Seq::new(list.len(), |i: int| list[i]@)
}

/// What a configuration says about growing.
#[derive(Debug)]
pub enum GrowPlan {
    /// Growing is turned off.
    Disabled(Effect),
    /// These are to be grown, one after the other; a failure is only logged.
    Grow(Vec<GrowRequest>),
}

/// Whether a configuration turns growing off.
pub open spec fn growing_off(cfg: Option<&CloudConfig>) -> bool {
    match cfg {
        None => false,
        Some(c) => match c.growpart {
            None => false,
            Some(GrowpartVal::Enabled(e)) => !e,
            Some(GrowpartVal::Cfg(g)) => g.off(),
        },
    }
}

/// What a configuration wants grown; without a word about it that is the root
/// filesystem.
pub open spec fn devices(cfg: Option<&CloudConfig>) -> Seq<Seq<char>> {
    let default = seq!["/"@];
    match cfg {
        None => default,
        Some(c) => match c.growpart {
            Some(GrowpartVal::Cfg(g)) => if g.devices@.len() == 0 {
                default
            } else {
                text::texts(g.devices@)
            },
            _ => default,
        },
    }
}

/// Whether filesystems are resized; they are unless a configuration says
/// otherwise.
pub open spec fn resizing(cfg: Option<&CloudConfig>) -> bool {
    match cfg {
        None => true,
        Some(c) => c.resizes(),
    }
}

/// Says what to grow. Without a configuration, or with one that does not say
/// otherwise, the root filesystem is grown.
pub fn run(cfg: Option<&CloudConfig>, ctx: &Ctx) -> (r: GrowPlan)
    ensures
        match r {
            GrowPlan::Disabled(e) => growing_off(cfg) && e@ == EffectView::Say(
                "tinycloudinit: growpart disabled"@,
            ),
            GrowPlan::Grow(list) => !growing_off(cfg) && requests(list@) == Seq::new(
                devices(cfg).len(),
                |i: int|
                    RequestView {
                        target: devices(cfg)[i],
                        resize_fs: resizing(cfg),
                        dry_run: ctx.dry_run,
                    },
            ),
        },
{
    let mut default: Vec<String> = Vec::new();
    default.push("/".to_owned());
    assert(text::texts(default@) =~= seq!["/"@]);
    let mut off = false;
    let mut resize_fs = true;
    let mut targets = default;
    if let Some(c) = cfg {
        resize_fs = c.resize_rootfs_enabled();
        match &c.growpart {
            None => {},
            Some(GrowpartVal::Enabled(e)) => {
                off = !*e;
            },
            Some(GrowpartVal::Cfg(g)) => {
                off = g.is_off();
                if g.devices.len() > 0 {
                    targets = copy_texts(&g.devices);
                }
            },
        }
    }
    if off {
        return GrowPlan::Disabled(Effect::Say("tinycloudinit: growpart disabled".to_owned()));
    }
    let ghost all = text::texts(targets@);
    assert(all == devices(cfg));
    let n: usize = targets.len();
    let mut list: Vec<GrowRequest> = Vec::new();
    let mut i: usize = 0;
    while i < n
        invariant
            n == targets@.len(),
            all == text::texts(targets@),
            0 <= i <= n,
            requests(list@) =~= Seq::new(
                i as nat,
                |k: int| RequestView { target: all[k], resize_fs, dry_run: ctx.dry_run },
            ),
        decreases n - i,
    {
        let ghost before = requests(list@);
        let request = GrowRequest {
            target: targets[i].as_str().to_owned(),
            resize_fs,
            dry_run: ctx.dry_run,
        };
        assert(request@.target == all[i as int]);
        list.push(request);
        assert(requests(list@) =~= before.push(request@));
        i = i + 1;
    }
    assert(requests(list@) =~= Seq::new(
        devices(cfg).len(),
        |k: int|
            RequestView {
                target: devices(cfg)[k],
                resize_fs: resizing(cfg),
                dry_run: ctx.dry_run,
            },
    ));
    GrowPlan::Grow(list)
}

/// What is logged when growing failed while a configuration is applied.
pub fn run_failed(target: &str, error: &str) -> (r: Effect)
    ensures
        r@ == EffectView::Warn("tinycloudinit: growpart "@ + target@ + ": "@ + error@),
{
    let mut m = "tinycloudinit: growpart ".to_owned();
    m.append(target);
    m.append(": ");
    m.append(error);
    Effect::Warn(m)
}

/// Says what to grow when just that is asked for.
pub fn standalone(target: &str, dry_run: bool) -> (r: GrowRequest)
    ensures
        r@ == (RequestView { target: target@, resize_fs: true, dry_run }),
{
    GrowRequest { target: target.to_owned(), resize_fs: true, dry_run }
}

// ---- from a target to a partition ---------------------------------------

/// A mounted filesystem.
#[derive(Debug)]
pub struct Mount {
    /// The numbers of the device, as `major:minor`.
    pub majmin: String,
    pub mountpoint: String,
    pub fstype: String,
}

/// The contents of a [`Mount`].
pub struct MountView {
    pub majmin: Seq<char>,
    pub mountpoint: Seq<char>,
    pub fstype: Seq<char>,
}

impl View for Mount {
    type V = MountView;

    open spec fn view(&self) -> MountView {
        MountView {
            majmin: self.majmin@,
            mountpoint: self.mountpoint@,
            fstype: self.fstype@,
        }
    }
}

/// The contents of a mount, if there is one.
pub open spec fn opt_mount(m: Option<Mount>) -> Option<MountView> {
    match m {
        Some(x) => Some(x@),
        None => None,
    }
}

/// The index of the field that separates the two parts of a mountinfo line.
pub open spec fn separator(fields: Seq<Seq<char>>) -> int
    decreases fields.len(),
{
    if fields.len() == 0 || fields[0] == "-"@ {
        0
    } else {
        1 + separator(fields.drop_first())
    }
}

/// The mount that a mountinfo line gives, if the line is complete and is about
/// the target, either as a mountpoint or as a source.
pub open spec fn mount_on_line(line: Seq<char>, target: Seq<char>) -> Option<MountView> {
    let fields = text::split(line, Cut::At(' '));
    let sep = separator(fields);
    if sep == fields.len() || fields.len() < 5 || fields.len() < sep + 3 {
        None
    } else if fields[4] == target || fields[sep + 2] == target {
        Some(
            MountView { majmin: fields[2], mountpoint: fields[4], fstype: fields[sep + 1] },
        )
    } else {
        None
    }
}

/// The first mount of the lines that is about the target.
pub open spec fn mount_among(rows: Seq<Seq<char>>, target: Seq<char>) -> Option<MountView>
    decreases rows.len(),
{
    if rows.len() == 0 {
        None
    } else {
        match mount_on_line(rows[0], target) {
            Some(m) => Some(m),
            None => mount_among(rows.drop_first(), target),
        }
    }
}

/// The first hyphen among the fields is what separates them.
pub proof fn separator_is_first(fields: Seq<Seq<char>>, i: int)
    requires
        0 <= i <= fields.len(),
        forall|k: int| 0 <= k < i ==> #[trigger] fields[k] != "-"@,
        i < fields.len() ==> fields[i] == "-"@,
    ensures
        separator(fields) == i,
    decreases i,
{
    if i > 0 {
        let rest = fields.drop_first();
        assert(fields[0] != "-"@);
        assert forall|k: int| 0 <= k < i - 1 implies #[trigger] rest[k] != "-"@ by {
            assert(rest[k] == fields[k + 1]);
        }
        separator_is_first(rest, i - 1);
    }
}

fn parse_mount(line: &str, target: &str) -> (r: Option<Mount>)
    ensures
        opt_mount(r) == mount_on_line(line@, target@),
{
    let fields = split_text(line, Cut::At(' '));
    let ghost all = text::texts(fields@);
    let n: usize = fields.len();
    let mut sep: usize = 0;
    while sep < n && !same(fields[sep].as_str(), "-")
        invariant
            n == fields@.len(),
            all == text::texts(fields@),
            0 <= sep <= n,
            forall|k: int| 0 <= k < sep ==> #[trigger] all[k] != "-"@,
        decreases n - sep,
    {
        assert(all[sep as int] == fields@[sep as int]@);
        sep = sep + 1;
    }
    proof {
        if sep < n {
            assert(all[sep as int] == fields@[sep as int]@);
        }
        separator_is_first(all, sep as int);
    }
    if sep == n || n < 5 || n - sep < 3 {
        return None;
    }
    assert(all[2] == fields@[2]@);
    assert(all[4] == fields@[4]@);
    assert(all[sep + 1] == fields@[sep + 1]@);
    assert(all[sep + 2] == fields@[sep + 2]@);
    if same(fields[4].as_str(), target) || same(fields[sep + 2].as_str(), target) {
        return Some(
            Mount {
                majmin: fields[2].as_str().to_owned(),
                mountpoint: fields[4].as_str().to_owned(),
                fstype: fields[sep + 1].as_str().to_owned(),
            },
        );
    }
    None
}

/// Finds a mountpoint or a mounted device in the text of
/// `/proc/self/mountinfo`.
pub fn find_mount(mountinfo: &str, target: &str) -> (r: Option<Mount>)
    ensures
        opt_mount(r) == mount_among(text::lines(mountinfo@), target@),
{
    let rows = lines_of(mountinfo);
    let n: usize = rows.len();
    let ghost all = text::texts(rows@);
    let mut i: usize = 0;
    assert(all.skip(0) =~= all);
    while i < n
        invariant
            n == rows@.len(),
            all == text::texts(rows@),
            all == text::lines(mountinfo@),
            0 <= i <= n,
            mount_among(all, target@) == mount_among(all.skip(i as int), target@),
        decreases n - i,
    {
        assert(all.skip(i as int)[0] == rows@[i as int]@);
        assert(all.skip(i as int).drop_first() =~= all.skip(i + 1));
        let found = parse_mount(rows[i].as_str(), target);
        if found.is_some() {
            return found;
        }
        i = i + 1;
    }
    None
}

/// Where sysfs describes a target.
pub open spec fn sysfs_of(target: Seq<char>, mount: Option<MountView>) -> Result<
    Seq<char>,
    Seq<char>,
> {
    match mount {
        Some(m) => Ok("/sys/dev/block/"@ + m.majmin),
        None => if "/dev/"@.is_prefix_of(target) {
            Ok("/sys/class/block/"@ + target.skip("/dev/"@.len() as int))
        } else {
            Err("'"@ + target + "' is not mounted and is not a device"@)
        },
    }
}

/// The contents of a text or of an error.
pub open spec fn text_result(r: Result<String, String>) -> Result<Seq<char>, Seq<char>> {
    match r {
        Ok(t) => Ok(t@),
        Err(e) => Err(e@),
    }
}

/// Says where sysfs describes a target: by its device numbers if it is
/// mounted, else by the name of the device.
pub fn sysfs_path(target: &str, mount: &Option<Mount>) -> (r: Result<String, String>)
    ensures
        text_result(r) == sysfs_of(target@, opt_mount(*mount)),
{
    if let Some(m) = mount {
        let mut path = "/sys/dev/block/".to_owned();
        path.append(m.majmin.as_str());
        return Ok(path);
    }
    if begins_with(target, "/dev/") {
        let chars = chars_of(target);
        let skip: usize = chars_of("/dev/").len();
        let name = text_of(&chars, skip, chars.len());
        assert(name@ =~= target@.skip("/dev/"@.len() as int));
        let mut path = "/sys/class/block/".to_owned();
        path.append(name.as_str());
        return Ok(path);
    }
    let mut m = "'".to_owned();
    m.append(target);
    m.append("' is not mounted and is not a device");
    Err(m)
}

/// A partition of a disk.
#[derive(Debug)]
pub struct Target {
    /// The device of the disk.
    pub disk: String,
    pub partnum: u32,
    /// The device of the partition.
    pub partdev: String,
    pub mount: Option<Mount>,
}

/// The contents of a [`Target`].
pub struct TargetView {
    pub disk: Seq<char>,
    pub partnum: u32,
    pub partdev: Seq<char>,
    pub mount: Option<MountView>,
}

impl View for Target {
    type V = TargetView;

    open spec fn view(&self) -> TargetView {
        TargetView {
            disk: self.disk@,
            partnum: self.partnum,
            partdev: self.partdev@,
            mount: opt_mount(self.mount),
        }
    }
}

/// The contents of a target or of an error.
pub open spec fn target_result(r: Result<Target, String>) -> Result<TargetView, Seq<char>> {
    match r {
        Ok(t) => Ok(t@),
        Err(e) => Err(e@),
    }
}

/// The names that a path goes through: its pieces between slashes, but for
/// empty ones and single dots, which stand for no name.
pub open spec fn path_names(path: Seq<char>) -> Seq<Seq<char>> {
    text::split(path, Cut::At('/')).filter(|p: Seq<char>| p.len() > 0 && p != "."@)
}

/// The name that stands `back` places before the last one of a path, if there
/// is one; two dots name nothing.
pub open spec fn name_from_end(names: Seq<Seq<char>>, back: int) -> Option<Seq<char>> {
    let i = names.len() - 1 - back;
    if 0 <= i < names.len() && names[i] != ".."@ {
        Some(names[i])
    } else {
        None
    }
}

/// The last name of a sysfs path, which is that of the partition.
pub open spec fn part_name(sys: Seq<char>) -> Option<Seq<char>> {
    name_from_end(path_names(sys), 0)
}

/// The name before the last one of a sysfs path, which is that of the disk.
pub open spec fn disk_name(sys: Seq<char>) -> Option<Seq<char>> {
    name_from_end(path_names(sys), 1)
}

fn names_on_path(path: &str) -> (r: Vec<String>)
    ensures
        text::texts(r@) == path_names(path@),
{
    let pieces = split_text(path, Cut::At('/'));
    let n: usize = pieces.len();
    let ghost all = text::texts(pieces@);
    let ghost keep = |p: Seq<char>| p.len() > 0 && p != "."@;
    let mut r: Vec<String> = Vec::new();
    let mut i: usize = 0;
    proof {
        reveal(Seq::filter);
        assert(text::texts(r@) =~= all.take(0).filter(keep));
    }
    while i < n
        invariant
            n == pieces@.len(),
            0 <= i <= n,
            all == text::texts(pieces@),
            keep == (|p: Seq<char>| p.len() > 0 && p != "."@),
            text::texts(r@) == all.take(i as int).filter(keep),
        decreases n - i,
    {
        proof {
            reveal(Seq::filter);
            assert(all.take(i + 1).drop_last() =~= all.take(i as int));
            assert(all.take(i + 1).last() == pieces@[i as int]@);
        }
        let piece = pieces[i].as_str();
        if !piece.is_empty() && !same(piece, ".") {
            let ghost before = text::texts(r@);
            let name = piece.to_owned();
            r.push(name);
            assert(text::texts(r@) =~= before.push(name@));
        }
        i = i + 1;
    }
    assert(all.take(n as int) =~= all);
    r
}

fn pick_name(names: &Vec<String>, back: usize) -> (r: Option<String>)
    ensures
        text::opt_text(r) == name_from_end(text::texts(names@), back as int),
{
    let n: usize = names.len();
    if back >= n {
        return None;
    }
    let name = names[n - 1 - back].as_str();
    assert(text::texts(names@)[n - 1 - back] == name@);
    if same(name, "..") {
        None
    } else {
        Some(name.to_owned())
    }
}

/// The names of the partition and of its disk, which are the last two of the
/// sysfs path of the partition.
pub fn partition_names(sys: &str) -> (r: (Option<String>, Option<String>))
    ensures
        text::opt_text(r.0) == part_name(sys@),
        text::opt_text(r.1) == disk_name(sys@),
{
    let names = names_on_path(sys);
    (pick_name(&names, 0), pick_name(&names, 1))
}

/// The partition that a sysfs directory describes, given the text that holds
/// its number.
pub open spec fn partition_at(
    sys: Seq<char>,
    number: Option<Seq<char>>,
    mount: Option<MountView>,
) -> Result<TargetView, Seq<char>> {
    match number {
        None => Err(
            sys + " is not a partition (LVM/RAID/whole-disk roots are not supported)"@,
        ),
        Some(t) => match (
            number::number(text::trim(t), 10, u32::MAX as int),
            part_name(sys),
            disk_name(sys),
        ) {
            (Err(e), _, _) => Err("partition number: "@ + e.words()),
            (Ok(_), None, _) => Err("bad sysfs path"@),
            (Ok(_), Some(_), None) => Err("no parent disk in sysfs"@),
            (Ok(n), Some(p), Some(d)) => Ok(
                TargetView {
                    disk: "/dev/"@ + d,
                    partnum: n as u32,
                    partdev: "/dev/"@ + p,
                    mount,
                },
            ),
        },
    }
}

/// Makes a target of what sysfs says: `number` is the text of the file
/// `partition`, if the directory `sys` has one.
pub fn resolve_target(sys: &str, number: Option<&str>, mount: Option<Mount>) -> (r: Result<
    Target,
    String,
>)
    ensures
        target_result(r) == partition_at(sys@, text::opt_str(number), opt_mount(mount)),
{
    let digits: &str = match number {
        Some(t) => t,
        None => {
            let mut m = sys.to_owned();
            m.append(" is not a partition (LVM/RAID/whole-disk roots are not supported)");
            return Err(m);
        },
    };
    let partnum: u32 = match parse_number(trimmed(digits).as_str(), 10, 0xffff_ffff) {
        Ok(n) => n as u32,
        Err(e) => {
            let mut m = "partition number: ".to_owned();
            m.append(e.message());
            return Err(m);
        },
    };
    match partition_names(sys) {
        (None, _) => Err("bad sysfs path".to_owned()),
        (Some(_), None) => Err("no parent disk in sysfs".to_owned()),
        (Some(p), Some(d)) => {
            let mut disk = "/dev/".to_owned();
            disk.append(d.as_str());
            let mut partdev = "/dev/".to_owned();
            partdev.append(p.as_str());
            Ok(Target { disk, partnum, partdev, mount })
        },
    }
}

// ---- growing a target ---------------------------------------------------

/// Whether a report is of a growth on a disk: something is gained, and the
/// bytes of the disk can be counted.
pub open spec fn sound(r: GrowReport) -> bool {
    0 < r.sector && r.old_end < r.new_end && (r.new_end + 1) * r.sector <= u64::MAX
}

/// Whether a report is of a growth on a disk.
pub fn is_sound(r: &GrowReport) -> (b: bool)
    ensures
        b == sound(*r),
{
    if r.sector == 0 || r.old_end >= r.new_end {
        return false;
    }
    assert((r.new_end + 1) * r.sector <= 0x1_0000_0000_0000_0000 * 0xffff_ffff_ffff_ffff)
        by (nonlinear_arith)
        requires
            0 <= r.new_end <= 0xffff_ffff_ffff_ffff,
            0 <= r.sector <= 0xffff_ffff_ffff_ffff,
    ;
    let end: u128 = (r.new_end as u128 + 1) * (r.sector as u128);
    end <= 0xffff_ffff_ffff_ffff
}

/// The whole mebibytes that a growth gains.
pub open spec fn gain_mib(r: GrowReport) -> int {
    (r.new_end - r.old_end) * r.sector / 1048576
}

fn gain(r: &GrowReport) -> (n: u64)
    requires
        sound(*r),
    ensures
        n == gain_mib(*r),
{
    assert(0 <= (r.new_end - r.old_end) * r.sector <= (r.new_end + 1) * r.sector)
        by (nonlinear_arith)
        requires
            r.old_end < r.new_end,
            0 <= r.old_end,
            0 <= r.sector,
    ;
    (r.new_end - r.old_end) * r.sector / 1048576
}

/// Where a partition lies, in bytes, as the kernel is told.
#[derive(Debug, Clone, Copy, PartialEq, Eq, Structural)]
pub struct KernelExtent {
    pub start: i64,
    pub length: i64,
    pub pno: i32,
}

/// Says where a grown partition lies. A partition that starts behind its end
/// has no extent.
pub fn kernel_resize(r: &GrowReport) -> (e: KernelExtent)
    requires
        r.start <= r.new_end,
        (r.new_end + 1) * r.sector <= u64::MAX,
    ensures
        e == (KernelExtent {
            start: (r.start * r.sector) as i64,
            length: ((r.new_end - r.start + 1) * r.sector) as i64,
            pno: r.partnum as i32,
        }),
        (r.new_end + 1) * r.sector <= i64::MAX ==> e.start + e.length == (r.new_end + 1) * r.sector,
{
    assert(0 <= r.start * r.sector <= (r.new_end + 1) * r.sector) by (nonlinear_arith)
        requires
            r.start <= r.new_end,
            0 <= r.start,
            0 <= r.sector,
    ;
    assert(0 <= (r.new_end - r.start) * r.sector && (r.new_end - r.start) * r.sector + r.sector == (
    r.new_end - r.start + 1) * r.sector && (r.new_end - r.start + 1) * r.sector <= (r.new_end + 1)
        * r.sector) by (nonlinear_arith)
        requires
            r.start <= r.new_end,
            0 <= r.start,
            0 <= r.sector,
    ;
    assert(r.start * r.sector + (r.new_end - r.start + 1) * r.sector == (r.new_end + 1) * r.sector)
        by (nonlinear_arith);
    let start: u64 = r.start * r.sector;
    let length: u64 = (r.new_end - r.start) * r.sector + r.sector;
    KernelExtent { start: start as i64, length: length as i64, pno: r.partnum as i32 }
}

/// The program that resizes a mounted filesystem, and its arguments; none for
/// a kind that cannot be resized.
pub open spec fn resizer(partdev: Seq<char>, mountpoint: Seq<char>, fstype: Seq<char>) -> Option<
    (Seq<char>, Seq<Seq<char>>),
> {
    if fstype == "ext2"@ || fstype == "ext3"@ || fstype == "ext4"@ {
        Some(("resize2fs"@, seq![partdev]))
    } else if fstype == "xfs"@ {
        Some(("xfs_growfs"@, seq![mountpoint]))
    } else if fstype == "btrfs"@ {
        Some(("btrfs"@, seq!["filesystem"@, "resize"@, "max"@, mountpoint]))
    } else {
        None
    }
}

/// The effect of resizing a mounted filesystem.
pub open spec fn resize_effect(
    partdev: Seq<char>,
    mountpoint: Seq<char>,
    fstype: Seq<char>,
    dry_run: bool,
) -> EffectView {
    match resizer(partdev, mountpoint, fstype) {
        None => EffectView::Say(
            "tinycloudinit: growpart: no resize support for "@ + fstype
                + "; partition grown, filesystem untouched"@,
        ),
        Some((program, args)) => if dry_run {
            EffectView::Say("DRY: "@ + effect::command_line(program, args))
        } else {
            EffectView::Run(
                CommandView {
                    program,
                    args,
                    start_context: "run "@ + program,
                    exit_name: program,
                    success: Some(
                        "tinycloudinit: filesystem on "@ + partdev + " resized ("@ + fstype
                            + ")"@,
                    ),
                    fatal: true,
                },
            )
        },
    }
}

/// Resizes a mounted filesystem to fill its partition.
pub fn resize_filesystem(partdev: &str, mountpoint: &str, fstype: &str, dry_run: bool) -> (r: Effect)
    ensures
        r@ == resize_effect(partdev@, mountpoint@, fstype@, dry_run),
{
    let mut args: Vec<String> = Vec::new();
    let program: &str = if same(fstype, "ext2") || same(fstype, "ext3") || same(fstype, "ext4") {
        args.push(partdev.to_owned());
        assert(text::texts(args@) =~= seq![partdev@]);
        "resize2fs"
    } else if same(fstype, "xfs") {
        args.push(mountpoint.to_owned());
        assert(text::texts(args@) =~= seq![mountpoint@]);
        "xfs_growfs"
    } else if same(fstype, "btrfs") {
        args.push("filesystem".to_owned());
        args.push("resize".to_owned());
        args.push("max".to_owned());
        args.push(mountpoint.to_owned());
        assert(text::texts(args@) =~= seq!["filesystem"@, "resize"@, "max"@, mountpoint@]);
        "btrfs"
    } else {
        let mut m = "tinycloudinit: growpart: no resize support for ".to_owned();
        m.append(fstype);
        m.append("; partition grown, filesystem untouched");
        return Effect::Say(m);
    };
    if dry_run {
        let mut m = "DRY: ".to_owned();
        m.append(command_line_text(program, &args).as_str());
        return Effect::Say(m);
    }
    let mut start_context = "run ".to_owned();
    start_context.append(program);
    let mut success = "tinycloudinit: filesystem on ".to_owned();
    success.append(partdev);
    success.append(" resized (");
    success.append(fstype);
    success.append(")");
    Effect::Run(
        Command {
            program: program.to_owned(),
            args,
            start_context,
            exit_name: program.to_owned(),
            success: Some(success),
            fatal: true,
        },
    )
}

/// A target that is being grown.
#[derive(Debug)]
pub struct GrowJob {
    pub request: GrowRequest,
    pub target: Target,
}

/// What to do next about a target, once the effects have been performed.
#[derive(Debug)]
pub enum NextMove {
    /// Grow the partition in the table.
    Commit(GrowReport),
    /// Tell the kernel of the growth.
    Notify(GrowReport),
    /// That was all.
    Finish,
}

/// Effects to perform, and what to do after them.
#[derive(Debug)]
pub struct JobStep {
    pub effects: Vec<Effect>,
    pub next: NextMove,
}

/// The contents of a [`JobStep`].
pub struct StepView {
    pub effects: Seq<EffectView>,
    pub next: NextMove,
}

impl View for JobStep {
    type V = StepView;

    open spec fn view(&self) -> StepView {
        StepView { effects: effect::effects(self.effects@), next: self.next }
    }
}

/// The contents of a step or of an error.
pub open spec fn job_result(r: Result<JobStep, String>) -> Result<StepView, Seq<char>> {
    match r {
        Ok(s) => Ok(s@),
        Err(e) => Err(e@),
    }
}

/// What can be grown, or why nothing can be.
pub open spec fn report_result(r: Result<Option<GrowReport>, String>) -> Result<
    Option<GrowReport>,
    Seq<char>,
> {
    match r {
        Ok(x) => Ok(x),
        Err(e) => Err(e@),
    }
}

/// What to do once it is known what a target would gain: nothing is written
/// before that, nor in a dry run.
pub open spec fn probed(
    request: RequestView,
    target: TargetView,
    found: Result<Option<GrowReport>, Seq<char>>,
) -> Result<StepView, Seq<char>> {
    match found {
        Err(e) => Err(e),
        Ok(None) => Ok(
            StepView {
                effects: seq![
                    EffectView::Say(
                        "tinycloudinit: growpart "@ + request.target + ": "@ + target.partdev
                            + " already fills "@ + target.disk,
                    ),
                ],
                next: NextMove::Finish,
            },
        ),
        Ok(Some(report)) => if request.dry_run {
            Ok(
                StepView {
                    effects: seq![
                        EffectView::Say(
                            "DRY: would grow "@ + target.partdev + " (partition "@
                                + number::decimal(target.partnum as int) + " of "@ + target.disk
                                + ") by "@ + number::decimal(gain_mib(report))
                                + " MiB and resize the filesystem"@,
                        ),
                    ],
                    next: NextMove::Finish,
                },
            )
        } else {
            Ok(
                StepView {
                    effects: Seq::<EffectView>::empty(),
                    next: NextMove::Commit(report),
                },
            )
        },
    }
}

/// What to do once the partition has grown in the table.
pub open spec fn committed(
    target: TargetView,
    report: GrowReport,
    done: Result<Option<GrowReport>, Seq<char>>,
) -> Result<StepView, Seq<char>> {
    match done {
        Err(e) => Err(e),
        Ok(_) => Ok(
            StepView {
                effects: seq![
                    EffectView::Say(
                        "tinycloudinit: grew "@ + target.partdev + " by "@ + number::decimal(
                            gain_mib(report),
                        ) + " MiB (end "@ + number::decimal(report.old_end as int) + " -> "@
                            + number::decimal(report.new_end as int) + ")"@,
                    ),
                ],
                next: NextMove::Notify(report),
            },
        ),
    }
}

/// What is said if the kernel could not be told.
pub open spec fn kernel_effects(request: RequestView, error: Option<Seq<char>>) -> Seq<
    EffectView,
> {
    match error {
        None => Seq::<EffectView>::empty(),
        Some(e) => seq![
            EffectView::Warn(
                "tinycloudinit: growpart "@ + request.target + ": kernel not updated ("@ + e
                    + "); a reboot may be needed before the filesystem can grow"@,
            ),
        ],
    }
}

/// The effects of resizing the filesystem of a target, if that is wanted.
pub open spec fn filesystem_effects(request: RequestView, target: TargetView) -> Seq<EffectView> {
    if !request.resize_fs {
        Seq::<EffectView>::empty()
    } else {
        match target.mount {
            Some(m) => seq![
                resize_effect(target.partdev, m.mountpoint, m.fstype, request.dry_run),
            ],
            None => seq![
                EffectView::Say(
                    "tinycloudinit: growpart "@ + request.target + ": "@ + target.partdev
                        + " not mounted; skipping filesystem resize"@,
                ),
            ],
        }
    }
}

/// What to do once the kernel has been told: the filesystem is resized even if
/// the kernel could not be told.
pub open spec fn notified(request: RequestView, target: TargetView, error: Option<Seq<char>>) -> Seq<
    EffectView,
> {
    kernel_effects(request, error) + filesystem_effects(request, target)
}

impl GrowJob {
    /// Begins to grow a target: what it would gain is looked up first.
    pub fn grow_target(request: GrowRequest, target: Target) -> (r: GrowJob)
        ensures
            r.request == request,
            r.target == target,
    {
        GrowJob { request, target }
    }

    /// Decides once it is known what the target would gain.
    pub fn after_probe(&self, found: Result<Option<GrowReport>, String>) -> (r: Result<
        JobStep,
        String,
    >)
        requires
            found matches Ok(Some(report)) ==> sound(report),
        ensures
            job_result(r) == probed(self.request@, self.target@, report_result(found)),
    {
        let report = match found {
            Err(e) => return Err(e),
            Ok(None) => {
                let mut m = "tinycloudinit: growpart ".to_owned();
                m.append(self.request.target.as_str());
                m.append(": ");
                m.append(self.target.partdev.as_str());
                m.append(" already fills ");
                m.append(self.target.disk.as_str());
                return Ok(
                    JobStep { effects: one_effect(Effect::Say(m)), next: NextMove::Finish },
                );
            },
            Ok(Some(report)) => report,
        };
        if self.request.dry_run {
            let mut m = "DRY: would grow ".to_owned();
            m.append(self.target.partdev.as_str());
            m.append(" (partition ");
            m.append(decimal_text(self.target.partnum as u64).as_str());
            m.append(" of ");
            m.append(self.target.disk.as_str());
            m.append(") by ");
            m.append(decimal_text(gain(&report)).as_str());
            m.append(" MiB and resize the filesystem");
            return Ok(JobStep { effects: one_effect(Effect::Say(m)), next: NextMove::Finish });
        }
        Ok(JobStep { effects: no_effects(), next: NextMove::Commit(report) })
    }

    /// Decides once the partition has grown in the table.
    pub fn after_commit(
        &self,
        report: GrowReport,
        done: Result<Option<GrowReport>, String>,
    ) -> (r: Result<JobStep, String>)
        requires
            sound(report),
        ensures
            job_result(r) == committed(self.target@, report, report_result(done)),
    {
        if let Err(e) = done {
            return Err(e);
        }
        let mut m = "tinycloudinit: grew ".to_owned();
        m.append(self.target.partdev.as_str());
        m.append(" by ");
        m.append(decimal_text(gain(&report)).as_str());
        m.append(" MiB (end ");
        m.append(decimal_text(report.old_end).as_str());
        m.append(" -> ");
        m.append(decimal_text(report.new_end).as_str());
        m.append(")");
        Ok(JobStep { effects: one_effect(Effect::Say(m)), next: NextMove::Notify(report) })
    }

    /// Decides once the kernel has been told, or could not be told.
    pub fn after_notify(&self, error: Option<&str>) -> (r: Vec<Effect>)
        ensures
            effect::effects(r@) == notified(self.request@, self.target@, text::opt_str(error)),
    {
        let mut list = no_effects();
        if let Some(e) = error {
            let mut m = "tinycloudinit: growpart ".to_owned();
            m.append(self.request.target.as_str());
            m.append(": kernel not updated (");
            m.append(e);
            m.append("); a reboot may be needed before the filesystem can grow");
            add_effect(&mut list, Effect::Warn(m));
        }
        if self.request.resize_fs {
            match &self.target.mount {
                Some(mount) => {
                    let e = resize_filesystem(
                        self.target.partdev.as_str(),
                        mount.mountpoint.as_str(),
                        mount.fstype.as_str(),
                        self.request.dry_run,
                    );
                    add_effect(&mut list, e);
                },
                None => {
                    let mut m = "tinycloudinit: growpart ".to_owned();
                    m.append(self.request.target.as_str());
                    m.append(": ");
                    m.append(self.target.partdev.as_str());
                    m.append(" not mounted; skipping filesystem resize");
                    add_effect(&mut list, Effect::Say(m));
                },
            }
        }
        assert(effect::effects(list@) =~= notified(
            self.request@,
            self.target@,
            text::opt_str(error),
        ));
        list
    }
}

} // verus!

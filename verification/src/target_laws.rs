//! What holds of growing any target.
use vstd::prelude::*;

use crate::config::{CloudConfig, GrowMode, GrowpartVal, ResizeVal};
use crate::effect;
use crate::effect::{CommandView, EffectView};
use crate::growpart::GrowReport;
use crate::growth_laws;
use crate::image;
use crate::number;
use crate::target;
use crate::target::{MountView, NextMove, RequestView, StepView, TargetView};
use crate::text;
use crate::text::Cut;
use crate::text_laws;

verus! {

/// Every growth that a disk has room for is sound, so it can be reported and
/// told to the kernel.
pub proof fn found_growth_is_sound(disk: Seq<u8>, sector: int, partnum: int, commit: bool)
    requires
        0 < sector <= u64::MAX,
        disk.len() <= u64::MAX,
        image::disk_growth(disk, sector, partnum, commit) matches Ok(Some(_)),
    ensures
        target::sound(image::disk_growth(disk, sector, partnum, commit)->Ok_0->Some_0.report),
{
    growth_laws::growth_stays_on_the_disk(disk, sector, partnum, commit);
}

/// A dry run of growing never gets to change the table: it ends with a line of
/// print, or with the error that stands in the way.
pub proof fn dry_run_never_commits(
    request: RequestView,
    t: TargetView,
    found: Result<Option<GrowReport>, Seq<char>>,
)
    requires
        request.dry_run,
    ensures
        match target::probed(request, t, found) {
            Ok(step) => step.next is Finish && effect::only_talk(step.effects),
            Err(e) => found == Err::<Option<GrowReport>, Seq<char>>(e),
        },
{
}

/// The table is only changed where that gains something.
pub proof fn commits_only_a_gain(
    request: RequestView,
    t: TargetView,
    found: Result<Option<GrowReport>, Seq<char>>,
    report: GrowReport,
)
    requires
        target::probed(request, t, found) matches Ok(step) && step.next == NextMove::Commit(report),
    ensures
        found == Ok::<Option<GrowReport>, Seq<char>>(Some(report)),
        !request.dry_run,
{
}

/// That the kernel could not be told does not keep the filesystem from being
/// resized: it only adds a warning in front.
pub proof fn resize_does_not_wait_for_the_kernel(
    request: RequestView,
    t: TargetView,
    error: Seq<char>,
)
    ensures
        target::notified(request, t, Some(error)).drop_first() == target::notified(
            request,
            t,
            None,
        ),
        target::notified(request, t, Some(error))[0] is Warn,
{
    assert(target::notified(request, t, Some(error)).drop_first() =~= target::notified(
        request,
        t,
        None,
    ));
}

/// A filesystem that was not asked to be resized is left alone.
pub proof fn resize_only_on_request(request: RequestView, t: TargetView)
    requires
        !request.resize_fs,
    ensures
        target::notified(request, t, None) == Seq::<EffectView>::empty(),
{
    assert(target::notified(request, t, None) =~= Seq::<EffectView>::empty());
}

/// What a configuration says of growing. It is turned off by the flag false, or
/// by a mode that is the flag false or the word off. The devices that are named
/// are grown, each of them, and otherwise the root filesystem. Filesystems are
/// resized unless the flag false is given. Without a configuration the root
/// filesystem is grown and resized.
pub proof fn what_a_configuration_grows(c: CloudConfig)
    ensures
        ({
            let off = target::growing_off(Some(&c));
            let list = target::devices(Some(&c));
            &&& off <==> (c.growpart matches Some(GrowpartVal::Enabled(e)) && !e) || (
            c.growpart matches Some(GrowpartVal::Cfg(g)) && ((g.mode matches Some(
                GrowMode::Flag(b),
            ) && !b) || (g.mode matches Some(GrowMode::Word(w)) && w@ == "off"@)))
            &&& (c.growpart matches Some(GrowpartVal::Cfg(g)) && g.devices@.len() > 0) ==> {
                let named = c.growpart->0->Cfg_0.devices@;
                &&& list.len() == named.len()
                &&& forall|i: int| 0 <= i < named.len() ==> #[trigger] list[i] == named[i]@
            }
            &&& !(c.growpart matches Some(GrowpartVal::Cfg(g)) && g.devices@.len() > 0) ==> list
                == seq!["/"@]
            &&& target::resizing(Some(&c)) <==> !(c.resize_rootfs matches Some(ResizeVal::Flag(b))
                && !b)
        }),
        !target::growing_off(None),
        target::devices(None) == seq!["/"@],
        target::resizing(None),
{
}

/// Whether the fields of a mountinfo line can stand between spaces.
pub open spec fn are_fields(fields: Seq<Seq<char>>) -> bool {
    &&& fields.len() > 0
    &&& forall|i: int, k: int|
        0 <= i < fields.len() && 0 <= k < fields[i].len() ==> #[trigger] fields[i][k] != ' '
}

/// A line of mountinfo is about a target exactly if it is complete, that is, it
/// has five fields and two behind the first hyphen that is a field, and the
/// target is its mountpoint, which is the fifth field, or its source, which is
/// the second one behind the hyphen. The device numbers are the third field, and
/// the filesystem is the first one behind the hyphen.
pub proof fn what_a_mountinfo_line_says(
    fields: Seq<Seq<char>>,
    line: Seq<char>,
    sep: int,
    target: Seq<char>,
)
    requires
        are_fields(fields),
        line == text::join(fields, seq![' ']),
        0 <= sep <= fields.len(),
        forall|i: int| 0 <= i < sep ==> #[trigger] fields[i] != "-"@,
        sep < fields.len() ==> fields[sep] == "-"@,
    ensures
        ({
            let complete = fields.len() >= 5 && sep + 2 < fields.len();
            let r = target::mount_on_line(line, target);
            &&& r is Some <==> complete && (target == fields[4] || target == fields[sep + 2])
            &&& r matches Some(m) ==> m == (MountView {
                majmin: fields[2],
                mountpoint: fields[4],
                fstype: fields[sep + 1],
            })
        }),
{
    text_laws::joined_pieces_are_found(fields, ' ');
    target::separator_is_first(fields, sep);
}

/// The first line that is about a target decides.
pub proof fn the_first_mount_decides(row: Seq<char>, rest: Seq<char>, target: Seq<char>)
    requires
        forall|i: int| 0 <= i < row.len() ==> #[trigger] row[i] != '\n',
        row.len() == 0 || row.last() != '\r',
    ensures
        ({
            let all = target::mount_among(text::lines(row.push('\n') + rest), target);
            match target::mount_on_line(row, target) {
                Some(m) => all == Some(m),
                None => all == target::mount_among(text::lines(rest), target),
            }
        }),
        target::mount_among(text::lines(Seq::<char>::empty()), target) is None,
{
    text_laws::text_line_by_line(row, rest);
    let rows = text::lines(row.push('\n') + rest);
    assert(rows[0] == row);
    assert(rows.drop_first() =~= text::lines(rest));
}

/// A target that is mounted is found in sysfs by its device numbers, one that is
/// a device by its name, and any other one is refused.
pub proof fn where_a_target_is_described(target: Seq<char>, name: Seq<char>, m: MountView)
    ensures
        target::sysfs_of(target, Some(m)) == Ok::<Seq<char>, Seq<char>>(
            "/sys/dev/block/"@ + m.majmin,
        ),
        target::sysfs_of("/dev/"@ + name, None) == Ok::<Seq<char>, Seq<char>>(
            "/sys/class/block/"@ + name,
        ),
        !"/dev/"@.is_prefix_of(target) ==> target::sysfs_of(target, None) == Err::<
            Seq<char>,
            Seq<char>,
        >("'"@ + target + "' is not mounted and is not a device"@),
{
    reveal_strlit("/dev/");
    let dev = "/dev/"@ + name;
    assert(dev.subrange(0, 5) =~= "/dev/"@);
    assert(dev.skip(5) =~= name);
}

/// Whether a text is the name of a file: not empty, without a slash, and neither
/// of the names that stand for a directory itself and for the one above it.
pub open spec fn is_name(name: Seq<char>) -> bool {
    &&& name.len() > 0
    &&& forall|i: int| 0 <= i < name.len() ==> #[trigger] name[i] != '/'
    &&& name != "."@
    &&& name != ".."@
}

proof fn lemma_name_behind(path: Seq<char>, name: Seq<char>)
    requires
        is_name(name),
    ensures
        target::path_names(path.push('/') + name) == target::path_names(path).push(name),
{
    let cut = Cut::At('/');
    let keep = |p: Seq<char>| p.len() > 0 && p != "."@;
    text_laws::split_at_cut(path, '/', name, cut);
    text_laws::split_without_cut(name, cut);
    let front = text::split(path, cut);
    assert(front + seq![name] =~= front.push(name));
    reveal(Seq::filter);
    assert(front.push(name).drop_last() =~= front);
    assert(keep(name));
}

/// The partition is the last name of its directory in sysfs, and its disk the one
/// before; its number is what the file says, blanks left aside. A number that
/// cannot be read, or none, is refused.
pub proof fn what_partition_a_directory_is(
    path: Seq<char>,
    disk: Seq<char>,
    part: Seq<char>,
    t: Seq<char>,
    mount: Option<MountView>,
)
    requires
        is_name(disk),
        is_name(part),
    ensures
        ({
            let sys = path.push('/') + disk.push('/') + part;
            &&& target::partition_at(sys, None, mount) == Err::<TargetView, Seq<char>>(
                sys + " is not a partition (LVM/RAID/whole-disk roots are not supported)"@,
            )
            &&& match number::number(text::trim(t), 10, 0xffff_ffff) {
                Ok(n) => target::partition_at(sys, Some(t), mount) == Ok::<
                    TargetView,
                    Seq<char>,
                >(
                    TargetView {
                        disk: "/dev/"@ + disk,
                        partnum: n as u32,
                        partdev: "/dev/"@ + part,
                        mount,
                    },
                ),
                Err(e) => target::partition_at(sys, Some(t), mount) == Err::<
                    TargetView,
                    Seq<char>,
                >("partition number: "@ + e.words()),
            }
        }),
{
    let sys = path.push('/') + disk.push('/') + part;
    let above = path.push('/') + disk;
    lemma_name_behind(path, disk);
    lemma_name_behind(above, part);
    assert(above.push('/') + part =~= sys);
}

/// A slash or a dot behind a path makes no difference to what it names; two dots
/// name nothing, and nor does the root.
pub proof fn what_a_path_names(path: Seq<char>, disk: Seq<char>)
    requires
        is_name(disk),
    ensures
        target::path_names(path.push('/')) == target::path_names(path),
        target::path_names(path + "/."@) == target::path_names(path),
        target::part_name(path.push('/') + disk) == Some(disk),
        target::part_name(path + "/.."@) is None,
        target::part_name("/"@) is None,
        target::disk_name("/"@ + disk) is None,
{
    let cut = Cut::At('/');
    let keep = |p: Seq<char>| p.len() > 0 && p != "."@;
    let front = text::split(path, cut);
    reveal_strlit("/");
    reveal_strlit(".");
    reveal_strlit("..");
    reveal_strlit("/.");
    reveal_strlit("/..");
    reveal(Seq::filter);
    let none = Seq::<char>::empty();
    text_laws::split_without_cut(none, cut);
    text_laws::split_at_cut(path, '/', none, cut);
    assert(path.push('/') + none =~= path.push('/'));
    assert(front + seq![none] =~= front.push(none));
    assert(front.push(none).drop_last() =~= front);
    text_laws::split_without_cut("."@, cut);
    text_laws::split_at_cut(path, '/', "."@, cut);
    assert(path.push('/') + "."@ =~= path + "/."@);
    assert(front + seq!["."@] =~= front.push("."@));
    assert(front.push("."@).drop_last() =~= front);
    text_laws::split_without_cut(".."@, cut);
    text_laws::split_at_cut(path, '/', ".."@, cut);
    assert(path.push('/') + ".."@ =~= path + "/.."@);
    assert(front + seq![".."@] =~= front.push(".."@));
    assert(front.push(".."@).drop_last() =~= front);
    assert(".."@.len() == 2 && "."@.len() == 1);
    assert(keep(".."@));
    lemma_name_behind(path, disk);
    lemma_name_behind(none, disk);
    assert(none.push('/') + disk =~= "/"@ + disk);
    assert(none.push('/') =~= "/"@);
    text_laws::split_at_cut(none, '/', none, cut);
    assert(none.push('/') + none =~= "/"@);
    assert(seq![none].drop_last() =~= Seq::<Seq<char>>::empty());
    let no_names = Seq::<Seq<char>>::empty();
    assert(no_names.filter(keep) =~= no_names);
    assert(seq![none].filter(keep) =~= no_names);
    assert(target::path_names(none) =~= no_names);
    assert(seq![none] + seq![none] =~= seq![none].push(none));
    assert(seq![none].push(none).drop_last() =~= seq![none]);
    assert(target::path_names("/"@) =~= Seq::<Seq<char>>::empty());
}

/// The gain that is reported is the number of whole mebibytes between the old
/// end and the new one.
pub proof fn the_gain_is_in_mebibytes(r: GrowReport)
    requires
        target::sound(r),
    ensures
        ({
            let bytes = (r.new_end - r.old_end) * r.sector;
            &&& target::gain_mib(r) >= 0
            &&& target::gain_mib(r) * 1048576 <= bytes
            &&& bytes < (target::gain_mib(r) + 1) * 1048576
        }),
{
    let bytes = (r.new_end - r.old_end) * r.sector;
    assert(bytes >= 0) by (nonlinear_arith)
        requires
            bytes == (r.new_end - r.old_end) * r.sector,
            r.old_end < r.new_end,
            0 < r.sector,
    ;
}

/// A report is sound exactly if something is gained and the partition ends where
/// a disk can.
pub proof fn when_a_report_is_sound(r: GrowReport)
    ensures
        target::sound(r) <==> r.sector > 0 && r.new_end > r.old_end && r.new_end * r.sector
            + r.sector <= 0xffff_ffff_ffff_ffff,
{
    assert((r.new_end + 1) * r.sector == r.new_end * r.sector + r.sector) by (nonlinear_arith);
}

/// Each filesystem that can be resized has its tool: the ext family is told the
/// device, the others the mountpoint. It has to succeed, and a dry run only shows
/// the command. Any other filesystem is left alone, and that is said.
pub proof fn which_tool_resizes(dev: Seq<char>, point: Seq<char>, fstype: Seq<char>)
    ensures
        ({
            let run = |program: Seq<char>, args: Seq<Seq<char>>|
                EffectView::Run(
                    CommandView {
                        program,
                        args,
                        start_context: "run "@ + program,
                        exit_name: program,
                        success: Some(
                            "tinycloudinit: filesystem on "@ + dev + " resized ("@ + fstype + ")"@,
                        ),
                        fatal: true,
                    },
                );
            let show = |program: Seq<char>, args: Seq<Seq<char>>|
                EffectView::Say("DRY: "@ + (program + " "@ + text::join(args, " "@)));
            let wet = target::resize_effect(dev, point, fstype, false);
            let dry = target::resize_effect(dev, point, fstype, true);
            let ext = fstype == "ext2"@ || fstype == "ext3"@ || fstype == "ext4"@;
            &&& ext ==> wet == run("resize2fs"@, seq![dev]) && dry == show("resize2fs"@, seq![dev])
            &&& fstype == "xfs"@ ==> wet == run("xfs_growfs"@, seq![point]) && dry == show(
                "xfs_growfs"@,
                seq![point],
            )
            &&& fstype == "btrfs"@ ==> wet == run(
                "btrfs"@,
                seq!["filesystem"@, "resize"@, "max"@, point],
            ) && dry == show("btrfs"@, seq!["filesystem"@, "resize"@, "max"@, point])
            &&& !ext && fstype != "xfs"@ && fstype != "btrfs"@ ==> wet == dry && wet
                == EffectView::Say(
                "tinycloudinit: growpart: no resize support for "@ + fstype
                    + "; partition grown, filesystem untouched"@,
            )
        }),
{
    reveal_strlit("ext2");
    reveal_strlit("ext3");
    reveal_strlit("ext4");
    reveal_strlit("xfs");
    reveal_strlit("btrfs");
    assert("ext2"@.len() == 4 && "ext3"@.len() == 4 && "ext4"@.len() == 4 && "xfs"@.len() == 3
        && "btrfs"@.len() == 5);
}

/// A growth that is found is written, unless it is a dry run, which says how much
/// would be gained; where nothing is to be gained that is said, and an error ends
/// it.
pub proof fn what_follows_the_look(
    request: RequestView,
    t: TargetView,
    report: GrowReport,
    e: Seq<char>,
)
    ensures
        target::probed(request, t, Err(e)) == Err::<StepView, Seq<char>>(e),
        target::probed(request, t, Ok(None)) == Ok::<StepView, Seq<char>>(
            StepView {
                effects: seq![
                    EffectView::Say(
                        "tinycloudinit: growpart "@ + request.target + ": "@ + t.partdev
                            + " already fills "@ + t.disk,
                    ),
                ],
                next: NextMove::Finish,
            },
        ),
        !request.dry_run ==> target::probed(request, t, Ok(Some(report))) == Ok::<
            StepView,
            Seq<char>,
        >(StepView { effects: Seq::<EffectView>::empty(), next: NextMove::Commit(report) }),
        request.dry_run ==> target::probed(request, t, Ok(Some(report))) == Ok::<
            StepView,
            Seq<char>,
        >(
            StepView {
                effects: seq![
                    EffectView::Say(
                        "DRY: would grow "@ + t.partdev + " (partition "@ + number::decimal(
                            t.partnum as int,
                        ) + " of "@ + t.disk + ") by "@ + number::decimal(
                            target::gain_mib(report),
                        ) + " MiB and resize the filesystem"@,
                    ),
                ],
                next: NextMove::Finish,
            },
        ),
{
}

/// Once the table has been written the kernel is told of the growth that was
/// found, and the gain is reported; an error ends it.
pub proof fn what_follows_the_write(
    t: TargetView,
    report: GrowReport,
    done: Option<GrowReport>,
    e: Seq<char>,
)
    ensures
        target::committed(t, report, Err(e)) == Err::<StepView, Seq<char>>(e),
        target::committed(t, report, Ok(done)) == Ok::<StepView, Seq<char>>(
            StepView {
                effects: seq![
                    EffectView::Say(
                        "tinycloudinit: grew "@ + t.partdev + " by "@ + number::decimal(
                            target::gain_mib(report),
                        ) + " MiB (end "@ + number::decimal(report.old_end as int) + " -> "@
                            + number::decimal(report.new_end as int) + ")"@,
                    ),
                ],
                next: NextMove::Notify(report),
            },
        ),
{
}

/// Once the kernel has been told, the filesystem of a target that is mounted is
/// resized if that is asked for; of one that is not mounted it is said that it is
/// not. That the kernel could not be told is a warning in front.
pub proof fn what_follows_the_kernel(
    request: RequestView,
    t: TargetView,
    e: Seq<char>,
    m: MountView,
)
    ensures
        ({
            let mounted = TargetView { mount: Some(m), ..t };
            let loose = TargetView { mount: None, ..t };
            &&& request.resize_fs ==> target::notified(request, mounted, None) == seq![
                target::resize_effect(t.partdev, m.mountpoint, m.fstype, request.dry_run),
            ]
            &&& request.resize_fs ==> target::notified(request, loose, None) == seq![
                EffectView::Say(
                    "tinycloudinit: growpart "@ + request.target + ": "@ + t.partdev
                        + " not mounted; skipping filesystem resize"@,
                ),
            ]
            &&& !request.resize_fs ==> target::notified(request, t, None).len() == 0
            &&& target::notified(request, t, Some(e)) == seq![
                EffectView::Warn(
                    "tinycloudinit: growpart "@ + request.target + ": kernel not updated ("@ + e
                        + "); a reboot may be needed before the filesystem can grow"@,
                ),
            ] + target::notified(request, t, None)
        }),
{
    let mounted = TargetView { mount: Some(m), ..t };
    let loose = TargetView { mount: None, ..t };
    if request.resize_fs {
        assert(target::notified(request, mounted, None) =~= seq![
            target::resize_effect(t.partdev, m.mountpoint, m.fstype, request.dry_run),
        ]);
        assert(target::notified(request, loose, None) =~= target::filesystem_effects(
            request,
            loose,
        ));
    }
    assert(target::notified(request, t, None) =~= target::filesystem_effects(request, t));
}

} // verus!

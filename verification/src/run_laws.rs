//! What holds of every command line and of every run.
use vstd::prelude::*;

use crate::boot;
use crate::boot::{RunAnswers, RunningView};
use crate::cli;
use crate::cli::{CliView, OptionsView};
use crate::config::MetaData;
use crate::datasource::{DsMode, Seed};
use crate::effect::EffectView;
use crate::target::RequestView;
use crate::text;
use crate::text_laws;

verus! {

/// Arguments with one more in front.
pub open spec fn led(a: Seq<char>, rest: Seq<Seq<char>>) -> Seq<Seq<char>> {
    seq![a] + rest
}

proof fn lemma_led(a: Seq<char>, v: Seq<char>, rest: Seq<Seq<char>>)
    ensures
        led(a, rest).len() == rest.len() + 1,
        led(a, rest)[0] == a,
        led(a, rest).skip(1) == rest,
        led(a, led(v, rest))[1] == v,
        led(a, led(v, rest)).skip(2) == rest,
{
    assert(led(a, rest).skip(1) =~= rest);
    assert(led(a, led(v, rest)).skip(2) =~= rest);
}

proof fn lemma_words()
    ensures
        "--seed"@.len() == 6 && "--seed"@[2] == 's',
        "--grow"@.len() == 6 && "--grow"@[2] == 'g',
        "--help"@.len() == 6 && "--help"@[2] == 'h',
        "--datasource"@.len() == 12,
        "--state-dir"@.len() == 11,
        "--force"@.len() == 7,
        "--dry-run"@.len() == 9 && "--dry-run"@[2] == 'd',
        "--version"@.len() == 9 && "--version"@[2] == 'v',
        "-V"@.len() == 2 && "-V"@[1] == 'V',
        "-h"@.len() == 2 && "-h"@[1] == 'h',
{
    reveal_strlit("--seed");
    reveal_strlit("--grow");
    reveal_strlit("--help");
    reveal_strlit("--datasource");
    reveal_strlit("--state-dir");
    reveal_strlit("--force");
    reveal_strlit("--dry-run");
    reveal_strlit("--version");
    reveal_strlit("-V");
    reveal_strlit("-h");
}

/// What each option in front of other arguments does to what they ask for: it
/// sets one thing, whatever its value and whatever was set before, and leaves the
/// rest alone.
pub proof fn each_option_sets_one_thing(
    v: Seq<char>,
    rest: Seq<Seq<char>>,
    o: OptionsView,
    grow: Option<Seq<char>>,
)
    ensures
        cli::parsed(led("--seed"@, led(v, rest)), o, grow) == cli::parsed(
            rest,
            OptionsView { seed_dir: Some(v), ..o },
            grow,
        ),
        cli::parsed(led("--state-dir"@, led(v, rest)), o, grow) == cli::parsed(
            rest,
            OptionsView { state_dir: v, ..o },
            grow,
        ),
        cli::parsed(led("--grow"@, led(v, rest)), o, grow) == cli::parsed(rest, o, Some(v)),
        cli::parsed(led("--dry-run"@, rest), o, grow) == cli::parsed(
            rest,
            OptionsView { dry_run: true, ..o },
            grow,
        ),
        cli::parsed(led("--force"@, rest), o, grow) == cli::parsed(
            rest,
            OptionsView { force: true, ..o },
            grow,
        ),
{
    lemma_words();
    lemma_led("--seed"@, v, rest);
    lemma_led("--state-dir"@, v, rest);
    lemma_led("--grow"@, v, rest);
    lemma_led("--dry-run"@, v, rest);
    lemma_led("--force"@, v, rest);
}

/// The datasource is one of the three that have a name; another word is refused,
/// and is named in the complaint.
pub proof fn the_datasource_has_a_name(
    word: Seq<char>,
    rest: Seq<Seq<char>>,
    o: OptionsView,
    grow: Option<Seq<char>>,
)
    ensures
        ({
            let with = |w: Seq<char>| cli::parsed(led("--datasource"@, led(w, rest)), o, grow);
            &&& with("auto"@) == cli::parsed(rest, OptionsView { mode: DsMode::Auto, ..o }, grow)
            &&& with("nocloud"@) == cli::parsed(
                rest,
                OptionsView { mode: DsMode::NoCloud, ..o },
                grow,
            )
            &&& with("ec2"@) == cli::parsed(rest, OptionsView { mode: DsMode::Ec2, ..o }, grow)
            &&& word != "auto"@ && word != "nocloud"@ && word != "ec2"@ ==> with(word)
                == CliView::Usage(
                "--datasource must be auto, nocloud or ec2 (got '"@ + word + "')"@,
            )
        }),
{
    lemma_words();
    reveal_strlit("auto");
    reveal_strlit("nocloud");
    reveal_strlit("ec2");
    assert("auto"@.len() == 4 && "nocloud"@.len() == 7 && "ec2"@.len() == 3);
    lemma_led("--datasource"@, "auto"@, rest);
    lemma_led("--datasource"@, "nocloud"@, rest);
    lemma_led("--datasource"@, "ec2"@, rest);
    lemma_led("--datasource"@, word, rest);
}

/// The version and the help end a command line, in their short form and in their
/// long one, whatever follows; so does an argument that is not known, and an
/// option that lacks its value.
pub proof fn what_ends_a_command_line(
    a: Seq<char>,
    rest: Seq<Seq<char>>,
    o: OptionsView,
    grow: Option<Seq<char>>,
)
    ensures
        cli::parsed(led("--version"@, rest), o, grow) is Version,
        cli::parsed(led("-V"@, rest), o, grow) is Version,
        cli::parsed(led("--help"@, rest), o, grow) is Help,
        cli::parsed(led("-h"@, rest), o, grow) is Help,
        cli::parsed(seq!["--seed"@], o, grow) == CliView::Usage("--seed requires a directory"@),
        cli::parsed(seq!["--datasource"@], o, grow) == CliView::Usage(
            "--datasource requires a value"@,
        ),
        cli::parsed(seq!["--state-dir"@], o, grow) == CliView::Usage(
            "--state-dir requires a directory"@,
        ),
        cli::parsed(seq!["--grow"@], o, grow) == CliView::Usage(
            "--grow requires a mountpoint or partition device"@,
        ),
        (a != "--seed"@ && a != "--datasource"@ && a != "--state-dir"@ && a != "--grow"@ && a
            != "--dry-run"@ && a != "--force"@ && a != "--version"@ && a != "-V"@ && a != "--help"@
            && a != "-h"@) ==> cli::parsed(led(a, rest), o, grow) == CliView::Usage(
            "unknown argument: "@ + a,
        ),
{
    lemma_words();
}

/// At its end a command line asks for a target to be grown, if one was named, its
/// filesystem with it, and otherwise for a run; without arguments that is a run
/// in mode auto with the usual state directory.
pub proof fn what_a_command_line_asks_for(o: OptionsView, target: Seq<char>)
    ensures
        cli::parsed(Seq::<Seq<char>>::empty(), o, None) == CliView::Run(o),
        cli::parsed(Seq::<Seq<char>>::empty(), o, Some(target)) == CliView::Grow(
            RequestView { target, resize_fs: true, dry_run: o.dry_run },
        ),
        cli::default_options() == (OptionsView {
            seed_dir: None,
            state_dir: "/var/lib/tinycloudinit"@,
            mode: DsMode::Auto,
            dry_run: false,
            force: false,
        }),
{
}

/// The help names every option.
pub proof fn the_help_names_every_option()
    ensures
        text::occurs(cli::help_body(), "    --seed <DIR> "@),
        text::occurs(cli::help_body(), "    --datasource <DS> "@),
        text::occurs(cli::help_body(), "    --grow <TARGET> "@),
        text::occurs(cli::help_body(), "    --state-dir <DIR> "@),
        text::occurs(cli::help_body(), "    --dry-run "@),
        text::occurs(cli::help_body(), "    --force "@),
        text::occurs(cli::help_body(), "    -V, --version "@),
        text::occurs(cli::help_body(), "    -h, --help "@),
{
    let h1 = " — tiny cloud-init (NoCloud) for small images\n\n"@ + "USAGE:\n"@
        + "    tinycloudinit [OPTIONS]\n\n"@ + "OPTIONS:\n"@;
    let l1 = "    --seed <DIR>        Use DIR as the seed (must contain meta-data/user-data)\n"@;
    let h2 = h1 + l1;
    let l2 = "    --datasource <DS>   auto (default), nocloud, or ec2\n"@;
    let h3 = h2 + l2;
    let l3 = "    --grow <TARGET>     Just grow the partition backing TARGET (a mountpoint\n"@;
    let h4 = h3 + l3 + "                        like / or a partition device) and resize its\n"@
        + "                        filesystem, then exit\n"@;
    let l4 = "    --state-dir <DIR>   State directory (default /var/lib/tinycloudinit)\n"@;
    let h5 = h4 + l4;
    let l5 = "    --dry-run           Show what would be done without changing anything\n"@;
    let h6 = h5 + l5;
    let l6 = "    --force             Run even if this instance-id was already initialized\n"@;
    let h7 = h6 + l6;
    let l7 = "    -V, --version       Print version\n"@;
    let h8 = h7 + l7;
    let l8 = "    -h, --help          Print this help"@;
    assert(cli::help_body() == h8 + l8);
    reveal_strlit("    --seed <DIR>        Use DIR as the seed (must contain meta-data/user-data)\n");
    reveal_strlit("    --seed <DIR> ");
    lemma_in_line(h1, l1, "    --seed <DIR> "@, cli::help_body());
    reveal_strlit("    --datasource <DS>   auto (default), nocloud, or ec2\n");
    reveal_strlit("    --datasource <DS> ");
    lemma_in_line(h2, l2, "    --datasource <DS> "@, cli::help_body());
    reveal_strlit("    --grow <TARGET>     Just grow the partition backing TARGET (a mountpoint\n");
    reveal_strlit("    --grow <TARGET> ");
    lemma_in_line(h3, l3, "    --grow <TARGET> "@, cli::help_body());
    reveal_strlit("    --state-dir <DIR>   State directory (default /var/lib/tinycloudinit)\n");
    reveal_strlit("    --state-dir <DIR> ");
    lemma_in_line(h4, l4, "    --state-dir <DIR> "@, cli::help_body());
    reveal_strlit("    --dry-run           Show what would be done without changing anything\n");
    reveal_strlit("    --dry-run ");
    lemma_in_line(h5, l5, "    --dry-run "@, cli::help_body());
    reveal_strlit("    --force             Run even if this instance-id was already initialized\n");
    reveal_strlit("    --force ");
    lemma_in_line(h6, l6, "    --force "@, cli::help_body());
    reveal_strlit("    -V, --version       Print version\n");
    reveal_strlit("    -V, --version ");
    lemma_in_line(h7, l7, "    -V, --version "@, cli::help_body());
    reveal_strlit("    -h, --help          Print this help");
    reveal_strlit("    -h, --help ");
    lemma_in_line(h8, l8, "    -h, --help "@, cli::help_body());
}

proof fn lemma_in_line(front: Seq<char>, line: Seq<char>, part: Seq<char>, whole: Seq<char>)
    requires
        part.len() <= line.len(),
        forall|i: int| 0 <= i < part.len() ==> part[i] == #[trigger] line[i],
        front.len() + line.len() <= whole.len(),
        forall|i: int| 0 <= i < line.len() ==> whole[front.len() + i] == #[trigger] line[i],
    ensures
        text::occurs(whole, part),
{
    let n = front.len() as int;
    assert forall|i: int| 0 <= i < part.len() implies whole.subrange(n, n + part.len())[i]
        == #[trigger] part[i] by {
        assert(part[i] == line[i]);
        assert(whole[n + i] == line[i]);
    }
    assert(whole.subrange(n, n + part.len()) =~= part);
    assert(text::occurs_at(whole, part, n));
}

// ---- runs ---------------------------------------------------------------

/// An instance is taken to be recorded exactly if the file that records it is
/// there and holds its id, whatever blanks are around it.
pub proof fn when_an_instance_is_recorded(
    a: Seq<char>,
    id: Seq<char>,
    b: Seq<char>,
    other: Seq<char>,
)
    requires
        forall|i: int| 0 <= i < a.len() ==> text::white_space(#[trigger] a[i]),
        forall|i: int| 0 <= i < b.len() ==> text::white_space(#[trigger] b[i]),
        id.len() > 0 ==> !text::white_space(id[0]) && !text::white_space(id.last()),
        other.len() > 0 ==> !text::white_space(other[0]) && !text::white_space(other.last()),
    ensures
        boot::is_recorded(Some(a + id + b), other) <==> other == id,
        !boot::is_recorded(None, id),
{
    reveal_strlit("\n");
    text_laws::trimming_leaves_the_middle(a, id, b);
    let none = Seq::<char>::empty();
    if a + id + b == boot::marker_content(other) {
        text_laws::trimming_leaves_the_middle(none, other, "\n"@);
        assert(none + other + "\n"@ =~= boot::marker_content(other));
    }
}

/// The id of an instance is that of its meta-data, and a fixed one without it.
pub proof fn what_an_instance_is_called(meta: MetaData)
    ensures
        meta.instance_id matches Some(id) ==> boot::id_of(meta) == id@,
        meta.instance_id is None ==> boot::id_of(meta) == "nocloud"@,
{
}

/// Recording an instance makes the state directory, writes the id on a line to a
/// file in it, and says so; a dry run only says so.
pub proof fn what_recording_an_instance_does(o: OptionsView, id: Seq<char>, version: Seq<char>)
    ensures
        ({
            let list = boot::record_effects(o, id, version);
            let said = EffectView::Say(
                "tinycloudinit "@ + version + ": instance '"@ + id + "' initialized"@,
            );
            &&& list.last() == said
            &&& o.dry_run ==> list.len() == 1
            &&& !o.dry_run ==> {
                &&& list.len() == 3
                &&& list[0] is MakeDir && list[0]->MakeDir_path == o.state_dir
                &&& list[1] == (EffectView::Write {
                    path: text::path_join(o.state_dir, "instance-id"@),
                    data: vstd::utf8::encode_utf8(id + "\n"@),
                })
            }
        }),
{
}

/// Whatever seed is found is applied as it is, unless its instance has been
/// recorded and neither force nor a dry run is asked for. Meta-data that is blank
/// or cannot be read counts as none. Nothing is applied without a seed.
pub proof fn what_a_run_applies(o: OptionsView, a: RunAnswers, version: Seq<char>, seed: Seed)
    ensures
        ({
            let s = boot::whole_run(o, a, version);
            let blank = text::trim(seed.meta_data@).len() == 0;
            let read = !blank && a.meta is Ok;
            let id = if read && a.meta->Ok_0.instance_id is Some {
                a.meta->Ok_0.instance_id->0@
            } else {
                "nocloud"@
            };
            &&& !(a.found matches Ok(Some(_))) ==> s.applies is None && s.after.len() == 0
            &&& a.found == Ok::<Option<Seed>, String>(Some(seed)) ==> {
                &&& s.before.len() > 0
                &&& s.before[0] == EffectView::Say("tinycloudinit: datasource: "@ + seed.source@)
                &&& s.applies is None <==> !o.force && !o.dry_run && (a.marker matches Some(m) && (
                text::trim(m) == id || m == id + "\n"@))
                &&& s.applies matches Some((used, meta)) ==> {
                    &&& used == seed
                    &&& read ==> meta == a.meta->Ok_0
                    &&& !read ==> meta.instance_id is None && meta.local_hostname is None
                    &&& a.applied is Ok ==> s.after == boot::record_effects(o, id, version)
                    &&& a.applied is Err ==> s.after.len() == 0
                }
                &&& s.applies is None ==> s.after.len() == 0 && s.outcome is Ok
            }
        }),
{
    reveal_with_fuel(boot::story, 3);
}

/// What a search for a seed leads to: an error ends the run, nothing found ends
/// it in success, and a seed is gone on with, its meta-data being read unless it
/// is blank.
pub proof fn what_follows_the_search(o: OptionsView, seed: Seed, e: String)
    ensures
        boot::after_search(o, Err(e)).next == RunningView::Over(Err(e@)),
        boot::after_search(o, Err(e)).effects.len() == 0,
        boot::after_search(o, Ok(None)).next == RunningView::Over(Ok(())),
        boot::after_search(o, Ok(None)).effects == seq![
            EffectView::Say("tinycloudinit: no datasource found; nothing to do"@),
        ],
        boot::after_search(o, Ok(Some(seed))).effects == seq![
            EffectView::Say("tinycloudinit: datasource: "@ + seed.source@),
        ],
        text::trim(seed.meta_data@).len() > 0 ==> boot::after_search(o, Ok(Some(seed))).next
            == RunningView::Meta(seed),
        text::trim(seed.meta_data@).len() == 0 ==> boot::after_search(o, Ok(Some(seed))).next
            == boot::with_meta(o, seed, MetaData { instance_id: None, local_hostname: None }),
{
}

/// Whether the instance has been recorded is looked up in the state directory,
/// unless force or a dry run is asked for; meta-data that cannot be read counts
/// as none, with a warning.
pub proof fn what_follows_the_meta_data(o: OptionsView, seed: Seed, meta: MetaData, e: String)
    ensures
        o.force || o.dry_run ==> boot::with_meta(o, seed, meta) == (RunningView::Apply {
            seed,
            meta,
        }),
        !o.force && !o.dry_run ==> boot::with_meta(o, seed, meta) == (RunningView::Marker {
            seed,
            meta,
            path: text::path_join(o.state_dir, "instance-id"@),
        }),
        boot::after_meta(o, seed, Ok(meta)).next == boot::with_meta(o, seed, meta),
        boot::after_meta(o, seed, Ok(meta)).effects.len() == 0,
        boot::after_meta(o, seed, Err(e)).next == boot::with_meta(
            o,
            seed,
            MetaData { instance_id: None, local_hostname: None },
        ),
        boot::after_meta(o, seed, Err(e)).effects == seq![
            EffectView::Warn(
                "tinycloudinit: warning: meta-data not parseable ("@ + e@ + "); ignoring"@,
            ),
        ],
{
}

/// An instance that has been recorded ends the run in success, and any other one
/// has its seed applied.
pub proof fn what_follows_the_record(seed: Seed, meta: MetaData, marker: Option<Seq<char>>)
    ensures
        ({
            let step = boot::after_marker(seed, meta, marker);
            let id = boot::id_of(meta);
            let recorded = marker matches Some(m) && (text::trim(m) == id || m == id + "\n"@);
            &&& recorded ==> step.next == RunningView::Over(Ok(()))
            &&& recorded ==> step.effects == seq![
                EffectView::Say(
                    "tinycloudinit: instance '"@ + id + "' already initialized; nothing to do"@,
                ),
            ]
            &&& !recorded ==> step.next == (RunningView::Apply { seed, meta })
            &&& !recorded ==> step.effects.len() == 0
        }),
{
}

/// A seed that could not be applied ends the run in that error and records
/// nothing; otherwise the instance is recorded and the run succeeds.
pub proof fn what_follows_applying(o: OptionsView, meta: MetaData, e: String, version: Seq<char>)
    ensures
        boot::after_apply(o, meta, Err(e), version).next == RunningView::Over(Err(e@)),
        boot::after_apply(o, meta, Err(e), version).effects.len() == 0,
        boot::after_apply(o, meta, Ok(()), version).next == RunningView::Over(Ok(())),
        boot::after_apply(o, meta, Ok(()), version).effects == boot::record_effects(
            o,
            boot::id_of(meta),
            version,
        ),
{
}

} // verus!

//! A run: once per instance, a seed is applied and the instance recorded.
use vstd::prelude::*;
use vstd::string::*;

use crate::cli::{Options, OptionsView};
use crate::config::MetaData;
use crate::datasource::Seed;
use crate::effect;
use crate::effect::{add_effect, no_effects, one_effect, Effect, EffectView};
use crate::text;
use crate::text::{joined_path, same, trimmed};
use crate::text_laws;

verus! {

/// What a run waits for.
#[derive(Debug)]
pub enum Running {
    /// The meta-data of the seed, read.
    Meta(Seed),
    /// The content of the file that records the instance.
    Marker { seed: Seed, meta: MetaData, path: String },
    /// The outcome of applying the seed.
    Apply { seed: Seed, meta: MetaData },
    /// Nothing: the run is over.
    Over(Result<(), String>),
}

/// Effects to perform, and what the run waits for then.
#[derive(Debug)]
pub struct RunStep {
    pub effects: Vec<Effect>,
    pub next: Running,
}

/// The contents of a [`Running`].
pub enum RunningView {
    Meta(Seed),
    Marker { seed: Seed, meta: MetaData, path: Seq<char> },
    Apply { seed: Seed, meta: MetaData },
    Over(Result<(), Seq<char>>),
}

/// The contents of a [`RunStep`].
pub struct RunStepView {
    pub effects: Seq<EffectView>,
    pub next: RunningView,
}

impl View for Running {
    type V = RunningView;

    open spec fn view(&self) -> RunningView {
        match *self {
            Running::Meta(seed) => RunningView::Meta(seed),
            Running::Marker { seed, meta, path } => RunningView::Marker { seed, meta, path: path@ },
            Running::Apply { seed, meta } => RunningView::Apply { seed, meta },
            Running::Over(Ok(())) => RunningView::Over(Ok(())),
            Running::Over(Err(e)) => RunningView::Over(Err(e@)),
        }
    }
}

impl View for RunStep {
    type V = RunStepView;

    open spec fn view(&self) -> RunStepView {
        RunStepView { effects: effect::effects(self.effects@), next: self.next@ }
    }
}

/// The meta-data of an instance about which nothing is known.
pub open spec fn no_meta_data() -> MetaData {
    MetaData { instance_id: None, local_hostname: None }
}

/// The id of an instance; without one in the meta-data it is `nocloud`.
pub open spec fn id_of(meta: MetaData) -> Seq<char> {
    match meta.instance_id {
        Some(id) => id@,
        None => "nocloud"@,
    }
}

/// The file that records the instance.
pub open spec fn marker_file(state_dir: Seq<char>) -> Seq<char> {
    text::path_join(state_dir, "instance-id"@)
}

/// The content of the file that records the instance.
pub open spec fn marker_content(id: Seq<char>) -> Seq<char> {
    id + "\n"@
}

/// Whether the file that records the instance records this one: white space
/// around what it holds is left aside, unless it belongs to the id.
pub open spec fn is_recorded(marker: Option<Seq<char>>, id: Seq<char>) -> bool {
    marker matches Some(prev) && (text::trim(prev) == id || prev == marker_content(id))
}

/// What a run waits for once the meta-data is known: force and a dry run do not
/// ask whether the instance has been recorded.
pub open spec fn with_meta(o: OptionsView, seed: Seed, meta: MetaData) -> RunningView {
    if o.force || o.dry_run {
        RunningView::Apply { seed, meta }
    } else {
        RunningView::Marker { seed, meta, path: marker_file(o.state_dir) }
    }
}

/// The step of a run that follows the search for a seed.
pub open spec fn after_search(o: OptionsView, found: Result<Option<Seed>, String>) -> RunStepView {
    match found {
        Err(e) => RunStepView {
            effects: Seq::<EffectView>::empty(),
            next: RunningView::Over(Err(e@)),
        },
        Ok(None) => RunStepView {
            effects: seq![EffectView::Say("tinycloudinit: no datasource found; nothing to do"@)],
            next: RunningView::Over(Ok(())),
        },
        Ok(Some(seed)) => RunStepView {
            effects: seq![EffectView::Say("tinycloudinit: datasource: "@ + seed.source@)],
            next: if text::trim(seed.meta_data@).len() == 0 {
                with_meta(o, seed, no_meta_data())
            } else {
                RunningView::Meta(seed)
            },
        },
    }
}

/// The step of a run that follows reading the meta-data: what cannot be read is
/// ignored.
pub open spec fn after_meta(
    o: OptionsView,
    seed: Seed,
    read: Result<MetaData, String>,
) -> RunStepView {
    match read {
        Ok(meta) => RunStepView {
            effects: Seq::<EffectView>::empty(),
            next: with_meta(o, seed, meta),
        },
        Err(e) => RunStepView {
            effects: seq![
                EffectView::Warn(
                    "tinycloudinit: warning: meta-data not parseable ("@ + e@ + "); ignoring"@,
                ),
            ],
            next: with_meta(o, seed, no_meta_data()),
        },
    }
}

/// The step of a run that follows reading the file that records the instance.
pub open spec fn after_marker(seed: Seed, meta: MetaData, marker: Option<Seq<char>>) -> RunStepView {
    if is_recorded(marker, id_of(meta)) {
        RunStepView {
            effects: seq![
                EffectView::Say(
                    "tinycloudinit: instance '"@ + id_of(meta)
                        + "' already initialized; nothing to do"@,
                ),
            ],
            next: RunningView::Over(Ok(())),
        }
    } else {
        RunStepView {
            effects: Seq::<EffectView>::empty(),
            next: RunningView::Apply { seed, meta },
        }
    }
}

/// The effects of recording an instance; a dry run records nothing.
pub open spec fn record_effects(o: OptionsView, id: Seq<char>, version: Seq<char>) -> Seq<
    EffectView,
> {
    (if o.dry_run {
        Seq::<EffectView>::empty()
    } else {
        seq![
            EffectView::MakeDir { path: o.state_dir, label: o.state_dir },
            EffectView::Write {
                path: marker_file(o.state_dir),
                data: effect::file_bytes(marker_content(id)),
            },
        ]
    }) + seq![
        EffectView::Say("tinycloudinit "@ + version + ": instance '"@ + id + "' initialized"@),
    ]
}

/// The last step of a run: an instance is recorded once its seed has been
/// applied, and not if that failed.
pub open spec fn after_apply(
    o: OptionsView,
    meta: MetaData,
    applied: Result<(), String>,
    version: Seq<char>,
) -> RunStepView {
    match applied {
        Err(e) => RunStepView {
            effects: Seq::<EffectView>::empty(),
            next: RunningView::Over(Err(e@)),
        },
        Ok(_) => RunStepView {
            effects: record_effects(o, id_of(meta), version),
            next: RunningView::Over(Ok(())),
        },
    }
}

fn instance_id(meta: &MetaData) -> (r: String)
    ensures
        r@ == id_of(*meta),
{
    match &meta.instance_id {
        Some(id) => id.as_str().to_owned(),
        None => "nocloud".to_owned(),
    }
}

fn go_on(options: &Options, seed: Seed, meta: MetaData) -> (r: Running)
    ensures
        r@ == with_meta(options@, seed, meta),
{
    if options.force || options.dry_run {
        Running::Apply { seed, meta }
    } else {
        let path = joined_path(options.state_dir.as_str(), "instance-id");
        Running::Marker { seed, meta, path }
    }
}

/// Begins a run, once a seed has been looked for.
pub fn run(options: &Options, found: Result<Option<Seed>, String>) -> (r: RunStep)
    ensures
        r@ == after_search(options@, found),
{
    match found {
        Err(e) => RunStep { effects: no_effects(), next: Running::Over(Err(e)) },
        Ok(None) => {
            let m = "tinycloudinit: no datasource found; nothing to do".to_owned();
            RunStep { effects: one_effect(Effect::Say(m)), next: Running::Over(Ok(())) }
        },
        Ok(Some(seed)) => {
            let mut m = "tinycloudinit: datasource: ".to_owned();
            m.append(seed.source.as_str());
            let effects = one_effect(Effect::Say(m));
            let next = if trimmed(seed.meta_data.as_str()).as_str().is_empty() {
                go_on(options, seed, MetaData { instance_id: None, local_hostname: None })
            } else {
                Running::Meta(seed)
            };
            RunStep { effects, next }
        },
    }
}

/// Goes on with a run, once the meta-data of its seed has been read.
pub fn meta_read(options: &Options, seed: Seed, read: Result<MetaData, String>) -> (r: RunStep)
    ensures
        r@ == after_meta(options@, seed, read),
{
    match read {
        Ok(meta) => RunStep { effects: no_effects(), next: go_on(options, seed, meta) },
        Err(e) => {
            let mut m = "tinycloudinit: warning: meta-data not parseable (".to_owned();
            m.append(e.as_str());
            m.append("); ignoring");
            let meta = MetaData { instance_id: None, local_hostname: None };
            RunStep { effects: one_effect(Effect::Warn(m)), next: go_on(options, seed, meta) }
        },
    }
}

/// Goes on with a run, once the file that records the instance has been read,
/// if it can be.
pub fn marker_read(seed: Seed, meta: MetaData, marker: Option<&str>) -> (r: RunStep)
    ensures
        r@ == after_marker(seed, meta, text::opt_str(marker)),
{
    let id = instance_id(&meta);
    let mut content = id.as_str().to_owned();
    content.append("\n");
    let recorded = match marker {
        Some(prev) => same(trimmed(prev).as_str(), id.as_str()) || same(prev, content.as_str()),
        None => false,
    };
    if recorded {
        let mut m = "tinycloudinit: instance '".to_owned();
        m.append(id.as_str());
        m.append("' already initialized; nothing to do");
        return RunStep { effects: one_effect(Effect::Say(m)), next: Running::Over(Ok(())) };
    }
    RunStep { effects: no_effects(), next: Running::Apply { seed, meta } }
}

/// Ends a run, once its seed has been applied or that has failed.
pub fn applied(
    options: &Options,
    meta: &MetaData,
    outcome: Result<(), String>,
    version: &str,
) -> (r: RunStep)
    ensures
        r@ == after_apply(options@, *meta, outcome, version@),
{
    if let Err(e) = outcome {
        return RunStep { effects: no_effects(), next: Running::Over(Err(e)) };
    }
    let id = instance_id(meta);
    let mut list = no_effects();
    if !options.dry_run {
        let dir = options.state_dir.as_str();
        let mut content = id.as_str().to_owned();
        content.append("\n");
        add_effect(&mut list, Effect::MakeDir { path: dir.to_owned(), label: dir.to_owned() });
        add_effect(
            &mut list,
            Effect::Write {
                path: joined_path(dir, "instance-id"),
                data: content.as_str().as_bytes_vec(),
            },
        );
    }
    let mut m = "tinycloudinit ".to_owned();
    m.append(version);
    m.append(": instance '");
    m.append(id.as_str());
    m.append("' initialized");
    add_effect(&mut list, Effect::Say(m));
    assert(effect::effects(list@) =~= record_effects(options@, id@, version@));
    RunStep { effects: list, next: Running::Over(Ok(())) }
}

// ---- laws ---------------------------------------------------------------

/// What the outside world answers to a run.
pub struct RunAnswers {
    pub found: Result<Option<Seed>, String>,
    pub meta: Result<MetaData, String>,
    pub marker: Option<Seq<char>>,
    pub applied: Result<(), String>,
}

/// What a run does before its seed is applied, whether it comes to that, and
/// what it does then.
pub struct RunStory {
    pub before: Seq<EffectView>,
    pub applies: Option<(Seed, MetaData)>,
    pub after: Seq<EffectView>,
    pub outcome: Result<(), Seq<char>>,
}

/// What comes before the rest of a run.
pub open spec fn preceded(effects: Seq<EffectView>, rest: RunStory) -> RunStory {
    RunStory {
        before: effects + rest.before,
        applies: rest.applies,
        after: rest.after,
        outcome: rest.outcome,
    }
}

/// How many answers a run can wait for before its seed is applied.
pub open spec fn answers_left(r: RunningView) -> nat {
    match r {
        RunningView::Meta(_) => 2,
        RunningView::Marker { .. } => 1,
        _ => 0,
    }
}

/// The story of a run from a step on: the steps that [`run`], [`meta_read`],
/// [`marker_read`] and [`applied`] take, given the answers.
pub open spec fn story(o: OptionsView, step: RunStepView, a: RunAnswers, version: Seq<char>) -> RunStory
    decreases answers_left(step.next),
{
    match step.next {
        RunningView::Over(outcome) => RunStory {
            before: step.effects,
            applies: None,
            after: Seq::<EffectView>::empty(),
            outcome,
        },
        RunningView::Apply { seed, meta } => {
            let end = after_apply(o, meta, a.applied, version);
            RunStory {
                before: step.effects,
                applies: Some((seed, meta)),
                after: end.effects,
                outcome: match a.applied {
                    Ok(_) => Ok(()),
                    Err(e) => Err(e@),
                },
            }
        },
        RunningView::Meta(seed) => preceded(
            step.effects,
            story(o, after_meta(o, seed, a.meta), a, version),
        ),
        RunningView::Marker { seed, meta, .. } => preceded(
            step.effects,
            story(o, after_marker(seed, meta, a.marker), a, version),
        ),
    }
}

/// The story of a whole run.
pub open spec fn whole_run(o: OptionsView, a: RunAnswers, version: Seq<char>) -> RunStory {
    story(o, after_search(o, a.found), a, version)
}

/// The meta-data that a run goes by.
pub open spec fn meta_used(seed: Seed, read: Result<MetaData, String>) -> MetaData {
    if text::trim(seed.meta_data@).len() == 0 {
        no_meta_data()
    } else {
        match read {
            Ok(m) => m,
            Err(_) => no_meta_data(),
        }
    }
}

/// Whether an effect prints a line.
pub open spec fn prints(e: EffectView) -> bool {
    e is Say || e is Warn
}

/// A run applies its seed exactly if it finds one and the instance has not been
/// recorded, or force or a dry run is asked for.
pub proof fn when_a_seed_is_applied(o: OptionsView, a: RunAnswers, version: Seq<char>)
    ensures
        whole_run(o, a, version).applies == match a.found {
            Ok(Some(seed)) => {
                let meta = meta_used(seed, a.meta);
                if o.force || o.dry_run || !is_recorded(a.marker, id_of(meta)) {
                    Some((seed, meta))
                } else {
                    None
                }
            },
            _ => None,
        },
{
    reveal_with_fuel(story, 3);
}

/// Before a seed has been applied a run only prints; afterwards it records the
/// instance, but only if applying succeeded.
pub proof fn recorded_only_once_applied(o: OptionsView, a: RunAnswers, version: Seq<char>)
    ensures
        ({
            let s = whole_run(o, a, version);
            &&& forall|i: int| 0 <= i < s.before.len() ==> prints(#[trigger] s.before[i])
            &&& s.after == match (s.applies, a.applied) {
                (Some((_, meta)), Ok(_)) => record_effects(o, id_of(meta), version),
                _ => Seq::<EffectView>::empty(),
            }
        }),
{
    reveal_with_fuel(story, 3);
}

/// A run fails exactly if the search fails or applying the seed fails.
pub proof fn when_a_run_fails(o: OptionsView, a: RunAnswers, version: Seq<char>)
    ensures
        whole_run(o, a, version).outcome == match a.found {
            Err(e) => Err::<(), Seq<char>>(e@),
            Ok(_) => match (whole_run(o, a, version).applies, a.applied) {
                (Some(_), Err(e)) => Err(e@),
                _ => Ok(()),
            },
        },
{
    reveal_with_fuel(story, 3);
}

/// The marker of an instance records that instance, whatever its id, and no
/// other one but that whose id is the same without the white space around it.
pub proof fn marker_names_its_instance(id: Seq<char>, other: Seq<char>)
    ensures
        is_recorded(Some(marker_content(id)), id),
        is_recorded(Some(marker_content(id)), other) <==> other == id || other == text::trim(id),
{
    reveal_strlit("\n");
    let content = marker_content(id);
    assert(content.last() == '\n');
    assert(content.drop_last() =~= id);
    text_laws::trailing_blank_is_trimmed(content);
    assert(marker_content(other).drop_last() =~= other);
}

/// A dry run never records an instance.
pub proof fn dry_run_records_nothing(o: OptionsView, id: Seq<char>, version: Seq<char>)
    requires
        o.dry_run,
    ensures
        effect::only_talk(record_effects(o, id, version)),
{
}

} // verus!

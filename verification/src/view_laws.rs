//! What the contents of every value are: all of it, and nothing else.
use vstd::prelude::*;

use crate::accounts;
use crate::accounts::{Account, AccountView};
use crate::cli::{Cli, CliView, Options, OptionsView};
use crate::config;
use crate::config::CloudConfig;
use crate::datasource;
use crate::datasource::{BlockEntry, Probe, ProbeView, Seed, SeedView};
use crate::ec2;
use crate::ec2::{Reply, ReplyView};
use crate::effect;
use crate::effect::{Command, CommandView, Effect, EffectView};
use crate::growpart;
use crate::growpart::{GrowReport, Growth, GrowthView, WriteView};
use crate::http;
use crate::steps;
use crate::target;
use crate::target::{
    GrowRequest, JobStep, Mount, MountView, RequestView, StepView, Target, TargetView,
};
use crate::text;

verus! {

/// A list of texts counts text by text, and an optional text as it is.
pub proof fn texts_count_one_by_one(list: Seq<String>, t: String, s: &str)
    ensures
        text::texts(list).len() == list.len(),
        forall|i: int| 0 <= i < list.len() ==> #[trigger] text::texts(list)[i] == list[i]@,
        text::opt_text(Some(t)) == Some(t@),
        text::opt_text(None) == None::<Seq<char>>,
        text::opt_str(Some(s)) == Some(s@),
        text::opt_str(None) == None::<Seq<char>>,
{
}

/// A list of effects counts effect by effect, an error by its words.
pub proof fn effects_count_one_by_one(list: Vec<Effect>, e: String)
    ensures
        effect::effects(list@).len() == list@.len(),
        forall|i: int| 0 <= i < list@.len() ==> #[trigger] effect::effects(list@)[i] == list@[i]@,
        effect::planned(Ok(list)) == Ok::<Seq<EffectView>, Seq<char>>(effect::effects(list@)),
        effect::planned(Err(e)) == Err::<Seq<EffectView>, Seq<char>>(e@),
{
}

/// An effect is what it says it is, with all that belongs to it.
pub proof fn an_effect_is_what_it_says(
    path: String,
    other: String,
    third: String,
    data: Vec<u8>,
    list: Vec<String>,
    n: u32,
    m: u32,
)
    ensures
        Effect::Say(path)@ == EffectView::Say(path@),
        Effect::Warn(path)@ == EffectView::Warn(path@),
        (Effect::SetPassword { input: path, exit_name: other, success: third })@ == (
        EffectView::SetPassword { input: path@, exit_name: other@, success: third@ }),
        Effect::SetHostname(path)@ == EffectView::SetHostname(path@),
        (Effect::MakeDir { path, label: other })@ == (EffectView::MakeDir {
            path: path@,
            label: other@,
        }),
        Effect::MakeParent(path)@ == EffectView::MakeParent(path@),
        (Effect::Write { path, data })@ == (EffectView::Write { path: path@, data: data@ }),
        (Effect::Append { path, data })@ == (EffectView::Append { path: path@, data: data@ }),
        (Effect::Chmod { path, mode: n })@ == (EffectView::Chmod { path: path@, mode: n }),
        (Effect::Chown { path, uid: n, gid: m })@ == (EffectView::Chown {
            path: path@,
            uid: n,
            gid: m,
        }),
        (Effect::Own { path, owner: other })@ == (EffectView::Own { path: path@, owner: other@ }),
        (Effect::InstallKeys { user: path, keys: list })@ == (EffectView::InstallKeys {
            user: path@,
            keys: text::texts(list@),
        }),
{
}

/// A command is its program with its arguments, and what is said of it.
pub proof fn a_command_is_what_it_says(c: Command)
    ensures
        Effect::Run(c)@ == EffectView::Run(
            CommandView {
                program: c.program@,
                args: text::texts(c.args@),
                start_context: c.start_context@,
                exit_name: c.exit_name@,
                success: text::opt_text(c.success),
                fatal: c.fatal,
            },
        ),
{
}

/// What growing came to counts with its report and with every write, each with
/// its place and all its bytes.
pub proof fn a_growth_counts_with_its_writes(g: Growth, e: String)
    ensures
        growpart::outcome(Ok(Some(g))) matches Ok(Some(v)) && {
            &&& v.report == g.report
            &&& v.writes.len() == g.writes@.len()
            &&& forall|i: int|
                0 <= i < g.writes@.len() ==> #[trigger] v.writes[i] == (WriteView {
                    lba: g.writes@[i].lba as int,
                    data: g.writes@[i].data@,
                    label: g.writes@[i].label@,
                })
        },
        growpart::outcome(Ok(None)) == Ok::<Option<GrowthView>, Seq<char>>(None),
        growpart::outcome(Err(e)) == Err::<Option<GrowthView>, Seq<char>>(e@),
{
}

/// Content counts byte by byte.
pub proof fn content_counts_byte_by_byte(b: Vec<u8>, e: String, code: u16, chunked: bool)
    ensures
        config::content_view(Ok(b)) == Ok::<Seq<u8>, Seq<char>>(b@),
        config::content_view(Err(e)) == Err::<Seq<u8>, Seq<char>>(e@),
        http::body_view(Ok(b)) == Ok::<Seq<u8>, Seq<char>>(b@),
        http::body_view(Err(e)) == Err::<Seq<u8>, Seq<char>>(e@),
        http::reply_view(Ok((code, b))) == Ok::<(u16, Seq<u8>), Seq<char>>((code, b@)),
        http::reply_view(Err(e)) == Err::<(u16, Seq<u8>), Seq<char>>(e@),
        http::head_view(Ok((code, chunked))) == Ok::<(u16, bool), Seq<char>>((code, chunked)),
        http::head_view(Err(e)) == Err::<(u16, bool), Seq<char>>(e@),
        ec2::opt_bytes(Some(b)) == Some(b@),
        ec2::opt_bytes(None) == None::<Seq<u8>>,
{
}

/// A seed is its source, its meta-data and its user-data, and a reply its text.
pub proof fn a_seed_is_what_it_says(s: Seed, e: String)
    ensures
        s@ == (SeedView {
            source: s.source@,
            meta_data: s.meta_data@,
            user_data: text::opt_text(s.user_data),
        }),
        datasource::opt_seed(Some(s)) == Some(s@),
        datasource::opt_seed(None) == None::<SeedView>,
        datasource::answer_view(Ok(Some(s))) == Ok::<Option<SeedView>, Seq<char>>(Some(s@)),
        datasource::answer_view(Ok(None)) == Ok::<Option<SeedView>, Seq<char>>(None),
        datasource::answer_view(Err(e)) == Err::<Option<SeedView>, Seq<char>>(e@),
        datasource::seed_result(Ok(s)) == Ok::<SeedView, Seq<char>>(s@),
        datasource::seed_result(Err(e)) == Err::<SeedView, Seq<char>>(e@),
        Reply::Unreachable@ == ReplyView::Unreachable,
        Reply::Refused@ == ReplyView::Refused,
        Reply::Body(e)@ == ReplyView::Body(e@),
{
}

/// An account is its ids and its home, a mount its device, place and filesystem,
/// and what is found of a target counts as it is.
pub proof fn targets_and_accounts_are_what_they_say(
    a: Account,
    m: Mount,
    t: Target,
    step: JobStep,
    report: Option<GrowReport>,
    e: String,
    s: String,
    eff: Effect,
    cfg: &CloudConfig,
)
    ensures
        accounts::opt_account(Some(a)) == Some(
            AccountView { uid: a.uid, gid: a.gid, home: a.home@ },
        ),
        accounts::opt_account(None) == None::<AccountView>,
        accounts::effect_result(Ok(eff)) == Ok::<EffectView, Seq<char>>(eff@),
        accounts::effect_result(Err(e)) == Err::<EffectView, Seq<char>>(e@),
        target::opt_mount(Some(m)) == Some(
            MountView { majmin: m.majmin@, mountpoint: m.mountpoint@, fstype: m.fstype@ },
        ),
        target::opt_mount(None) == None::<MountView>,
        target::target_result(Ok(t)) == Ok::<TargetView, Seq<char>>(
            TargetView {
                disk: t.disk@,
                partnum: t.partnum,
                partdev: t.partdev@,
                mount: target::opt_mount(t.mount),
            },
        ),
        target::target_result(Err(e)) == Err::<TargetView, Seq<char>>(e@),
        target::text_result(Ok(s)) == Ok::<Seq<char>, Seq<char>>(s@),
        target::text_result(Err(e)) == Err::<Seq<char>, Seq<char>>(e@),
        target::job_result(Ok(step)) == Ok::<StepView, Seq<char>>(
            StepView { effects: effect::effects(step.effects@), next: step.next },
        ),
        target::job_result(Err(e)) == Err::<StepView, Seq<char>>(e@),
        target::report_result(Ok(report)) == Ok::<Option<GrowReport>, Seq<char>>(report),
        target::report_result(Err(e)) == Err::<Option<GrowReport>, Seq<char>>(e@),
        steps::config_value(Some(cfg)) == Some(*cfg),
        steps::config_value(None) == None::<CloudConfig>,
{
}

/// The options of a command line count one by one.
pub proof fn options_count_one_by_one(o: Options, g: GrowRequest, m: String)
    ensures
        Cli::Run(o)@ == CliView::Run(
            OptionsView {
                seed_dir: text::opt_text(o.seed_dir),
                state_dir: o.state_dir@,
                mode: o.mode,
                dry_run: o.dry_run,
                force: o.force,
            },
        ),
        Cli::Grow(g)@ == CliView::Grow(
            RequestView { target: g.target@, resize_fs: g.resize_fs, dry_run: g.dry_run },
        ),
        Cli::Version@ == CliView::Version,
        Cli::Help@ == CliView::Help,
        Cli::Usage(m)@ == CliView::Usage(m@),
{
}

/// A probe is its place and how long it waits; lists of probes, of devices, of
/// headers and of requests count one by one.
pub proof fn lists_count_one_by_one(
    list: Seq<Probe>,
    dir: String,
    wait: u64,
    devices: Seq<BlockEntry>,
    headers: Seq<(String, String)>,
    wanted: Seq<GrowRequest>,
)
    ensures
        Probe::SeedDir(dir)@ == ProbeView::SeedDir(dir@),
        Probe::LocalDir(dir)@ == ProbeView::LocalDir(dir@),
        Probe::Devices(wait)@ == ProbeView::Devices(wait),
        Probe::Imds(wait)@ == ProbeView::Imds(wait),
        Probe::Race(wait)@ == ProbeView::Race(wait),
        datasource::probes(list).len() == list.len(),
        forall|i: int| 0 <= i < list.len() ==> #[trigger] datasource::probes(list)[i] == list[i]@,
        datasource::block_entries(devices).len() == devices.len(),
        forall|i: int|
            0 <= i < devices.len() ==> #[trigger] datasource::block_entries(devices)[i] == (
                devices[i].name@,
                devices[i].size@,
            ),
        http::header_views(headers).len() == headers.len(),
        forall|i: int|
            0 <= i < headers.len() ==> #[trigger] http::header_views(headers)[i] == (
                headers[i].0@,
                headers[i].1@,
            ),
        target::requests(wanted).len() == wanted.len(),
        forall|i: int|
            0 <= i < wanted.len() ==> #[trigger] target::requests(wanted)[i] == (RequestView {
                target: wanted[i].target@,
                resize_fs: wanted[i].resize_fs,
                dry_run: wanted[i].dry_run,
            }),
{
}

} // verus!

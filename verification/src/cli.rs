//! The command line.
use vstd::prelude::*;
use vstd::string::*;

use crate::datasource::DsMode;
use crate::effect::{Effect, EffectView};
use crate::target::{standalone, GrowRequest, RequestView};
use crate::text;
use crate::text::same;

verus! {

/// The options of a run.
#[derive(Debug)]
pub struct Options {
    pub seed_dir: Option<String>,
    pub state_dir: String,
    pub mode: DsMode,
    pub dry_run: bool,
    pub force: bool,
}

/// The contents of [`Options`].
pub struct OptionsView {
    pub seed_dir: Option<Seq<char>>,
    pub state_dir: Seq<char>,
    pub mode: DsMode,
    pub dry_run: bool,
    pub force: bool,
}

impl View for Options {
    type V = OptionsView;

    open spec fn view(&self) -> OptionsView {
        OptionsView {
            seed_dir: text::opt_text(self.seed_dir),
            state_dir: self.state_dir@,
            mode: self.mode,
            dry_run: self.dry_run,
            force: self.force,
        }
    }
}

/// What a command line asks for.
#[derive(Debug)]
pub enum Cli {
    /// Find a seed and apply it.
    Run(Options),
    /// Just grow a target.
    Grow(GrowRequest),
    /// Print the version.
    Version,
    /// Print the help.
    Help,
    /// Complain about the arguments.
    Usage(String),
}

/// The contents of a [`Cli`].
pub enum CliView {
    Run(OptionsView),
    Grow(RequestView),
    Version,
    Help,
    Usage(Seq<char>),
}

impl View for Cli {
    type V = CliView;

    open spec fn view(&self) -> CliView {
        match *self {
            Cli::Run(o) => CliView::Run(o@),
            Cli::Grow(g) => CliView::Grow(g@),
            Cli::Version => CliView::Version,
            Cli::Help => CliView::Help,
            Cli::Usage(m) => CliView::Usage(m@),
        }
    }
}

/// The options without any argument.
pub open spec fn default_options() -> OptionsView {
    OptionsView {
        seed_dir: None,
        state_dir: "/var/lib/tinycloudinit"@,
        mode: DsMode::Auto,
        dry_run: false,
        force: false,
    }
}

/// The mode that a word names.
pub open spec fn mode_named(word: Seq<char>) -> Option<DsMode> {
    if word == "auto"@ {
        Some(DsMode::Auto)
    } else if word == "nocloud"@ {
        Some(DsMode::NoCloud)
    } else if word == "ec2"@ {
        Some(DsMode::Ec2)
    } else {
        None
    }
}

/// What the rest of a command line asks for, given the options and the target
/// to grow that have been seen so far. The first argument that ends it or that
/// is wrong decides.
pub open spec fn parsed(args: Seq<Seq<char>>, o: OptionsView, grow: Option<Seq<char>>) -> CliView
    decreases args.len(),
{
    if args.len() == 0 {
        match grow {
            Some(target) => CliView::Grow(
                RequestView { target, resize_fs: true, dry_run: o.dry_run },
            ),
            None => CliView::Run(o),
        }
    } else if args[0] == "--seed"@ {
        if args.len() < 2 {
            CliView::Usage("--seed requires a directory"@)
        } else {
            parsed(args.skip(2), OptionsView { seed_dir: Some(args[1]), ..o }, grow)
        }
    } else if args[0] == "--datasource"@ {
        if args.len() < 2 {
            CliView::Usage("--datasource requires a value"@)
        } else {
            match mode_named(args[1]) {
                Some(mode) => parsed(args.skip(2), OptionsView { mode, ..o }, grow),
                None => CliView::Usage(
                    "--datasource must be auto, nocloud or ec2 (got '"@ + args[1] + "')"@,
                ),
            }
        }
    } else if args[0] == "--state-dir"@ {
        if args.len() < 2 {
            CliView::Usage("--state-dir requires a directory"@)
        } else {
            parsed(args.skip(2), OptionsView { state_dir: args[1], ..o }, grow)
        }
    } else if args[0] == "--grow"@ {
        if args.len() < 2 {
            CliView::Usage("--grow requires a mountpoint or partition device"@)
        } else {
            parsed(args.skip(2), o, Some(args[1]))
        }
    } else if args[0] == "--dry-run"@ {
        parsed(args.skip(1), OptionsView { dry_run: true, ..o }, grow)
    } else if args[0] == "--force"@ {
        parsed(args.skip(1), OptionsView { force: true, ..o }, grow)
    } else if args[0] == "--version"@ || args[0] == "-V"@ {
        CliView::Version
    } else if args[0] == "--help"@ || args[0] == "-h"@ {
        CliView::Help
    } else {
        CliView::Usage("unknown argument: "@ + args[0])
    }
}

fn parse_mode_name(word: &str) -> (r: Option<DsMode>)
    ensures
        r == mode_named(word@),
{
    if same(word, "auto") {
        Some(DsMode::Auto)
    } else if same(word, "nocloud") {
        Some(DsMode::NoCloud)
    } else if same(word, "ec2") {
        Some(DsMode::Ec2)
    } else {
        None
    }
}

/// Reads a command line, without the name of the program.
#[verifier::rlimit(30)]
pub fn parse_args(args: &Vec<String>) -> (r: Cli)
    ensures
        r@ == parsed(text::texts(args@), default_options(), None),
{
    let n: usize = args.len();
    let ghost all = text::texts(args@);
    let mut seed_dir: Option<String> = None;
    let mut state_dir = "/var/lib/tinycloudinit".to_owned();
    let mut mode = DsMode::Auto;
    let mut dry_run = false;
    let mut force = false;
    let mut grow: Option<String> = None;
    let mut i: usize = 0;
    assert(all.skip(0) =~= all);
    while i < n
        invariant
            n == args@.len(),
            all == text::texts(args@),
            0 <= i <= n,
            parsed(all, default_options(), None) == parsed(
                all.skip(i as int),
                OptionsView {
                    seed_dir: text::opt_text(seed_dir),
                    state_dir: state_dir@,
                    mode,
                    dry_run,
                    force,
                },
                text::opt_text(grow),
            ),
        decreases n - i,
    {
        let a = args[i].as_str();
        let ghost rest = all.skip(i as int);
        assert(rest[0] == a@);
        assert(rest.skip(1) =~= all.skip(i + 1));
        let takes_value = same(a, "--seed") || same(a, "--datasource") || same(a, "--state-dir")
            || same(a, "--grow");
        if takes_value {
            if n - i < 2 {
                let m = if same(a, "--seed") {
                    "--seed requires a directory"
                } else if same(a, "--datasource") {
                    "--datasource requires a value"
                } else if same(a, "--state-dir") {
                    "--state-dir requires a directory"
                } else {
                    "--grow requires a mountpoint or partition device"
                };
                return Cli::Usage(m.to_owned());
            }
            let v = args[i + 1].as_str();
            assert(rest[1] == v@);
            assert(rest.skip(2) =~= all.skip(i + 2));
            if same(a, "--seed") {
                seed_dir = Some(v.to_owned());
            } else if same(a, "--datasource") {
                match parse_mode_name(v) {
                    Some(m) => {
                        mode = m;
                    },
                    None => {
                        let mut m = "--datasource must be auto, nocloud or ec2 (got '".to_owned();
                        m.append(v);
                        m.append("')");
                        return Cli::Usage(m);
                    },
                }
            } else if same(a, "--state-dir") {
                state_dir = v.to_owned();
            } else {
                grow = Some(v.to_owned());
            }
            i = i + 2;
        } else {
            if same(a, "--dry-run") {
                dry_run = true;
            } else if same(a, "--force") {
                force = true;
            } else if same(a, "--version") || same(a, "-V") {
                return Cli::Version;
            } else if same(a, "--help") || same(a, "-h") {
                return Cli::Help;
            } else {
                let mut m = "unknown argument: ".to_owned();
                m.append(a);
                return Cli::Usage(m);
            }
            i = i + 1;
        }
    }
    assert(all.skip(n as int) =~= Seq::<Seq<char>>::empty());
    match grow {
        Some(target) => Cli::Grow(standalone(target.as_str(), dry_run)),
        None => Cli::Run(Options { seed_dir, state_dir, mode, dry_run, force }),
    }
}

/// A complaint about the arguments.
pub fn usage_error(msg: &str) -> (r: Effect)
    ensures
        r@ == EffectView::Warn("tinycloudinit: "@ + msg@),
{
    let mut m = "tinycloudinit: ".to_owned();
    m.append(msg);
    Effect::Warn(m)
}

/// What is printed for the version.
pub fn version_line(version: &str) -> (r: Effect)
    ensures
        r@ == EffectView::Say("tinycloudinit "@ + version@),
{
    let mut m = "tinycloudinit ".to_owned();
    m.append(version);
    Effect::Say(m)
}

/// The help behind the name and the version.
pub open spec fn help_body() -> Seq<char> {
    " — tiny cloud-init (NoCloud) for small images\n\n"@
        + "USAGE:\n"@
        + "    tinycloudinit [OPTIONS]\n\n"@
        + "OPTIONS:\n"@
        + "    --seed <DIR>        Use DIR as the seed (must contain meta-data/user-data)\n"@
        + "    --datasource <DS>   auto (default), nocloud, or ec2\n"@
        + "    --grow <TARGET>     Just grow the partition backing TARGET (a mountpoint\n"@
        + "                        like / or a partition device) and resize its\n"@
        + "                        filesystem, then exit\n"@
        + "    --state-dir <DIR>   State directory (default /var/lib/tinycloudinit)\n"@
        + "    --dry-run           Show what would be done without changing anything\n"@
        + "    --force             Run even if this instance-id was already initialized\n"@
        + "    -V, --version       Print version\n"@
        + "    -h, --help          Print this help"@
}

/// What is printed for help.
pub fn help_text(version: &str) -> (r: Effect)
    ensures
        r@ == EffectView::Say("tinycloudinit "@ + version@ + help_body()),
{
    let mut m = "tinycloudinit ".to_owned();
    m.append(version);
    let ghost front = m@;
    m.append(" — tiny cloud-init (NoCloud) for small images\n\n");
    m.append("USAGE:\n");
    m.append("    tinycloudinit [OPTIONS]\n\n");
    m.append("OPTIONS:\n");
    m.append("    --seed <DIR>        Use DIR as the seed (must contain meta-data/user-data)\n");
    m.append("    --datasource <DS>   auto (default), nocloud, or ec2\n");
    m.append("    --grow <TARGET>     Just grow the partition backing TARGET (a mountpoint\n");
    m.append("                        like / or a partition device) and resize its\n");
    m.append("                        filesystem, then exit\n");
    m.append("    --state-dir <DIR>   State directory (default /var/lib/tinycloudinit)\n");
    m.append("    --dry-run           Show what would be done without changing anything\n");
    m.append("    --force             Run even if this instance-id was already initialized\n");
    m.append("    -V, --version       Print version\n");
    m.append("    -h, --help          Print this help");
    assert(m@ =~= front + help_body());
    Effect::Say(m)
}

/// A failure of the whole run.
pub fn failure_line(error: &str) -> (r: Effect)
    ensures
        r@ == EffectView::Warn("tinycloudinit: error: "@ + error@),
{
    let mut m = "tinycloudinit: error: ".to_owned();
    m.append(error);
    Effect::Warn(m)
}

/// Arguments are read in turn: what follows arguments that ask for a run is read
/// with the options that they set.
pub proof fn arguments_are_read_in_turn(
    first: Seq<Seq<char>>,
    more: Seq<Seq<char>>,
    o: OptionsView,
    set: OptionsView,
)
    requires
        parsed(first, o, None) == CliView::Run(set),
    ensures
        parsed(first + more, o, None) == parsed(more, set, None),
    decreases first.len(),
{
    let whole = first + more;
    if first.len() == 0 {
        assert(whole =~= more);
    } else {
        assert(whole[0] == first[0]);
        assert(whole.skip(1) =~= first.skip(1) + more);
        if first.len() >= 2 {
            assert(whole[1] == first[1]);
            assert(whole.skip(2) =~= first.skip(2) + more);
        }
        let a = first[0];
        if a == "--seed"@ {
            arguments_are_read_in_turn(
                first.skip(2),
                more,
                OptionsView { seed_dir: Some(first[1]), ..o },
                set,
            );
        } else if a == "--datasource"@ {
            arguments_are_read_in_turn(
                first.skip(2),
                more,
                OptionsView { mode: mode_named(first[1])->0, ..o },
                set,
            );
        } else if a == "--state-dir"@ {
            arguments_are_read_in_turn(
                first.skip(2),
                more,
                OptionsView { state_dir: first[1], ..o },
                set,
            );
        } else if a == "--grow"@ {
            lemma_grow_stays(first.skip(2), o, first[1]);
        } else if a == "--dry-run"@ {
            arguments_are_read_in_turn(
                first.skip(1),
                more,
                OptionsView { dry_run: true, ..o },
                set,
            );
        } else if a == "--force"@ {
            arguments_are_read_in_turn(
                first.skip(1),
                more,
                OptionsView { force: true, ..o },
                set,
            );
        }
    }
}

/// Once a target to grow has been given, no run is asked for any more.
proof fn lemma_grow_stays(args: Seq<Seq<char>>, o: OptionsView, target: Seq<char>)
    ensures
        !(parsed(args, o, Some(target)) is Run),
    decreases args.len(),
{
    if args.len() > 0 {
        let a = args[0];
        if a == "--seed"@ {
            if args.len() >= 2 {
                lemma_grow_stays(
                    args.skip(2),
                    OptionsView { seed_dir: Some(args[1]), ..o },
                    target,
                );
            }
        } else if a == "--datasource"@ {
            if args.len() >= 2 && mode_named(args[1]) is Some {
                lemma_grow_stays(
                    args.skip(2),
                    OptionsView { mode: mode_named(args[1])->0, ..o },
                    target,
                );
            }
        } else if a == "--state-dir"@ {
            if args.len() >= 2 {
                lemma_grow_stays(args.skip(2), OptionsView { state_dir: args[1], ..o }, target);
            }
        } else if a == "--grow"@ {
            if args.len() >= 2 {
                lemma_grow_stays(args.skip(2), o, args[1]);
            }
        } else if a == "--dry-run"@ {
            lemma_grow_stays(args.skip(1), OptionsView { dry_run: true, ..o }, target);
        } else if a == "--force"@ {
            lemma_grow_stays(args.skip(1), OptionsView { force: true, ..o }, target);
        }
    }
}

} // verus!

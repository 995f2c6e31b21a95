//! What holds of applying any configuration.
use vstd::prelude::*;

use crate::apply;
use crate::apply::Step;
use crate::config::{CloudConfig, Cmd, MetaData, WriteFile};
use crate::effect;
use crate::effect::EffectView;
use crate::ssh_keys;
use crate::steps;
use crate::Ctx;

verus! {

/// A dry run changes nothing: whatever the step, all that it does is print.
pub proof fn dry_run_only_prints(
    step: Step,
    cfg: Option<CloudConfig>,
    user_data: Seq<char>,
    meta: MetaData,
    ctx: Ctx,
    passwd: Option<Seq<char>>,
)
    requires
        ctx.dry_run,
        step.fitting(cfg),
    ensures
        steps::step_plan(step, cfg, user_data, meta, ctx, passwd) matches Ok(list)
            ==> effect::only_talk(list),
{
}

/// A dry run only prints what it would do about keys, too.
pub proof fn dry_run_of_keys_only_prints(
    user: Seq<char>,
    keys: Seq<Seq<char>>,
    passwd: Option<Seq<char>>,
    content: Seq<char>,
)
    ensures
        ssh_keys::keys_plan(user, keys, true, passwd, content) matches Ok(list)
            && effect::only_talk(list),
{
}

/// A dry run fails on a file exactly where writing it would be refused, and
/// with the same words.
pub proof fn dry_run_refuses_the_same_files(f: WriteFile)
    ensures
        match (apply::file_plan(f, true), apply::file_plan(f, false)) {
            (Err(a), Err(b)) => a == b,
            (Ok(_), Ok(_)) => true,
            _ => false,
        },
{
}

/// Every step of a configuration is one that it has something for.
pub proof fn config_steps_fit(cfg: CloudConfig, i: int)
    requires
        0 <= i < apply::config_steps(cfg).len(),
        cfg.users@.len() <= usize::MAX,
        cfg.write_files@.len() <= usize::MAX,
        cfg.runcmd@.len() <= usize::MAX,
    ensures
        apply::config_steps(cfg)[i] == Step::Grow || apply::config_steps(cfg)[i].fitting(Some(cfg)),
{
}

/// Every step of user-data that is no configuration can be taken without one.
pub proof fn user_data_steps_fit(user_data: Seq<char>, i: int)
    requires
        0 <= i < apply::user_data_steps(user_data).len(),
    ensures
        apply::user_data_steps(user_data) == seq![Step::CloudConfig]
            || apply::user_data_steps(user_data)[i] == Step::Grow
            || apply::user_data_steps(user_data)[i].fitting(None),
{
}

/// Whatever the user-data, partitions are grown before anything else is
/// changed: growing is the first step but for a notice.
pub proof fn growing_comes_first(user_data: Seq<char>, cfg: CloudConfig)
    ensures
        apply::config_steps(cfg)[0] == Step::Grow,
        ({
            let s = apply::user_data_steps(user_data);
            s == seq![Step::CloudConfig] || s[0] == Step::Grow || (s[0] == Step::Unrecognized
                && s[1] == Step::Grow)
        }),
{
}

/// A user is set up before the files are written, and the files are written
/// before the commands run, so that a file can belong to a new user and a
/// command can use a new file.
pub proof fn users_files_commands_in_order(cfg: CloudConfig, i: int, j: int)
    requires
        0 <= i < apply::config_steps(cfg).len(),
        0 <= j < apply::config_steps(cfg).len(),
    ensures
        ({
            let a = apply::config_steps(cfg)[i];
            let b = apply::config_steps(cfg)[j];
            &&& a is User && b is File ==> i < j
            &&& a is File && b is Command ==> i < j
            &&& a is User && b is Command ==> i < j
        }),
{
}

/// A command of the list that fails ends nothing: it is only a warning.
pub proof fn failing_commands_are_not_fatal(i: int, c: Cmd, dry_run: bool, k: int)
    requires
        0 <= k < apply::command_effects(i, c, dry_run).len(),
    ensures
        apply::command_effects(i, c, dry_run)[k] matches EffectView::Run(run) ==> !run.fatal,
{
}

proof fn lemma_filter_keeps(s: Seq<char>, i: int)
    requires
        0 <= i < s.filter(|c: char| apply::plain(c)).len(),
    ensures
        apply::plain(s.filter(|c: char| apply::plain(c))[i]),
    decreases s.len(),
{
    reveal(Seq::filter);
    let keep = |c: char| apply::plain(c);
    if s.len() > 0 {
        let head = s.drop_last();
        if i < head.filter(keep).len() {
            lemma_filter_keeps(head, i);
        }
    }
}

/// The sudoers file of a user lies directly in the directory for such files,
/// and has neither a dot nor a slash in its own name, whatever the user is
/// called.
pub proof fn sudoers_file_stays_put(name: Seq<char>, i: int)
    requires
        "/etc/sudoers.d/90-tinycloudinit-"@.len() <= i < apply::sudoers_path(name).len(),
    ensures
        "/etc/sudoers.d/90-tinycloudinit-"@.is_prefix_of(apply::sudoers_path(name)),
        apply::plain(apply::sudoers_path(name)[i]),
        apply::sudoers_path(name)[i] != '/',
        apply::sudoers_path(name)[i] != '.',
{
    let front = "/etc/sudoers.d/90-tinycloudinit-"@;
    lemma_filter_keeps(name, i - front.len());
    assert(apply::sudoers_path(name).take(front.len() as int) =~= front);
}

} // verus!

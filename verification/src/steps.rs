//! The effects of each step of applying user-data.
use vstd::prelude::*;
use vstd::string::*;

use crate::apply;
use crate::apply::{
    apply_hostname, apply_user, request_keys, run_cmd, run_user_script, write_etc_hosts,
    write_file, Step,
};
use crate::config::{CloudConfig, MetaData};
use crate::effect;
use crate::effect::{one_effect, Effect, EffectView};
use crate::text;
use crate::text::borrowed;
use crate::Ctx;

verus! {

impl Step {
    /// Whether a step has effects that follow from the configuration alone,
    /// and the configuration has what it speaks of. Growing partitions and
    /// reading a configuration are done otherwise.
    pub open spec fn fitting(self, cfg: Option<CloudConfig>) -> bool {
        match (self, cfg) {
            (Step::CloudConfig, _) => false,
            (Step::Grow, _) => false,
            (Step::Unrecognized, _) => true,
            (Step::Hostname, _) => true,
            (Step::Script, _) => true,
            (_, None) => false,
            (Step::Hosts, Some(_)) => true,
            (Step::RootKeys, Some(_)) => true,
            (Step::User(i), Some(c)) => i < c.users@.len(),
            (Step::File(i), Some(c)) => i < c.write_files@.len(),
            (Step::Command(i), Some(c)) => i < c.runcmd@.len(),
            (Step::FinalMessage, Some(c)) => c.final_message is Some,
        }
    }

    /// Whether [`step_effects`] can be asked for the effects of a step.
    pub fn fits(&self, cfg: Option<&CloudConfig>) -> (r: bool)
        ensures
            r == self.fitting(config_value(cfg)),
    {
        match (self, cfg) {
            (Step::CloudConfig, _) => false,
            (Step::Grow, _) => false,
            (Step::Unrecognized, _) => true,
            (Step::Hostname, _) => true,
            (Step::Script, _) => true,
            (_, None) => false,
            (Step::Hosts, Some(_)) => true,
            (Step::RootKeys, Some(_)) => true,
            (Step::User(i), Some(c)) => *i < c.users.len(),
            (Step::File(i), Some(c)) => *i < c.write_files.len(),
            (Step::Command(i), Some(c)) => *i < c.runcmd.len(),
            (Step::FinalMessage, Some(c)) => c.final_message.is_some(),
        }
    }
}

/// The configuration behind a reference.
pub open spec fn config_value(cfg: Option<&CloudConfig>) -> Option<CloudConfig> {
    match cfg {
        Some(c) => Some(*c),
        None => None,
    }
}

/// What a step comes to.
pub open spec fn step_plan(
    step: Step,
    cfg: Option<CloudConfig>,
    user_data: Seq<char>,
    meta: MetaData,
    ctx: Ctx,
    passwd: Option<Seq<char>>,
) -> Result<Seq<EffectView>, Seq<char>>
    recommends
        step.fitting(cfg),
{
    match (step, cfg) {
        (Step::Unrecognized, _) => Ok(
            seq![EffectView::Say("tinycloudinit: unrecognized user-data format; ignoring"@)],
        ),
        (Step::Hostname, Some(c)) => Ok(
            apply::hostname_effects(
                apply::short_name(
                    text::opt_text(c.hostname),
                    text::opt_text(c.fqdn),
                    text::opt_text(meta.local_hostname),
                ),
                ctx.dry_run,
            ),
        ),
        (Step::Hostname, None) => Ok(
            apply::hostname_effects(text::opt_text(meta.local_hostname), ctx.dry_run),
        ),
        (Step::Script, _) => Ok(
            apply::script_effects(user_data, ctx.state_dir@, ctx.dry_run),
        ),
        (Step::Hosts, Some(c)) => Ok(seq![apply::hosts_effect(c, meta, ctx.dry_run)]),
        (Step::User(i), Some(c)) => Ok(
            apply::entry_effects(c.users@[i as int], passwd, ctx.dry_run),
        ),
        (Step::RootKeys, Some(c)) => Ok(
            apply::key_effects("root"@, text::texts(c.ssh_authorized_keys@), ctx.dry_run),
        ),
        (Step::File(i), Some(c)) => apply::file_plan(c.write_files@[i as int], ctx.dry_run),
        (Step::Command(i), Some(c)) => Ok(
            apply::command_effects(i as int, c.runcmd@[i as int], ctx.dry_run),
        ),
        (Step::FinalMessage, Some(c)) => Ok(seq![EffectView::Say(c.final_message->0@)]),
        _ => Ok(Seq::<EffectView>::empty()),
    }
}

/// Says what a step comes to; `passwd` is the text of `/etc/passwd`, if it
/// could be read.
pub fn step_effects(
    step: Step,
    cfg: Option<&CloudConfig>,
    user_data: &str,
    meta: &MetaData,
    ctx: &Ctx,
    passwd: Option<&str>,
) -> (r: Result<Vec<Effect>, String>)
    requires
        step.fitting(config_value(cfg)),
    ensures
        effect::planned(r) == step_plan(
            step,
            config_value(cfg),
            user_data@,
            *meta,
            *ctx,
            text::opt_str(passwd),
        ),
{
    match (step, cfg) {
        (Step::Unrecognized, _) => Ok(
            one_effect(
                Effect::Say("tinycloudinit: unrecognized user-data format; ignoring".to_owned()),
            ),
        ),
        (Step::Hostname, Some(c)) => {
            Ok(apply_hostname(borrowed(&c.hostname), borrowed(&c.fqdn), meta, ctx))
        },
        (Step::Hostname, None) => Ok(apply_hostname(None, None, meta, ctx)),
        (Step::Script, _) => Ok(run_user_script(user_data, ctx)),
        (Step::Hosts, Some(c)) => Ok(write_etc_hosts(c, meta, ctx)),
        (Step::User(i), Some(c)) => Ok(apply_user(&c.users[i], passwd, ctx)),
        (Step::RootKeys, Some(c)) => Ok(request_keys("root", &c.ssh_authorized_keys, ctx)),
        (Step::File(i), Some(c)) => write_file(&c.write_files[i], ctx),
        (Step::Command(i), Some(c)) => Ok(run_cmd(i, &c.runcmd[i], ctx)),
        (Step::FinalMessage, Some(c)) => {
            let message = match &c.final_message {
                Some(m) => m.as_str().to_owned(),
                None => String::new(),
            };
            Ok(one_effect(Effect::Say(message)))
        },
        _ => {
            let none: Vec<Effect> = Vec::new();
            assert(effect::effects(none@) =~= Seq::<EffectView>::empty());
            Ok(none)
        },
    }
}

} // verus!

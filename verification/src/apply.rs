//! Applying a configuration: which steps it takes, and the effects of each.
use vstd::prelude::*;
use vstd::string::*;

use crate::accounts;
use crate::accounts::passwd_entry;
use crate::config;
use crate::config::{
    decode_content, parse_mode, CloudConfig, Cmd, MetaData, SudoVal, UserEntry, UserSpec,
    WriteFile,
};
use crate::datasource::Seed;
use crate::effect;
use crate::effect::{
    add_effect, add_effects, command_line_text, copy_texts, copy_texts_from, no_effects,
    one_effect, run_tool, Command, CommandView, Effect, EffectView,
};
use crate::number;
use crate::number::{decimal_text, number_text};
use crate::ssh_keys;
use crate::ssh_keys::announce_keys;
use crate::text;
use crate::text::{
    begins_with, borrowed, chars_of, cut_at, joined_path, same, trimmed, trimmed_start,
};
use crate::Ctx;

verus! {

// ---- steps --------------------------------------------------------------

/// One step of applying user-data.
#[derive(Debug, Clone, Copy, PartialEq, Eq, Structural)]
pub enum Step {
    /// Read the user-data as a configuration, and take its steps.
    CloudConfig,
    /// Say that the user-data is of no known kind.
    Unrecognized,
    /// Grow partitions.
    Grow,
    /// Set the host name.
    Hostname,
    /// Write `/etc/hosts`.
    Hosts,
    /// Set up a user of the list.
    User(usize),
    /// Add the keys of the configuration for root.
    RootKeys,
    /// Write a file of the list.
    File(usize),
    /// Run a command of the list.
    Command(usize),
    /// Print the final message.
    FinalMessage,
    /// Run the user-data as a script.
    Script,
}

/// The user-data of a seed; without any it is empty.
pub open spec fn user_text(user_data: Option<Seq<char>>) -> Seq<char> {
    match user_data {
        Some(t) => t,
        None => Seq::<char>::empty(),
    }
}

/// The steps that user-data takes, by how it begins once white space is left
/// aside.
pub open spec fn user_data_steps(user_data: Seq<char>) -> Seq<Step> {
    let t = text::trim_start(user_data);
    if "#cloud-config"@.is_prefix_of(t) {
        seq![Step::CloudConfig]
    } else if "#!"@.is_prefix_of(t) {
        seq![Step::Grow, Step::Hostname, Step::Script]
    } else if t.len() > 0 {
        seq![Step::Unrecognized, Step::Grow, Step::Hostname]
    } else {
        seq![Step::Grow, Step::Hostname]
    }
}

/// Says which steps the user-data of a seed takes.
pub fn apply(seed: &Seed) -> (r: Vec<Step>)
    ensures
        r@ == user_data_steps(user_text(text::opt_text(seed.user_data))),
{
    let data: &str = match &seed.user_data {
        Some(t) => t.as_str(),
        None => {
            proof {
                reveal_strlit("");
                assert(""@ =~= Seq::<char>::empty());
            }
            ""
        },
    };
    let t = trimmed_start(data);
    let mut steps: Vec<Step> = Vec::new();
    if begins_with(t.as_str(), "#cloud-config") {
        steps.push(Step::CloudConfig);
        return steps;
    }
    if begins_with(t.as_str(), "#!") {
        steps.push(Step::Grow);
        steps.push(Step::Hostname);
        steps.push(Step::Script);
        return steps;
    }
    if !t.as_str().is_empty() {
        steps.push(Step::Unrecognized);
    }
    steps.push(Step::Grow);
    steps.push(Step::Hostname);
    steps
}

/// One step for each entry of a list.
pub open spec fn user_steps(n: int) -> Seq<Step> {
    Seq::new(n as nat, |i: int| Step::User(i as usize))
}

/// One step for each entry of a list.
pub open spec fn file_steps(n: int) -> Seq<Step> {
    Seq::new(n as nat, |i: int| Step::File(i as usize))
}

/// One step for each entry of a list.
pub open spec fn command_steps(n: int) -> Seq<Step> {
    Seq::new(n as nat, |i: int| Step::Command(i as usize))
}

/// A step that is only taken under a condition.
pub open spec fn step_if(condition: bool, step: Step) -> Seq<Step> {
    if condition {
        seq![step]
    } else {
        Seq::<Step>::empty()
    }
}

/// The steps of a configuration, in order.
pub open spec fn config_steps(cfg: CloudConfig) -> Seq<Step> {
    seq![Step::Grow, Step::Hostname] + step_if(cfg.manage_etc_hosts == Some(true), Step::Hosts)
        + user_steps(cfg.users@.len() as int) + step_if(
        cfg.ssh_authorized_keys@.len() > 0,
        Step::RootKeys,
    ) + file_steps(cfg.write_files@.len() as int) + command_steps(cfg.runcmd@.len() as int)
        + step_if(cfg.final_message is Some, Step::FinalMessage)
}

/// Says which steps a configuration takes.
pub fn apply_cloud_config(cfg: &CloudConfig) -> (r: Vec<Step>)
    ensures
        r@ == config_steps(*cfg),
{
    let mut steps: Vec<Step> = Vec::new();
    steps.push(Step::Grow);
    steps.push(Step::Hostname);
    let hosts = match cfg.manage_etc_hosts {
        Some(b) => b,
        None => false,
    };
    if hosts {
        steps.push(Step::Hosts);
    }
    let ghost front = steps@;
    assert(front =~= seq![Step::Grow, Step::Hostname] + step_if(
        cfg.manage_etc_hosts == Some(true),
        Step::Hosts,
    ));
    let users: usize = cfg.users.len();
    let mut i: usize = 0;
    while i < users
        invariant
            0 <= i <= users,
            steps@ =~= front + user_steps(i as int),
        decreases users - i,
    {
        steps.push(Step::User(i));
        i = i + 1;
    }
    if cfg.ssh_authorized_keys.len() > 0 {
        steps.push(Step::RootKeys);
    }
    let ghost middle = steps@;
    assert(middle =~= front + user_steps(users as int) + step_if(
        cfg.ssh_authorized_keys@.len() > 0,
        Step::RootKeys,
    ));
    let files: usize = cfg.write_files.len();
    i = 0;
    while i < files
        invariant
            0 <= i <= files,
            steps@ =~= middle + file_steps(i as int),
        decreases files - i,
    {
        steps.push(Step::File(i));
        i = i + 1;
    }
    let ghost late = steps@;
    let commands: usize = cfg.runcmd.len();
    i = 0;
    while i < commands
        invariant
            0 <= i <= commands,
            steps@ =~= late + command_steps(i as int),
        decreases commands - i,
    {
        steps.push(Step::Command(i));
        i = i + 1;
    }
    if cfg.final_message.is_some() {
        steps.push(Step::FinalMessage);
    }
    assert(steps@ =~= config_steps(*cfg));
    steps
}

// ---- host name ----------------------------------------------------------

/// The first of up to three host names: the host name, the first part of the
/// full name, or the one of the meta-data.
pub open spec fn short_name(
    hostname: Option<Seq<char>>,
    fqdn: Option<Seq<char>>,
    local_hostname: Option<Seq<char>>,
) -> Option<Seq<char>> {
    match (hostname, fqdn) {
        (Some(h), _) => Some(h),
        (None, Some(f)) => Some(text::before(f, '.')),
        (None, None) => local_hostname,
    }
}

/// The effects of setting a host name.
pub open spec fn hostname_effects(name: Option<Seq<char>>, dry_run: bool) -> Seq<EffectView> {
    match name {
        None => Seq::<EffectView>::empty(),
        Some(untrimmed) => {
            let n = text::trim(untrimmed);
            if n.len() == 0 {
                Seq::<EffectView>::empty()
            } else if dry_run {
                seq![EffectView::Say("DRY: would set hostname to '"@ + n + "'"@)]
            } else {
                seq![
                    EffectView::Write {
                        path: "/etc/hostname"@,
                        data: effect::file_bytes(n + "\n"@),
                    },
                    EffectView::SetHostname(n),
                    EffectView::Say("tinycloudinit: hostname set to '"@ + n + "'"@),
                ]
            }
        },
    }
}

fn choose_short_name(hostname: Option<&str>, fqdn: Option<&str>, meta: &MetaData) -> (r: Option<
    String,
>)
    ensures
        text::opt_text(r) == short_name(
            text::opt_str(hostname),
            text::opt_str(fqdn),
            text::opt_text(meta.local_hostname),
        ),
{
    match (hostname, fqdn) {
        (Some(h), _) => Some(h.to_owned()),
        (None, Some(f)) => {
            let (first, _) = cut_at(f, '.');
            Some(first)
        },
        (None, None) => match &meta.local_hostname {
            Some(h) => Some(h.as_str().to_owned()),
            None => None,
        },
    }
}

/// Sets the host name, if one is known.
pub fn apply_hostname(
    hostname: Option<&str>,
    fqdn: Option<&str>,
    meta: &MetaData,
    ctx: &Ctx,
) -> (r: Vec<Effect>)
    ensures
        effect::effects(r@) == hostname_effects(
            short_name(
                text::opt_str(hostname),
                text::opt_str(fqdn),
                text::opt_text(meta.local_hostname),
            ),
            ctx.dry_run,
        ),
{
    let chosen = match choose_short_name(hostname, fqdn, meta) {
        Some(n) => n,
        None => return no_effects(),
    };
    let name = trimmed(chosen.as_str());
    if name.as_str().is_empty() {
        return no_effects();
    }
    if ctx.dry_run {
        let mut m = "DRY: would set hostname to '".to_owned();
        m.append(name.as_str());
        m.append("'");
        return one_effect(Effect::Say(m));
    }
    let mut line = name.as_str().to_owned();
    line.append("\n");
    let mut m = "tinycloudinit: hostname set to '".to_owned();
    m.append(name.as_str());
    m.append("'");
    let mut list = no_effects();
    add_effect(
        &mut list,
        Effect::Write { path: "/etc/hostname".to_owned(), data: line.as_str().as_bytes_vec() },
    );
    add_effect(&mut list, Effect::SetHostname(name));
    add_effect(&mut list, Effect::Say(m));
    assert(effect::effects(list@) =~= hostname_effects(
        short_name(
            text::opt_str(hostname),
            text::opt_str(fqdn),
            text::opt_text(meta.local_hostname),
        ),
        ctx.dry_run,
    ));
    list
}

/// The content of `/etc/hosts` for a host.
pub open spec fn hosts_file(fqdn: Seq<char>, short: Seq<char>) -> Seq<char> {
    "127.0.0.1   localhost localhost.localdomain\n"@
        + "::1         localhost localhost.localdomain\n"@ + "127.0.1.1   "@ + fqdn + " "@ + short
        + "\n"@
}

/// The short name in `/etc/hosts`.
pub open spec fn hosts_short(cfg: CloudConfig, meta: MetaData) -> Seq<char> {
    match short_name(
        text::opt_text(cfg.hostname),
        text::opt_text(cfg.fqdn),
        text::opt_text(meta.local_hostname),
    ) {
        Some(n) => n,
        None => "localhost"@,
    }
}

/// The full name in `/etc/hosts`.
pub open spec fn hosts_fqdn(cfg: CloudConfig, meta: MetaData) -> Seq<char> {
    match cfg.fqdn {
        Some(f) => f@,
        None => hosts_short(cfg, meta),
    }
}

/// The effect of writing `/etc/hosts`.
pub open spec fn hosts_effect(cfg: CloudConfig, meta: MetaData, dry_run: bool) -> EffectView {
    let fqdn = hosts_fqdn(cfg, meta);
    if dry_run {
        EffectView::Say("DRY: would write /etc/hosts for "@ + fqdn)
    } else {
        EffectView::Write {
            path: "/etc/hosts"@,
            data: effect::file_bytes(hosts_file(fqdn, hosts_short(cfg, meta))),
        }
    }
}

/// Writes `/etc/hosts`.
pub fn write_etc_hosts(cfg: &CloudConfig, meta: &MetaData, ctx: &Ctx) -> (r: Vec<Effect>)
    ensures
        effect::effects(r@) == seq![hosts_effect(*cfg, *meta, ctx.dry_run)],
{
    let short = match choose_short_name(borrowed(&cfg.hostname), borrowed(&cfg.fqdn), meta) {
        Some(n) => n,
        None => "localhost".to_owned(),
    };
    let fqdn = match &cfg.fqdn {
        Some(f) => f.as_str().to_owned(),
        None => short.as_str().to_owned(),
    };
    if ctx.dry_run {
        let mut m = "DRY: would write /etc/hosts for ".to_owned();
        m.append(fqdn.as_str());
        return one_effect(Effect::Say(m));
    }
    let mut content = "127.0.0.1   localhost localhost.localdomain\n".to_owned();
    content.append("::1         localhost localhost.localdomain\n");
    content.append("127.0.1.1   ");
    content.append(fqdn.as_str());
    content.append(" ");
    content.append(short.as_str());
    content.append("\n");
    one_effect(
        Effect::Write { path: "/etc/hosts".to_owned(), data: content.as_str().as_bytes_vec() },
    )
}

// ---- users --------------------------------------------------------------

/// What is to be done about a user.
pub struct UserView {
    pub name: Seq<char>,
    pub gecos: Option<Seq<char>>,
    pub shell: Option<Seq<char>>,
    pub homedir: Option<Seq<char>>,
    /// The groups, with commas between them.
    pub groups: Option<Seq<char>>,
    /// The sudo rules.
    pub sudo: Option<Seq<Seq<char>>>,
    pub passwd: Option<Seq<char>>,
    pub lock_passwd: Option<bool>,
    pub system: Option<bool>,
    pub keys: Seq<Seq<char>>,
}

impl View for UserSpec {
    type V = UserView;

    open spec fn view(&self) -> UserView {
        UserView {
            name: self.name@,
            gecos: text::opt_text(self.gecos),
            shell: text::opt_text(self.shell),
            homedir: text::opt_text(self.homedir),
            groups: match self.groups {
                Some(g) => Some(g.list()),
                None => None,
            },
            sudo: match self.sudo {
                Some(SudoVal::Line(l)) => Some(seq![l@]),
                Some(SudoVal::Lines(v)) => Some(text::texts(v@)),
                _ => None,
            },
            passwd: text::opt_text(self.passwd),
            lock_passwd: self.lock_passwd,
            system: self.system,
            keys: text::texts(self.ssh_authorized_keys@),
        }
    }
}

/// A user of whom only the name is given.
pub open spec fn bare_user(name: Seq<char>) -> UserView {
    UserView {
        name,
        gecos: None,
        shell: None,
        homedir: None,
        groups: None,
        sudo: None,
        passwd: None,
        lock_passwd: None,
        system: None,
        keys: Seq::<Seq<char>>::empty(),
    }
}

/// An option with its value, if there is a value.
pub open spec fn option_args(option: Seq<char>, value: Option<Seq<char>>) -> Seq<Seq<char>> {
    match value {
        Some(v) => seq![option, v],
        None => Seq::<Seq<char>>::empty(),
    }
}

/// A list of groups that is not empty.
pub open spec fn some_groups(groups: Option<Seq<char>>) -> Option<Seq<char>> {
    match groups {
        Some(g) => if g.len() == 0 {
            None
        } else {
            Some(g)
        },
        None => None,
    }
}

/// The arguments of `useradd` for a user.
pub open spec fn useradd_args(u: UserView) -> Seq<Seq<char>> {
    seq![if u.system == Some(true) { "--system"@ } else { "-m"@ }] + option_args("-c"@, u.gecos)
        + option_args("-s"@, u.shell) + option_args("-d"@, u.homedir) + option_args(
        "-G"@,
        some_groups(u.groups),
    ) + seq![u.name]
}

/// The effect of creating a user, unless it exists.
pub open spec fn create_effect(u: UserView, exists: bool, dry_run: bool) -> EffectView {
    if exists {
        EffectView::Say("tinycloudinit: user '"@ + u.name + "' already exists"@)
    } else {
        effect::tool_effect(dry_run, "useradd"@, useradd_args(u))
    }
}

/// The effect of setting a password hash.
pub open spec fn password_effect(name: Seq<char>, hash: Seq<char>, dry_run: bool) -> EffectView {
    if dry_run {
        EffectView::Say("DRY: would set password hash for '"@ + name + "'"@)
    } else {
        EffectView::SetPassword {
            input: name + ":"@ + hash + "\n"@,
            exit_name: "chpasswd -e for '"@ + name + "'"@,
            success: "tinycloudinit: password set for '"@ + name + "'"@,
        }
    }
}

/// The effects of giving a user a password; it is unlocked only on request.
pub open spec fn password_effects(u: UserView, dry_run: bool) -> Seq<EffectView> {
    match u.passwd {
        None => Seq::<EffectView>::empty(),
        Some(hash) => seq![password_effect(u.name, hash, dry_run)] + (if u.lock_passwd == Some(
            false,
        ) {
            seq![effect::tool_effect(dry_run, "usermod"@, seq!["-U"@, u.name])]
        } else {
            Seq::<EffectView>::empty()
        }),
    }
}

/// Whether a character may stand in the name of a sudoers file.
pub open spec fn plain(c: char) -> bool {
    '0' <= c <= '9' || 'a' <= c <= 'z' || 'A' <= c <= 'Z' || c == '-' || c == '_'
}

/// The sudoers file of a user.
pub open spec fn sudoers_path(name: Seq<char>) -> Seq<char> {
    "/etc/sudoers.d/90-tinycloudinit-"@ + name.filter(|c: char| plain(c))
}

/// The content of the sudoers file of a user: a line for each rule.
pub open spec fn sudoers_content(name: Seq<char>, rules: Seq<Seq<char>>) -> Seq<char>
    decreases rules.len(),
{
    if rules.len() == 0 {
        Seq::<char>::empty()
    } else {
        sudoers_content(name, rules.drop_last()) + name + " "@ + rules.last() + "\n"@
    }
}

/// The effects of installing sudo rules for a user.
pub open spec fn sudoers_effects(
    name: Seq<char>,
    rules: Seq<Seq<char>>,
    dry_run: bool,
) -> Seq<EffectView> {
    let path = sudoers_path(name);
    if dry_run {
        seq![EffectView::Say("DRY: would write "@ + path)]
    } else {
        seq![
            EffectView::MakeDir { path: "/etc/sudoers.d"@, label: "/etc/sudoers.d"@ },
            EffectView::Write { path, data: effect::file_bytes(sudoers_content(name, rules)) },
            EffectView::Chmod { path, mode: 0o440 },
            EffectView::Say("tinycloudinit: sudoers rule installed for '"@ + name + "'"@),
        ]
    }
}

/// The sudo rules of a user, if any are given.
pub open spec fn sudo_effects(u: UserView, dry_run: bool) -> Seq<EffectView> {
    match u.sudo {
        Some(rules) => sudoers_effects(u.name, rules, dry_run),
        None => Seq::<EffectView>::empty(),
    }
}

/// The effects of asking for keys to be added for a user.
pub open spec fn key_effects(user: Seq<char>, keys: Seq<Seq<char>>, dry_run: bool) -> Seq<
    EffectView,
> {
    if keys.len() == 0 {
        Seq::<EffectView>::empty()
    } else if dry_run {
        seq![ssh_keys::keys_announced(user, keys.len() as int)]
    } else {
        seq![EffectView::InstallKeys { user, keys }]
    }
}

/// The effects of setting up a user.
pub open spec fn user_effects(u: UserView, exists: bool, dry_run: bool) -> Seq<EffectView> {
    if u.name.len() == 0 {
        seq![EffectView::Say("tinycloudinit: users: entry without name ignored"@)]
    } else {
        seq![create_effect(u, exists, dry_run)] + password_effects(u, dry_run) + sudo_effects(
            u,
            dry_run,
        ) + key_effects(u.name, u.keys, dry_run)
    }
}

/// The effects of an entry of the user list.
pub open spec fn entry_effects(
    entry: UserEntry,
    passwd: Option<Seq<char>>,
    dry_run: bool,
) -> Seq<EffectView> {
    match entry {
        UserEntry::Name(n) => if n@ == "default"@ {
            seq![
                EffectView::Say(
                    "tinycloudinit: users: 'default' entry ignored (no default user concept)"@,
                ),
            ]
        } else {
            user_effects(bare_user(n@), accounts::account(passwd, n@) is Some, dry_run)
        },
        UserEntry::Spec(s) => user_effects(
            s@,
            accounts::account(passwd, s@.name) is Some,
            dry_run,
        ),
    }
}

fn push_option(args: &mut Vec<String>, option: &str, value: &Option<String>)
    ensures
        text::texts(final(args)@) == text::texts(old(args)@) + option_args(
            option@,
            text::opt_text(*value),
        ),
{
    if let Some(v) = value {
        args.push(option.to_owned());
        args.push(v.as_str().to_owned());
    }
    assert(text::texts(args@) =~= text::texts(old(args)@) + option_args(
        option@,
        text::opt_text(*value),
    ));
}

fn useradd_arguments(spec: &UserSpec) -> (r: Vec<String>)
    ensures
        text::texts(r@) == useradd_args(spec@),
{
    let mut args: Vec<String> = Vec::new();
    let system = match spec.system {
        Some(b) => b,
        None => false,
    };
    if system {
        args.push("--system".to_owned());
    } else {
        args.push("-m".to_owned());
    }
    assert(text::texts(args@) =~= seq![
        if spec@.system == Some(true) {
            "--system"@
        } else {
            "-m"@
        },
    ]);
    push_option(&mut args, "-c", &spec.gecos);
    push_option(&mut args, "-s", &spec.shell);
    push_option(&mut args, "-d", &spec.homedir);
    let groups = match &spec.groups {
        Some(g) => {
            let joined = g.joined();
            if joined.as_str().is_empty() {
                None
            } else {
                Some(joined)
            }
        },
        None => None,
    };
    push_option(&mut args, "-G", &groups);
    let ghost before = text::texts(args@);
    args.push(spec.name.as_str().to_owned());
    assert(text::texts(args@) =~= before + seq![spec.name@]);
    args
}

/// Gives a user a password hash.
pub fn chpasswd(name: &str, hash: &str, ctx: &Ctx) -> (r: Effect)
    ensures
        r@ == password_effect(name@, hash@, ctx.dry_run),
{
    if ctx.dry_run {
        let mut m = "DRY: would set password hash for '".to_owned();
        m.append(name);
        m.append("'");
        return Effect::Say(m);
    }
    let mut input = name.to_owned();
    input.append(":");
    input.append(hash);
    input.append("\n");
    let mut exit_name = "chpasswd -e for '".to_owned();
    exit_name.append(name);
    exit_name.append("'");
    let mut success = "tinycloudinit: password set for '".to_owned();
    success.append(name);
    success.append("'");
    Effect::SetPassword { input, exit_name, success }
}

fn is_plain(c: char) -> (r: bool)
    ensures
        r == plain(c),
{
    ('0' <= c && c <= '9') || ('a' <= c && c <= 'z') || ('A' <= c && c <= 'Z') || c == '-' || c
        == '_'
}

fn sudoers_file(name: &str) -> (r: String)
    ensures
        r@ == sudoers_path(name@),
{
    let chars = chars_of(name);
    let n: usize = chars.len();
    let mut safe = String::new();
    let mut i: usize = 0;
    let ghost keep = |c: char| plain(c);
    proof {
        reveal(Seq::filter);
        assert(chars@.take(0).filter(keep) =~= Seq::<char>::empty());
    }
    while i < n
        invariant
            n == chars@.len(),
            0 <= i <= n,
            keep == (|c: char| plain(c)),
            safe@ == chars@.take(i as int).filter(keep),
        decreases n - i,
    {
        proof {
            reveal(Seq::filter);
            assert(chars@.take(i + 1).drop_last() =~= chars@.take(i as int));
        }
        if is_plain(chars[i]) {
            safe.push(chars[i]);
        }
        i = i + 1;
    }
    assert(chars@.take(n as int) =~= name@);
    let mut path = "/etc/sudoers.d/90-tinycloudinit-".to_owned();
    path.append(safe.as_str());
    path
}

/// Installs sudo rules for a user, in a file of the user's own.
pub fn write_sudoers(name: &str, rules: &Vec<String>, ctx: &Ctx) -> (r: Vec<Effect>)
    ensures
        effect::effects(r@) == sudoers_effects(name@, text::texts(rules@), ctx.dry_run),
{
    let path = sudoers_file(name);
    if ctx.dry_run {
        let mut m = "DRY: would write ".to_owned();
        m.append(path.as_str());
        return one_effect(Effect::Say(m));
    }
    let ghost all = text::texts(rules@);
    let n: usize = rules.len();
    let mut content = String::new();
    let mut i: usize = 0;
    assert(content@ =~= sudoers_content(name@, all.take(0)));
    while i < n
        invariant
            n == rules@.len(),
            all == text::texts(rules@),
            0 <= i <= n,
            content@ == sudoers_content(name@, all.take(i as int)),
        decreases n - i,
    {
        proof {
            assert(all.take(i + 1).drop_last() =~= all.take(i as int));
            assert(all.take(i + 1).last() == rules@[i as int]@);
        }
        content.append(name);
        content.append(" ");
        content.append(rules[i].as_str());
        content.append("\n");
        i = i + 1;
    }
    assert(all.take(n as int) =~= all);
    let mut m = "tinycloudinit: sudoers rule installed for '".to_owned();
    m.append(name);
    m.append("'");
    let mut list = no_effects();
    add_effect(
        &mut list,
        Effect::MakeDir { path: "/etc/sudoers.d".to_owned(), label: "/etc/sudoers.d".to_owned() },
    );
    add_effect(
        &mut list,
        Effect::Write { path: path.as_str().to_owned(), data: content.as_str().as_bytes_vec() },
    );
    add_effect(&mut list, Effect::Chmod { path, mode: 0o440 });
    add_effect(&mut list, Effect::Say(m));
    assert(effect::effects(list@) =~= sudoers_effects(name@, all, ctx.dry_run));
    list
}

/// Asks for keys to be added for a user.
pub fn request_keys(user: &str, keys: &Vec<String>, ctx: &Ctx) -> (r: Vec<Effect>)
    ensures
        effect::effects(r@) == key_effects(user@, text::texts(keys@), ctx.dry_run),
{
    if keys.len() == 0 {
        return no_effects();
    }
    if ctx.dry_run {
        return one_effect(announce_keys(user, keys.len()));
    }
    one_effect(Effect::InstallKeys { user: user.to_owned(), keys: copy_texts(keys) })
}

fn password_plan(spec: &UserSpec, ctx: &Ctx) -> (r: Vec<Effect>)
    ensures
        effect::effects(r@) == password_effects(spec@, ctx.dry_run),
{
    let mut list = no_effects();
    let name = spec.name.as_str();
    if let Some(hash) = &spec.passwd {
        add_effect(&mut list, chpasswd(name, hash.as_str(), ctx));
        if let Some(false) = spec.lock_passwd {
            let mut args: Vec<String> = Vec::new();
            args.push("-U".to_owned());
            args.push(name.to_owned());
            assert(text::texts(args@) =~= seq!["-U"@, name@]);
            add_effect(&mut list, run_tool(ctx, "usermod", args));
        }
    }
    assert(effect::effects(list@) =~= password_effects(spec@, ctx.dry_run));
    list
}

fn sudo_plan(spec: &UserSpec, ctx: &Ctx) -> (r: Vec<Effect>)
    ensures
        effect::effects(r@) == sudo_effects(spec@, ctx.dry_run),
{
    let name = spec.name.as_str();
    match &spec.sudo {
        Some(SudoVal::Line(line)) => {
            let mut rules: Vec<String> = Vec::new();
            rules.push(line.as_str().to_owned());
            assert(text::texts(rules@) =~= seq![line@]);
            write_sudoers(name, &rules, ctx)
        },
        Some(SudoVal::Lines(rules)) => write_sudoers(name, rules, ctx),
        Some(SudoVal::Enabled(_)) => no_effects(),
        None => no_effects(),
    }
}

fn apply_user_spec(spec: &UserSpec, passwd: Option<&str>, ctx: &Ctx) -> (r: Vec<Effect>)
    ensures
        effect::effects(r@) == user_effects(
            spec@,
            accounts::account(text::opt_str(passwd), spec@.name) is Some,
            ctx.dry_run,
        ),
{
    let name = spec.name.as_str();
    if name.is_empty() {
        return one_effect(
            Effect::Say("tinycloudinit: users: entry without name ignored".to_owned()),
        );
    }
    let mut list = no_effects();
    if passwd_entry(passwd, name).is_none() {
        add_effect(&mut list, run_tool(ctx, "useradd", useradd_arguments(spec)));
    } else {
        let mut m = "tinycloudinit: user '".to_owned();
        m.append(name);
        m.append("' already exists");
        add_effect(&mut list, Effect::Say(m));
    }
    let ghost created = effect::effects(list@);
    assert(created =~= seq![
        create_effect(
            spec@,
            accounts::account(text::opt_str(passwd), spec@.name) is Some,
            ctx.dry_run,
        ),
    ]);
    add_effects(&mut list, password_plan(spec, ctx));
    add_effects(&mut list, sudo_plan(spec, ctx));
    add_effects(&mut list, request_keys(name, &spec.ssh_authorized_keys, ctx));
    list
}

/// Sets up a user, given the text of `/etc/passwd` if it could be read.
pub fn apply_user(entry: &UserEntry, passwd: Option<&str>, ctx: &Ctx) -> (r: Vec<Effect>)
    ensures
        effect::effects(r@) == entry_effects(*entry, text::opt_str(passwd), ctx.dry_run),
{
    match entry {
        UserEntry::Name(n) => {
            if same(n.as_str(), "default") {
                return one_effect(
                    Effect::Say(
                        "tinycloudinit: users: 'default' entry ignored (no default user concept)".to_owned(),
                    ),
                );
            }
            let spec = UserSpec {
                name: n.as_str().to_owned(),
                gecos: None,
                shell: None,
                homedir: None,
                groups: None,
                sudo: None,
                passwd: None,
                lock_passwd: None,
                system: None,
                ssh_authorized_keys: Vec::new(),
            };
            assert(spec@.keys =~= bare_user(n@).keys);
            apply_user_spec(&spec, passwd, ctx)
        },
        UserEntry::Spec(s) => apply_user_spec(s, passwd, ctx),
    }
}

// ---- files --------------------------------------------------------------

/// The effects of writing data to a file.
pub open spec fn store_effects(f: WriteFile, data: Seq<u8>, mode: u32) -> Seq<EffectView> {
    seq![
        EffectView::MakeParent(f.path@),
        if f.append {
            EffectView::Append { path: f.path@, data }
        } else {
            EffectView::Write { path: f.path@, data }
        },
        EffectView::Chmod { path: f.path@, mode },
    ] + (match f.owner {
        Some(owner) => seq![EffectView::Own { path: f.path@, owner: owner@ }],
        None => Seq::<EffectView>::empty(),
    }) + seq![
        EffectView::Say(
            "tinycloudinit: wrote "@ + f.path@ + " ("@ + number::decimal(data.len() as int)
                + " bytes)"@,
        ),
    ]
}

/// What writing a file comes to, given what its content and mode come to.
pub open spec fn file_plan_with(
    f: WriteFile,
    content: Result<Seq<u8>, Seq<char>>,
    dry_run: bool,
) -> Result<Seq<EffectView>, Seq<char>> {
    match (content, config::mode_of(f.mode_arg())) {
        (Err(e), _) => Err(e),
        (Ok(_), Err(e)) => Err(e),
        (Ok(data), Ok(mode)) => if dry_run {
            Ok(
                seq![
                    EffectView::Say(
                        "DRY: would write "@ + f.path@ + " ("@ + number::decimal(
                            data.len() as int,
                        ) + " bytes, mode "@ + number::octal(mode as int) + ")"@,
                    ),
                ],
            )
        } else {
            Ok(store_effects(f, data, mode))
        },
    }
}

/// What writing a file comes to.
pub open spec fn file_plan(f: WriteFile, dry_run: bool) -> Result<Seq<EffectView>, Seq<char>> {
    if f.path@.len() == 0 {
        Err("write_files entry without path"@)
    } else {
        file_plan_with(
            f,
            config::decoded_content(f.content@, text::opt_text(f.encoding)),
            dry_run,
        )
    }
}

impl WriteFile {
    /// The permissions, as they are handed over.
    pub open spec fn mode_arg(&self) -> Option<&config::PermVal> {
        match &self.permissions {
            Some(p) => Some(p),
            None => None,
        }
    }
}

/// Writes a file whose content has been decoded already.
pub fn store_file(f: &WriteFile, content: Result<Vec<u8>, String>, ctx: &Ctx) -> (r: Result<
    Vec<Effect>,
    String,
>)
    ensures
        effect::planned(r) == file_plan_with(*f, config::content_view(content), ctx.dry_run),
{
    let data = match content {
        Ok(d) => d,
        Err(e) => return Err(e),
    };
    let permissions = match &f.permissions {
        Some(p) => Some(p),
        None => None,
    };
    let mode: u32 = match parse_mode(permissions) {
        Ok(m) => m,
        Err(e) => return Err(e),
    };
    let size = decimal_text(data.len() as u64);
    if ctx.dry_run {
        let mut m = "DRY: would write ".to_owned();
        m.append(f.path.as_str());
        m.append(" (");
        m.append(size.as_str());
        m.append(" bytes, mode ");
        m.append(number_text(mode as u64, 8).as_str());
        m.append(")");
        return Ok(one_effect(Effect::Say(m)));
    }
    let mut m = "tinycloudinit: wrote ".to_owned();
    m.append(f.path.as_str());
    m.append(" (");
    m.append(size.as_str());
    m.append(" bytes)");
    let ghost bytes = data@;
    let path = f.path.as_str();
    let mut list = no_effects();
    add_effect(&mut list, Effect::MakeParent(path.to_owned()));
    if f.append {
        add_effect(&mut list, Effect::Append { path: path.to_owned(), data });
    } else {
        add_effect(&mut list, Effect::Write { path: path.to_owned(), data });
    }
    add_effect(&mut list, Effect::Chmod { path: path.to_owned(), mode });
    if let Some(owner) = &f.owner {
        add_effect(
            &mut list,
            Effect::Own { path: path.to_owned(), owner: owner.as_str().to_owned() },
        );
    }
    add_effect(&mut list, Effect::Say(m));
    assert(effect::effects(list@) =~= store_effects(*f, bytes, mode));
    Ok(list)
}

/// Writes a file.
pub fn write_file(f: &WriteFile, ctx: &Ctx) -> (r: Result<Vec<Effect>, String>)
    ensures
        effect::planned(r) == file_plan(*f, ctx.dry_run),
{
    if f.path.as_str().is_empty() {
        return Err("write_files entry without path".to_owned());
    }
    store_file(f, decode_content(f.content.as_str(), borrowed(&f.encoding)), ctx)
}

// ---- commands -----------------------------------------------------------

/// The program of a command and its arguments; none for an empty list.
pub open spec fn command_words(c: Cmd) -> Option<(Seq<char>, Seq<Seq<char>>)> {
    match c {
        Cmd::Shell(s) => Some(("/bin/sh"@, seq!["-c"@, s@])),
        Cmd::Argv(v) => if v@.len() == 0 {
            None
        } else {
            Some((v@[0]@, text::texts(v@).skip(1)))
        },
    }
}

/// How a command of the list is called in messages.
pub open spec fn runcmd_label(i: int) -> Seq<char> {
    "runcmd["@ + number::decimal(i) + "]"@
}

/// The effects of running a command of the list. A failure is only a warning.
pub open spec fn command_effects(i: int, c: Cmd, dry_run: bool) -> Seq<EffectView> {
    match command_words(c) {
        None => Seq::<EffectView>::empty(),
        Some((program, args)) => {
            let line = runcmd_label(i) + ": "@ + effect::command_line(program, args);
            let name = "tinycloudinit: "@ + runcmd_label(i);
            if dry_run {
                seq![EffectView::Say("DRY: "@ + line)]
            } else {
                seq![
                    EffectView::Say("tinycloudinit: "@ + line),
                    EffectView::Run(
                        CommandView {
                            program,
                            args,
                            start_context: name + " failed to start"@,
                            exit_name: name,
                            success: None,
                            fatal: false,
                        },
                    ),
                ]
            }
        },
    }
}

/// Runs a command of the list.
pub fn run_cmd(i: usize, c: &Cmd, ctx: &Ctx) -> (r: Vec<Effect>)
    ensures
        effect::effects(r@) == command_effects(i as int, *c, ctx.dry_run),
{
    let mut args: Vec<String> = Vec::new();
    let program = match c {
        Cmd::Shell(s) => {
            args.push("-c".to_owned());
            args.push(s.as_str().to_owned());
            assert(text::texts(args@) =~= seq!["-c"@, s@]);
            "/bin/sh".to_owned()
        },
        Cmd::Argv(v) => {
            if v.len() == 0 {
                return no_effects();
            }
            args = copy_texts_from(v, 1);
            v[0].as_str().to_owned()
        },
    };
    let mut label = "runcmd[".to_owned();
    label.append(decimal_text(i as u64).as_str());
    label.append("]");
    let mut line = label.as_str().to_owned();
    line.append(": ");
    line.append(command_line_text(program.as_str(), &args).as_str());
    if ctx.dry_run {
        let mut m = "DRY: ".to_owned();
        m.append(line.as_str());
        return one_effect(Effect::Say(m));
    }
    let mut m = "tinycloudinit: ".to_owned();
    m.append(line.as_str());
    let mut exit_name = "tinycloudinit: ".to_owned();
    exit_name.append(label.as_str());
    let mut start_context = exit_name.as_str().to_owned();
    start_context.append(" failed to start");
    let mut list = no_effects();
    add_effect(&mut list, Effect::Say(m));
    add_effect(
        &mut list,
        Effect::Run(
            Command { program, args, start_context, exit_name, success: None, fatal: false },
        ),
    );
    assert(effect::effects(list@) =~= command_effects(i as int, *c, ctx.dry_run));
    list
}

/// The effects of running user-data as a script.
pub open spec fn script_effects(script: Seq<char>, state_dir: Seq<char>, dry_run: bool) -> Seq<
    EffectView,
> {
    let path = text::path_join(state_dir, "user-script"@);
    if dry_run {
        seq![
            EffectView::Say(
                "DRY: would run user-data script ("@ + number::decimal(
                    effect::file_bytes(script).len() as int,
                ) + " bytes)"@,
            ),
        ]
    } else {
        seq![
            EffectView::MakeDir { path: state_dir, label: "state dir"@ },
            EffectView::Write { path, data: effect::file_bytes(script) },
            EffectView::Chmod { path, mode: 0o700 },
            EffectView::Say("tinycloudinit: running user-data script"@),
            EffectView::Run(
                CommandView {
                    program: path,
                    args: Seq::<Seq<char>>::empty(),
                    start_context: "run user script"@,
                    exit_name: "user-data script"@,
                    success: None,
                    fatal: true,
                },
            ),
        ]
    }
}

/// Runs user-data as a script.
pub fn run_user_script(script: &str, ctx: &Ctx) -> (r: Vec<Effect>)
    ensures
        effect::effects(r@) == script_effects(script@, ctx.state_dir@, ctx.dry_run),
{
    let data = script.as_bytes_vec();
    if ctx.dry_run {
        let mut m = "DRY: would run user-data script (".to_owned();
        m.append(decimal_text(data.len() as u64).as_str());
        m.append(" bytes)");
        return one_effect(Effect::Say(m));
    }
    let path = joined_path(ctx.state_dir.as_str(), "user-script");
    let args: Vec<String> = Vec::new();
    assert(text::texts(args@) =~= Seq::<Seq<char>>::empty());
    let mut list = no_effects();
    add_effect(
        &mut list,
        Effect::MakeDir {
            path: ctx.state_dir.as_str().to_owned(),
            label: "state dir".to_owned(),
        },
    );
    add_effect(&mut list, Effect::Write { path: path.as_str().to_owned(), data });
    add_effect(&mut list, Effect::Chmod { path: path.as_str().to_owned(), mode: 0o700 });
    add_effect(&mut list, Effect::Say("tinycloudinit: running user-data script".to_owned()));
    add_effect(
        &mut list,
        Effect::Run(
            Command {
                program: path,
                args,
                start_context: "run user script".to_owned(),
                exit_name: "user-data script".to_owned(),
                success: None,
                fatal: true,
            },
        ),
    );
    assert(effect::effects(list@) =~= script_effects(script@, ctx.state_dir@, ctx.dry_run));
    list
}

} // verus!

//! What holds of host names, files, commands and scripts of any configuration.
use vstd::prelude::*;

use crate::apply;
use crate::apply::Step;
use crate::config;
use crate::config::{
    CloudConfig, Cmd, Groups, GrowMode, GrowpartCfg, MetaData, PermVal, ResizeVal, WriteFile,
};
use crate::effect;
use crate::effect::{CommandView, EffectView};
use crate::file_laws;
use crate::number;
use crate::steps;
use crate::text;
use crate::text::Cut;
use crate::text_laws;
use crate::Ctx;

verus! {

// ---- content ------------------------------------------------------------

/// Whatever bytes base64 content stands for, be they few or many, are the
/// content, all of them; what stands for none is refused with the reason. White
/// space is left out before decoding.
pub proof fn decoded_bytes_are_kept_whole(content: Seq<char>, encoding: Seq<char>, b: Seq<u8>)
    requires
        encoding == "b64"@ || encoding == "base64"@,
    ensures
        ({
            let solid = vstd::utf8::encode_utf8(content.filter(|c: char| !text::white_space(c)));
            let r = config::decoded_content(content, Some(encoding));
            &&& config::base64_decoded(solid) == Ok::<Seq<u8>, Seq<char>>(b) ==> r == Ok::<
                Seq<u8>,
                Seq<char>,
            >(b)
            &&& config::base64_decoded(solid) matches Err(e) ==> r == Err::<Seq<u8>, Seq<char>>(
                "invalid base64 content: "@ + e,
            )
        }),
        config::base64_content(Ok(b)) == Ok::<Seq<u8>, Seq<char>>(b),
{
    lemma_names_differ(encoding);
}

proof fn lemma_names_differ(name: Seq<char>)
    requires
        name == "b64"@ || name == "base64"@,
    ensures
        name.len() != 0 && name != "plain"@ && name != "text/plain"@,
{
    reveal_strlit("b64");
    reveal_strlit("base64");
    reveal_strlit("plain");
    reveal_strlit("text/plain");
    assert("b64"@.len() == 3 && "base64"@.len() == 6);
    assert("plain"@.len() == 5 && "text/plain"@.len() == 10);
}

/// Content without an encoding, or with one that says plain text, is the bytes of
/// the text; an encoding that is neither that nor base64 is refused.
pub proof fn encodings_that_are_known(content: Seq<char>, name: Seq<char>)
    ensures
        config::decoded_content(content, None) == Ok::<Seq<u8>, Seq<char>>(
            vstd::utf8::encode_utf8(content),
        ),
        (name == "plain"@ || name == "text/plain"@ || name.len() == 0) ==> config::decoded_content(
            content,
            Some(name),
        ) == Ok::<Seq<u8>, Seq<char>>(vstd::utf8::encode_utf8(content)),
        name.len() > 0 && name != "plain"@ && name != "text/plain"@ && name != "b64"@ && name
            != "base64"@ ==> config::decoded_content(content, Some(name)) == Err::<
            Seq<u8>,
            Seq<char>,
        >("unsupported write_files encoding '"@ + name + "'"@),
{
}

/// A file with base64 content holds exactly the bytes that the content stands
/// for once it is written, or has them behind what it held if that is asked for.
pub proof fn the_file_holds_the_decoded_bytes(
    f: WriteFile,
    b: Seq<u8>,
    files: Map<Seq<char>, Seq<u8>>,
)
    requires
        f.encoding is Some,
        f.encoding->0@ == "b64"@ || f.encoding->0@ == "base64"@,
        config::base64_decoded(
            vstd::utf8::encode_utf8(f.content@.filter(|c: char| !text::white_space(c))),
        ) == Ok::<Seq<u8>, Seq<char>>(b),
        apply::file_plan(f, false) is Ok,
    ensures
        ({
            let after = effect::files_after(files, apply::file_plan(f, false)->Ok_0);
            &&& after.contains_key(f.path@)
            &&& !f.append ==> after[f.path@] == b
            &&& f.append && files.contains_key(f.path@) ==> after[f.path@] == files[f.path@] + b
            &&& f.append && !files.contains_key(f.path@) ==> after[f.path@] == b
        }),
{
    decoded_bytes_are_kept_whole(f.content@, f.encoding->0@, b);
    file_laws::written_file_holds_its_content(f, files);
    assert(Seq::<u8>::empty() + b =~= b);
}

/// The permissions of a file are 0644 unless they are given; a number stands for
/// itself, and a text for the octal number in it, whatever blanks are around it
/// and with or without the prefix of octal numbers.
pub proof fn permissions_are_octal(
    s: String,
    a: Seq<char>,
    t: Seq<char>,
    b: Seq<char>,
    n: u32,
)
    requires
        forall|i: int| 0 <= i < a.len() ==> text::white_space(#[trigger] a[i]),
        forall|i: int| 0 <= i < b.len() ==> text::white_space(#[trigger] b[i]),
        t.len() > 0 && !text::white_space(t[0]) && !text::white_space(t.last()),
        t[0] != '0' || (t.len() > 1 ==> t[1] != 'o'),
        s@ == a + t + b || s@ == a + (seq!['0', 'o'] + t) + b,
    ensures
        config::mode_of(None) == Ok::<u32, Seq<char>>(420),
        config::mode_of(Some(&PermVal::Num(n))) == Ok::<u32, Seq<char>>(n),
        match number::number(t, 8, 0xffff_ffff) {
            Ok(v) => config::mode_of(Some(&PermVal::Str(s))) == Ok::<u32, Seq<char>>(v as u32),
            Err(e) => config::mode_of(Some(&PermVal::Str(s))) == Err::<u32, Seq<char>>(
                "invalid permissions '"@ + s@ + "': "@ + e.words(),
            ),
        },
{
    reveal_strlit("0o");
    let long = seq!['0', 'o'] + t;
    text_laws::trimming_leaves_the_middle(a, t, b);
    assert(!text::white_space('0'));
    assert(long.last() == t.last());
    text_laws::trimming_leaves_the_middle(a, long, b);
    if "0o"@.is_prefix_of(t) {
        assert(t.subrange(0, 2)[0] == '0' && t.subrange(0, 2)[1] == 'o');
    }
    assert(long.subrange(0, 2) =~= "0o"@);
    assert(long.skip(2) =~= t);
    if s@ == a + long + b {
        assert(config::mode_digits(s@) == t);
    } else {
        assert(config::mode_digits(s@) == t);
    }
}

/// Growing is turned off by the flag false and the word off, and by nothing
/// else; resizing is turned off by the flag false, and by nothing else.
pub proof fn what_turns_growing_off(g: GrowpartCfg, c: CloudConfig)
    ensures
        g.off() <==> (g.mode matches Some(GrowMode::Flag(b)) && !b) || (g.mode matches Some(
            GrowMode::Word(w),
        ) && w@ == "off"@),
        c.resizes() <==> !(c.resize_rootfs matches Some(ResizeVal::Flag(b)) && b == false),
{
}

/// The groups in a string are its parts between commas and spaces that are not
/// empty, in their order; a list is taken as it is. Either way they are joined by
/// commas.
pub proof fn which_groups_are_named(
    a: Seq<char>,
    sep: char,
    b: Seq<char>,
    name: Seq<char>,
    line: String,
    list: Vec<String>,
)
    requires
        sep == ',' || sep == ' ',
        forall|i: int| 0 <= i < name.len() ==> #[trigger] name[i] != ',' && name[i] != ' ',
    ensures
        config::group_names(a.push(sep) + b) == config::group_names(a) + config::group_names(b),
        name.len() > 0 ==> config::group_names(name) == seq![name],
        config::group_names(Seq::<char>::empty()).len() == 0,
        Groups::Str(line).list() == text::join(config::group_names(line@), ","@),
        Groups::List(list).list() == text::join(text::texts(list@), ","@),
{
    let cut = Cut::Either(',', ' ');
    let keep = |p: Seq<char>| p.len() > 0;
    text_laws::split_at_cut(a, sep, b, cut);
    Seq::filter_distributes_over_add(text::split(a, cut), text::split(b, cut), keep);
    let none = Seq::<Seq<char>>::empty();
    text_laws::split_without_cut(name, cut);
    text_laws::empty_pieces_are_dropped(none, name);
    assert(none.push(name) =~= seq![name]);
    let empty = Seq::<char>::empty();
    text_laws::split_without_cut(empty, cut);
    text_laws::empty_pieces_are_dropped(none, empty);
    assert(none.push(empty) =~= seq![empty]);
}

// ---- files --------------------------------------------------------------

/// A file can be written exactly if it has a path, its content can be decoded and
/// its permissions can be read. Its directory is then made, the content is
/// written as it is or added, the mode is set, and the owner, if one is given, is
/// set last; the length that is reported is that of the content.
pub proof fn what_writing_a_file_does(f: WriteFile)
    ensures
        ({
            let content = config::decoded_content(f.content@, text::opt_text(f.encoding));
            let mode = config::mode_of(f.mode_arg());
            let r = apply::file_plan(f, false);
            &&& r is Ok <==> f.path@.len() > 0 && content is Ok && mode is Ok
            &&& f.path@.len() > 0 && content is Err ==> r == Err::<Seq<EffectView>, Seq<char>>(
                content->Err_0,
            )
            &&& f.path@.len() > 0 && content is Ok && mode is Err ==> r == Err::<
                Seq<EffectView>,
                Seq<char>,
            >(mode->Err_0)
            &&& f.path@.len() == 0 ==> r == Err::<Seq<EffectView>, Seq<char>>(
                "write_files entry without path"@,
            )
            &&& r matches Ok(list) ==> {
                &&& list.len() == 4 + (if f.owner is Some {
                    1int
                } else {
                    0
                })
                &&& list[0] == EffectView::MakeParent(f.path@)
                &&& !f.append ==> list[1] == (EffectView::Write {
                    path: f.path@,
                    data: content->Ok_0,
                })
                &&& f.append ==> list[1] == (EffectView::Append {
                    path: f.path@,
                    data: content->Ok_0,
                })
                &&& list[2] == (EffectView::Chmod { path: f.path@, mode: mode->Ok_0 })
                &&& f.owner matches Some(o) ==> list[3] == (EffectView::Own {
                    path: f.path@,
                    owner: o@,
                })
                &&& list.last() == EffectView::Say(
                    "tinycloudinit: wrote "@ + f.path@ + " ("@ + number::decimal(
                        content->Ok_0.len() as int,
                    ) + " bytes)"@,
                )
            }
        }),
{
}

/// The permissions that count are those of the file.
pub proof fn permissions_are_handed_on(f: WriteFile)
    ensures
        f.permissions matches Some(p) ==> f.mode_arg() == Some(&p),
        f.permissions is None ==> f.mode_arg() is None,
{
}

/// A dry run says where it would write, how much, and with which mode.
pub proof fn what_a_dry_run_says_of_a_file(f: WriteFile)
    requires
        apply::file_plan(f, true) is Ok,
    ensures
        apply::file_plan(f, true)->Ok_0 == seq![
            EffectView::Say(
                "DRY: would write "@ + f.path@ + " ("@ + number::decimal(
                    config::decoded_content(
                        f.content@,
                        text::opt_text(f.encoding),
                    )->Ok_0.len() as int,
                ) + " bytes, mode "@ + number::octal(config::mode_of(f.mode_arg())->Ok_0 as int)
                    + ")"@,
            ),
        ],
{
}

// ---- host names ---------------------------------------------------------

/// The host name is the one that is given; failing that, the full name up to its
/// first dot; failing that, the one of the meta-data.
pub proof fn which_host_name_is_taken(
    host: Seq<char>,
    domain: Seq<char>,
    local: Option<Seq<char>>,
    h: Seq<char>,
    fqdn: Option<Seq<char>>,
)
    requires
        forall|i: int| 0 <= i < host.len() ==> #[trigger] host[i] != '.',
    ensures
        apply::short_name(Some(h), fqdn, local) == Some(h),
        apply::short_name(None, Some(host.push('.') + domain), local) == Some(host),
        apply::short_name(None, Some(host), local) == Some(host),
        apply::short_name(None, None, local) == local,
{
    text_laws::parted_at_the_first(host, '.', domain);
}

/// Setting a host name writes it to its file and tells the kernel, without the
/// white space around it; a blank name, or none, changes nothing.
pub proof fn what_setting_a_host_name_does(a: Seq<char>, name: Seq<char>, b: Seq<char>)
    requires
        forall|i: int| 0 <= i < a.len() ==> text::white_space(#[trigger] a[i]),
        forall|i: int| 0 <= i < b.len() ==> text::white_space(#[trigger] b[i]),
        name.len() > 0 ==> !text::white_space(name[0]) && !text::white_space(name.last()),
    ensures
        ({
            let list = apply::hostname_effects(Some(a + name + b), false);
            let dry = apply::hostname_effects(Some(a + name + b), true);
            &&& name.len() == 0 ==> list.len() == 0 && dry.len() == 0
            &&& name.len() > 0 ==> {
                &&& list.len() == 3
                &&& list[0] == (EffectView::Write {
                    path: "/etc/hostname"@,
                    data: vstd::utf8::encode_utf8(name + "\n"@),
                })
                &&& list[1] == EffectView::SetHostname(name)
                &&& list[2] == EffectView::Say(
                    "tinycloudinit: hostname set to '"@ + name + "'"@,
                )
                &&& dry == seq![EffectView::Say("DRY: would set hostname to '"@ + name + "'"@)]
            }
        }),
        apply::hostname_effects(None, false).len() == 0,
        apply::hostname_effects(None, true).len() == 0,
{
    text_laws::trimming_leaves_the_middle(a, name, b);
}

/// The hosts file names the loopback addresses, and the host by its full name and
/// its short one; without a full name the short one stands for it, and without
/// any name the host is called localhost.
pub proof fn what_the_hosts_file_says(cfg: CloudConfig, meta: MetaData)
    ensures
        ({
            let e = apply::hosts_effect(cfg, meta, false);
            let short = match apply::short_name(
                text::opt_text(cfg.hostname),
                text::opt_text(cfg.fqdn),
                text::opt_text(meta.local_hostname),
            ) {
                Some(s) => s,
                None => "localhost"@,
            };
            let fqdn = if cfg.fqdn is Some {
                cfg.fqdn->0@
            } else {
                short
            };
            &&& e == (EffectView::Write {
                path: "/etc/hosts"@,
                data: vstd::utf8::encode_utf8(
                    "127.0.0.1   localhost localhost.localdomain\n::1         localhost localhost.localdomain\n127.0.1.1   "@
                        + fqdn + " "@ + short + "\n"@,
                ),
            })
            &&& apply::hosts_effect(cfg, meta, true) == EffectView::Say(
                "DRY: would write /etc/hosts for "@ + fqdn,
            )
        }),
{
    reveal_strlit("127.0.0.1   localhost localhost.localdomain\n");
    reveal_strlit("::1         localhost localhost.localdomain\n");
    reveal_strlit("127.0.1.1   ");
    reveal_strlit("127.0.0.1   localhost localhost.localdomain\n::1         localhost localhost.localdomain\n127.0.1.1   ");
    let fqdn = apply::hosts_fqdn(cfg, meta);
    let short = apply::hosts_short(cfg, meta);
    assert("127.0.0.1   localhost localhost.localdomain\n"@
        + "::1         localhost localhost.localdomain\n"@ + "127.0.1.1   "@
        =~= "127.0.0.1   localhost localhost.localdomain\n::1         localhost localhost.localdomain\n127.0.1.1   "@);
}

// ---- commands -----------------------------------------------------------

/// A command line is run by the shell, and a list of words as they are, the first
/// one being the program; an empty list runs nothing. The command is announced
/// by its number, and its failure ends nothing.
pub proof fn what_a_command_runs(i: int, c: Cmd)
    ensures
        ({
            let list = apply::command_effects(i, c, false);
            let label = "runcmd["@ + number::decimal(i) + "]"@;
            let nothing = c matches Cmd::Argv(v) && v@.len() == 0;
            &&& nothing <==> list.len() == 0
            &&& !nothing ==> {
                &&& list.len() == 2
                &&& list[1] matches EffectView::Run(run) && {
                    &&& !run.fatal
                    &&& run.success is None
                    &&& run.exit_name == "tinycloudinit: "@ + label
                    &&& run.start_context == "tinycloudinit: "@ + label + " failed to start"@
                    &&& list[0] == EffectView::Say(
                        "tinycloudinit: "@ + (label + ": "@ + (run.program + " "@ + text::join(
                            run.args,
                            " "@,
                        ))),
                    )
                    &&& c matches Cmd::Shell(s) ==> run.program == "/bin/sh"@ && run.args == seq![
                        "-c"@,
                        s@,
                    ]
                    &&& c matches Cmd::Argv(v) ==> run.program == v@[0]@ && run.args.len() + 1
                        == v@.len() && forall|k: int|
                        0 <= k < run.args.len() ==> #[trigger] run.args[k] == v@[k + 1]@
                }
            }
        }),
{
}

/// A tool has to succeed, and is named by its whole command line when it fails.
pub proof fn what_running_a_tool_does(program: Seq<char>, args: Seq<Seq<char>>)
    ensures
        effect::tool_effect(false, program, args) == EffectView::Run(
            CommandView {
                program,
                args,
                start_context: "failed to run "@ + program,
                exit_name: program + " "@ + text::join(args, " "@),
                success: None,
                fatal: true,
            },
        ),
        effect::tool_effect(true, program, args) == EffectView::Say(
            "DRY: "@ + (program + " "@ + text::join(args, " "@)),
        ),
{
}

/// User-data that is a script is stored as it is, below the state directory,
/// where only its owner can read and run it, and is then run; it has to succeed.
pub proof fn what_a_script_does(script: Seq<char>, state_dir: Seq<char>)
    ensures
        ({
            let list = apply::script_effects(script, state_dir, false);
            let path = text::path_join(state_dir, "user-script"@);
            &&& list.len() == 5
            &&& list[0] is MakeDir && list[0]->MakeDir_path == state_dir
            &&& list[1] == (EffectView::Write { path, data: vstd::utf8::encode_utf8(script) })
            &&& list[2] == (EffectView::Chmod { path, mode: 448 })
            &&& list[3] is Say
            &&& list[4] matches EffectView::Run(run) && run.program == path && run.args.len() == 0
                && run.fatal && run.success is None
            &&& apply::script_effects(script, state_dir, true) == seq![
                EffectView::Say(
                    "DRY: would run user-data script ("@ + number::decimal(
                        vstd::utf8::encode_utf8(script).len() as int,
                    ) + " bytes)"@,
                ),
            ]
        }),
{
}

// ---- steps --------------------------------------------------------------

/// User-data goes by how it begins, blanks left aside: a configuration is read, a
/// script is run, anything else is passed over with a notice, and nothing at all
/// without one. Growing and naming the host are done in any case.
pub proof fn user_data_goes_by_how_it_begins(blanks: Seq<char>, t: Seq<char>)
    requires
        forall|i: int| 0 <= i < blanks.len() ==> text::white_space(#[trigger] blanks[i]),
    ensures
        apply::user_data_steps(blanks) == seq![Step::Grow, Step::Hostname],
        apply::user_data_steps(blanks + "#cloud-config"@ + t) == seq![Step::CloudConfig],
        apply::user_data_steps(blanks + "#!"@ + t) == seq![
            Step::Grow,
            Step::Hostname,
            Step::Script,
        ],
        (t.len() > 0 && !text::white_space(t[0]) && !"#cloud-config"@.is_prefix_of(t)
            && !"#!"@.is_prefix_of(t)) ==> apply::user_data_steps(blanks + t) == seq![
            Step::Unrecognized,
            Step::Grow,
            Step::Hostname,
        ],
        apply::user_text(Some(t)) == t,
        apply::user_text(None) == Seq::<char>::empty(),
{
    reveal_strlit("#cloud-config");
    reveal_strlit("#!");
    let none = Seq::<char>::empty();
    text_laws::leading_blanks_go(blanks, none);
    assert(blanks + none =~= blanks);
    let cfg = "#cloud-config"@ + t;
    text_laws::leading_blanks_go(blanks, cfg);
    assert(blanks + "#cloud-config"@ + t =~= blanks + cfg);
    assert(cfg.subrange(0, "#cloud-config"@.len() as int) =~= "#cloud-config"@);
    let script = "#!"@ + t;
    text_laws::leading_blanks_go(blanks, script);
    assert(blanks + "#!"@ + t =~= blanks + script);
    assert(script.subrange(0, 2) =~= "#!"@);
    assert(!"#cloud-config"@.is_prefix_of(script)) by {
        if "#cloud-config"@.is_prefix_of(script) {
            assert(script.subrange(0, 13)[1] == 'c');
        }
    }
    if t.len() > 0 && !text::white_space(t[0]) {
        text_laws::leading_blanks_go(blanks, t);
    }
}

/// One if the condition holds, and zero otherwise.
spec fn once(condition: bool) -> int {
    if condition {
        1
    } else {
        0
    }
}

/// The step at a place of the list of steps.
spec fn step_at(cfg: CloudConfig, k: int) -> Step {
    let users = 2 + once(cfg.manage_etc_hosts == Some(true));
    let keys = users + cfg.users@.len();
    let files = keys + once(cfg.ssh_authorized_keys@.len() > 0);
    let commands = files + cfg.write_files@.len();
    let message = commands + cfg.runcmd@.len();
    if k == 0 {
        Step::Grow
    } else if k == 1 {
        Step::Hostname
    } else if k < users {
        Step::Hosts
    } else if k < keys {
        Step::User((k - users) as usize)
    } else if k < files {
        Step::RootKeys
    } else if k < commands {
        Step::File((k - files) as usize)
    } else if k < message {
        Step::Command((k - commands) as usize)
    } else {
        Step::FinalMessage
    }
}

spec fn step_count(cfg: CloudConfig) -> int {
    2 + once(cfg.manage_etc_hosts == Some(true)) + cfg.users@.len() + once(
        cfg.ssh_authorized_keys@.len() > 0,
    ) + cfg.write_files@.len() + cfg.runcmd@.len() + once(cfg.final_message is Some)
}

#[verifier::spinoff_prover]
proof fn lemma_step_at(cfg: CloudConfig)
    ensures
        apply::config_steps(cfg) == Seq::new(step_count(cfg) as nat, |k: int| step_at(cfg, k)),
{
    assert(apply::config_steps(cfg) =~= Seq::new(
        step_count(cfg) as nat,
        |k: int| step_at(cfg, k),
    ));
}

/// Where the steps are what they are, those that are asked for are among them.
#[verifier::spinoff_prover]
proof fn lemma_listed(cfg: CloudConfig, s: Seq<Step>, i: usize)
    requires
        cfg.users@.len() <= usize::MAX,
        cfg.write_files@.len() <= usize::MAX,
        cfg.runcmd@.len() <= usize::MAX,
        s.len() == step_count(cfg),
        forall|k: int| 0 <= k < s.len() ==> #[trigger] s[k] == step_at(cfg, k),
    ensures
        s[0] == Step::Grow,
        s[1] == Step::Hostname,
        s.contains(Step::User(i)) <==> i < cfg.users@.len(),
        s.contains(Step::File(i)) <==> i < cfg.write_files@.len(),
        s.contains(Step::Command(i)) <==> i < cfg.runcmd@.len(),
        s.contains(Step::Hosts) <==> cfg.manage_etc_hosts == Some(true),
        s.contains(Step::RootKeys) <==> cfg.ssh_authorized_keys@.len() > 0,
        s.contains(Step::FinalMessage) <==> cfg.final_message is Some,
        !s.contains(Step::CloudConfig),
        !s.contains(Step::Script),
        !s.contains(Step::Unrecognized),
{
    let users = 2 + once(cfg.manage_etc_hosts == Some(true));
    let keys = users + cfg.users@.len();
    let files = keys + once(cfg.ssh_authorized_keys@.len() > 0);
    let commands = files + cfg.write_files@.len();
    if i < cfg.users@.len() {
        assert(s[users + i] == Step::User(i));
    }
    if i < cfg.write_files@.len() {
        assert(s[files + i] == Step::File(i));
    }
    if i < cfg.runcmd@.len() {
        assert(s[commands + i] == Step::Command(i));
    }
    if cfg.manage_etc_hosts == Some(true) {
        assert(s[2] == Step::Hosts);
    }
    if cfg.ssh_authorized_keys@.len() > 0 {
        assert(s[keys] == Step::RootKeys);
    }
    if cfg.final_message is Some {
        assert(s[s.len() - 1] == Step::FinalMessage);
    }
}

/// Every user, file and command of a configuration has a step, and no other step
/// is taken but those that are asked for.
pub proof fn each_entry_has_its_step(cfg: CloudConfig, i: usize)
    requires
        cfg.users@.len() <= usize::MAX,
        cfg.write_files@.len() <= usize::MAX,
        cfg.runcmd@.len() <= usize::MAX,
    ensures
        ({
            let s = apply::config_steps(cfg);
            &&& s[0] == Step::Grow
            &&& s[1] == Step::Hostname
            &&& s.contains(Step::User(i)) <==> i < cfg.users@.len()
            &&& s.contains(Step::File(i)) <==> i < cfg.write_files@.len()
            &&& s.contains(Step::Command(i)) <==> i < cfg.runcmd@.len()
            &&& s.contains(Step::Hosts) <==> cfg.manage_etc_hosts == Some(true)
            &&& s.contains(Step::RootKeys) <==> cfg.ssh_authorized_keys@.len() > 0
            &&& s.contains(Step::FinalMessage) <==> cfg.final_message is Some
            &&& !s.contains(Step::CloudConfig) && !s.contains(Step::Script) && !s.contains(
                Step::Unrecognized,
            )
        }),
{
    lemma_step_at(cfg);
    lemma_listed(cfg, apply::config_steps(cfg), i);
}

/// No step of a configuration is taken twice. The entries of a list are taken in
/// the order of the list, the hosts file is written before users are set up, the
/// keys of root come behind the users and ahead of the files, and the final
/// message comes last.
pub proof fn steps_are_taken_in_order(cfg: CloudConfig, p: int, q: int)
    requires
        cfg.users@.len() <= usize::MAX,
        cfg.write_files@.len() <= usize::MAX,
        cfg.runcmd@.len() <= usize::MAX,
        0 <= p < q < apply::config_steps(cfg).len(),
    ensures
        ({
            let s = apply::config_steps(cfg);
            &&& s[p] != s[q]
            &&& match (s[p], s[q]) {
                (Step::User(a), Step::User(b)) => a < b,
                (Step::File(a), Step::File(b)) => a < b,
                (Step::Command(a), Step::Command(b)) => a < b,
                (Step::User(_), Step::Hosts) => false,
                (Step::RootKeys, Step::User(_)) => false,
                (Step::File(_), Step::RootKeys) => false,
                (Step::FinalMessage, _) => false,
                _ => true,
            }
        }),
{
    lemma_step_at(cfg);
}

/// Each step has the effects of what it stands for: of the entry of the list that
/// it names, and of the keys for root.
pub proof fn each_step_does_its_part(
    cfg: CloudConfig,
    user_data: Seq<char>,
    meta: MetaData,
    ctx: Ctx,
    passwd: Option<Seq<char>>,
    i: usize,
)
    ensures
        ({
            let plan = |s: Step| steps::step_plan(s, Some(cfg), user_data, meta, ctx, passwd);
            let bare = |s: Step| steps::step_plan(s, None, user_data, meta, ctx, passwd);
            let dry = ctx.dry_run;
            &&& i < cfg.users@.len() ==> plan(Step::User(i)) == Ok::<Seq<EffectView>, Seq<char>>(
                apply::entry_effects(cfg.users@[i as int], passwd, dry),
            )
            &&& i < cfg.write_files@.len() ==> plan(Step::File(i)) == apply::file_plan(
                cfg.write_files@[i as int],
                dry,
            )
            &&& i < cfg.runcmd@.len() ==> plan(Step::Command(i)) == Ok::<
                Seq<EffectView>,
                Seq<char>,
            >(apply::command_effects(i as int, cfg.runcmd@[i as int], dry))
            &&& plan(Step::Hosts) == Ok::<Seq<EffectView>, Seq<char>>(
                seq![apply::hosts_effect(cfg, meta, dry)],
            )
            &&& plan(Step::Hostname) == Ok::<Seq<EffectView>, Seq<char>>(
                apply::hostname_effects(
                    apply::short_name(
                        text::opt_text(cfg.hostname),
                        text::opt_text(cfg.fqdn),
                        text::opt_text(meta.local_hostname),
                    ),
                    dry,
                ),
            )
            &&& bare(Step::Hostname) == Ok::<Seq<EffectView>, Seq<char>>(
                apply::hostname_effects(text::opt_text(meta.local_hostname), dry),
            )
            &&& bare(Step::Script) == Ok::<Seq<EffectView>, Seq<char>>(
                apply::script_effects(user_data, ctx.state_dir@, dry),
            )
            &&& cfg.final_message matches Some(m) ==> plan(Step::FinalMessage) == Ok::<
                Seq<EffectView>,
                Seq<char>,
            >(seq![EffectView::Say(m@)])
            &&& (cfg.ssh_authorized_keys@.len() > 0 && !dry) ==> plan(Step::RootKeys) == Ok::<
                Seq<EffectView>,
                Seq<char>,
            >(
                seq![
                    EffectView::InstallKeys {
                        user: "root"@,
                        keys: text::texts(cfg.ssh_authorized_keys@),
                    },
                ],
            )
            &&& bare(Step::Unrecognized) matches Ok(list) && list.len() == 1 && list[0] is Say
        }),
{
}

// ---- files in turn ------------------------------------------------------

/// Writing replaces what a file holds, adding puts more behind it, and nothing
/// else touches a file.
pub proof fn what_effects_do_to_files(
    files: Map<Seq<char>, Seq<u8>>,
    list: Seq<EffectView>,
    e: EffectView,
)
    ensures
        ({
            let before = effect::files_after(files, list);
            let after = effect::files_after(files, list.push(e));
            &&& effect::files_after(files, Seq::<EffectView>::empty()) == files
            &&& e matches EffectView::Write { path, data } ==> after == before.insert(path, data)
            &&& e matches EffectView::Append { path, data } ==> after == before.insert(
                path,
                file_laws::held(before, path) + data,
            )
            &&& !(e is Write) && !(e is Append) ==> after == before
        }),
{
    assert(list.push(e).drop_last() =~= list);
}

} // verus!

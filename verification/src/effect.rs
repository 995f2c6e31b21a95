//! Effects: what the planning functions ask to be done to the system.
use vstd::prelude::*;
use vstd::string::*;

use crate::text;
use crate::text::joined;
use crate::Ctx;

verus! {

/// A program to run to its end.
#[derive(Debug)]
pub struct Command {
    pub program: String,
    pub args: Vec<String>,
    /// What to say, ahead of the error, when the program does not start.
    pub start_context: String,
    /// Who to say has "exited with" a status that is not success.
    pub exit_name: String,
    /// What to print when the program succeeds.
    pub success: Option<String>,
    /// Whether a failure ends everything; otherwise it is only a warning.
    pub fatal: bool,
}

/// Something to do to the system. Effects are performed in order; the first
/// one that fails ends the list.
#[derive(Debug)]
pub enum Effect {
    /// Print a line.
    Say(String),
    /// Print a line on the error stream.
    Warn(String),
    /// Run a program.
    Run(Command),
    /// Hand `input` to `chpasswd -e`.
    SetPassword { input: String, exit_name: String, success: String },
    /// Tell the kernel the host name.
    SetHostname(String),
    /// Create a directory and those above it; errors speak of `label`.
    MakeDir { path: String, label: String },
    /// Create the directory that a file is in.
    MakeParent(String),
    /// Replace the content of a file.
    Write { path: String, data: Vec<u8> },
    /// Add to the end of a file, which is created if need be.
    Append { path: String, data: Vec<u8> },
    /// Set the mode of a file or directory.
    Chmod { path: String, mode: u32 },
    /// Set the owner of a file or directory.
    Chown { path: String, uid: u32, gid: u32 },
    /// Look up `owner` and give it the file.
    Own { path: String, owner: String },
    /// Add keys to those that may log in as `user`.
    InstallKeys { user: String, keys: Vec<String> },
}

/// The contents of a [`Command`].
pub struct CommandView {
    pub program: Seq<char>,
    pub args: Seq<Seq<char>>,
    pub start_context: Seq<char>,
    pub exit_name: Seq<char>,
    pub success: Option<Seq<char>>,
    pub fatal: bool,
}

/// The contents of an [`Effect`].
pub enum EffectView {
    Say(Seq<char>),
    Warn(Seq<char>),
    Run(CommandView),
    SetPassword { input: Seq<char>, exit_name: Seq<char>, success: Seq<char> },
    SetHostname(Seq<char>),
    MakeDir { path: Seq<char>, label: Seq<char> },
    MakeParent(Seq<char>),
    Write { path: Seq<char>, data: Seq<u8> },
    Append { path: Seq<char>, data: Seq<u8> },
    Chmod { path: Seq<char>, mode: u32 },
    Chown { path: Seq<char>, uid: u32, gid: u32 },
    Own { path: Seq<char>, owner: Seq<char> },
    InstallKeys { user: Seq<char>, keys: Seq<Seq<char>> },
}

impl View for Command {
    type V = CommandView;

    open spec fn view(&self) -> CommandView {
        CommandView {
            program: self.program@,
            args: text::texts(self.args@),
            start_context: self.start_context@,
            exit_name: self.exit_name@,
            success: text::opt_text(self.success),
            fatal: self.fatal,
        }
    }
}

impl View for Effect {
    type V = EffectView;

    open spec fn view(&self) -> EffectView {
        match *self {
            Effect::Say(t) => EffectView::Say(t@),
            Effect::Warn(t) => EffectView::Warn(t@),
            Effect::Run(c) => EffectView::Run(c@),
            Effect::SetPassword { input, exit_name, success } => EffectView::SetPassword {
                input: input@,
                exit_name: exit_name@,
                success: success@,
            },
            Effect::SetHostname(t) => EffectView::SetHostname(t@),
            Effect::MakeDir { path, label } => EffectView::MakeDir { path: path@, label: label@ },
            Effect::MakeParent(path) => EffectView::MakeParent(path@),
            Effect::Write { path, data } => EffectView::Write { path: path@, data: data@ },
            Effect::Append { path, data } => EffectView::Append { path: path@, data: data@ },
            Effect::Chmod { path, mode } => EffectView::Chmod { path: path@, mode },
            Effect::Chown { path, uid, gid } => EffectView::Chown { path: path@, uid, gid },
            Effect::Own { path, owner } => EffectView::Own { path: path@, owner: owner@ },
            Effect::InstallKeys { user, keys } => EffectView::InstallKeys {
                user: user@,
                keys: text::texts(keys@),
            },
        }
    }
}

/// The contents of each effect of a list.
pub open spec fn effects(list: Seq<Effect>) -> Seq<EffectView> {
    Seq::new(list.len(), |i: int| list[i]@)
}

/// The contents of a list of effects or of an error.
pub open spec fn planned(r: Result<Vec<Effect>, String>) -> Result<Seq<EffectView>, Seq<char>> {
    match r {
        Ok(list) => Ok(effects(list@)),
        Err(e) => Err(e@),
    }
}

/// Whether the effects do nothing but print lines.
pub open spec fn only_talk(list: Seq<EffectView>) -> bool {
    forall|i: int| 0 <= i < list.len() ==> (#[trigger] list[i]) is Say
}

/// What the files of a system hold once the effects have written to them.
/// Whatever programs that are run do to files is left aside.
pub open spec fn files_after(files: Map<Seq<char>, Seq<u8>>, list: Seq<EffectView>) -> Map<
    Seq<char>,
    Seq<u8>,
>
    decreases list.len(),
{
    if list.len() == 0 {
        files
    } else {
        let before = files_after(files, list.drop_last());
        match list.last() {
            EffectView::Write { path, data } => before.insert(path, data),
            EffectView::Append { path, data } => before.insert(
                path,
                (if before.contains_key(path) {
                    before[path]
                } else {
                    Seq::<u8>::empty()
                }) + data,
            ),
            _ => before,
        }
    }
}

/// The bytes of a text in a file.
pub open spec fn file_bytes(s: Seq<char>) -> Seq<u8> {
    vstd::utf8::encode_utf8(s)
}

/// Adds an effect at the end of a list.
pub(crate) fn add_effect(list: &mut Vec<Effect>, e: Effect)
    ensures
        effects(final(list)@) == effects(old(list)@).push(e@),
{
    list.push(e);
    assert(effects(list@) =~= effects(old(list)@).push(e@));
}

/// An empty list of effects.
pub(crate) fn no_effects() -> (r: Vec<Effect>)
    ensures
        effects(r@) == Seq::<EffectView>::empty(),
{
    let r: Vec<Effect> = Vec::new();
    assert(effects(r@) =~= Seq::<EffectView>::empty());
    r
}

/// A list of one effect.
pub(crate) fn one_effect(e: Effect) -> (r: Vec<Effect>)
    ensures
        effects(r@) == seq![e@],
{
    let mut r = no_effects();
    add_effect(&mut r, e);
    assert(effects(r@) =~= seq![e@]);
    r
}

/// Moves the effects of one list to the end of another.
pub(crate) fn add_effects(list: &mut Vec<Effect>, more: Vec<Effect>)
    ensures
        effects(final(list)@) == effects(old(list)@) + effects(more@),
{
    let mut rest = more;
    list.append(&mut rest);
    assert(effects(list@) =~= effects(old(list)@) + effects(more@));
}

/// A copy of a list of texts.
pub(crate) fn copy_texts(list: &Vec<String>) -> (r: Vec<String>)
    ensures
        text::texts(r@) == text::texts(list@),
{
    copy_texts_from(list, 0)
}

/// A copy of a list of texts without the first `from` ones.
pub(crate) fn copy_texts_from(list: &Vec<String>, from: usize) -> (r: Vec<String>)
    requires
        from <= list@.len(),
    ensures
        text::texts(r@) == text::texts(list@).skip(from as int),
{
    let mut r: Vec<String> = Vec::new();
    let n: usize = list.len();
    let mut i: usize = from;
    while i < n
        invariant
            n == list@.len(),
            from <= i <= n,
            text::texts(r@) =~= text::texts(list@).subrange(from as int, i as int),
        decreases n - i,
    {
        let ghost before = text::texts(r@);
        let copy = list[i].as_str().to_owned();
        r.push(copy);
        assert(text::texts(r@) =~= before.push(copy@));
        i = i + 1;
    }
    assert(text::texts(r@) =~= text::texts(list@).skip(from as int));
    r
}

/// The words of a command line: the program and its arguments.
pub open spec fn command_line(program: Seq<char>, args: Seq<Seq<char>>) -> Seq<char> {
    program + " "@ + text::join(args, " "@)
}

/// The effect of running an administration tool: it has to succeed; a dry run
/// only shows the command line.
pub open spec fn tool_effect(dry_run: bool, program: Seq<char>, args: Seq<Seq<char>>) -> EffectView {
    if dry_run {
        EffectView::Say("DRY: "@ + command_line(program, args))
    } else {
        EffectView::Run(
            CommandView {
                program,
                args,
                start_context: "failed to run "@ + program,
                exit_name: command_line(program, args),
                success: None,
                fatal: true,
            },
        )
    }
}

/// The words of a command line.
pub(crate) fn command_line_text(program: &str, args: &Vec<String>) -> (r: String)
    ensures
        r@ == command_line(program@, text::texts(args@)),
{
    let mut m = program.to_owned();
    m.append(" ");
    m.append(joined(args, " ").as_str());
    m
}

/// Runs an administration tool.
pub fn run_tool(ctx: &Ctx, program: &str, args: Vec<String>) -> (r: Effect)
    ensures
        r@ == tool_effect(ctx.dry_run, program@, text::texts(args@)),
{
    let line = command_line_text(program, &args);
    if ctx.dry_run {
        let mut m = "DRY: ".to_owned();
        m.append(line.as_str());
        return Effect::Say(m);
    }
    let mut start_context = "failed to run ".to_owned();
    start_context.append(program);
    Effect::Run(
        Command {
            program: program.to_owned(),
            args,
            start_context,
            exit_name: line,
            success: None,
            fatal: true,
        },
    )
}

} // verus!

//! The supported subset of `meta-data` and `#cloud-config` user-data.
use base64::Engine;
use vstd::prelude::*;
use vstd::string::*;

use crate::number;
use crate::number::parse_number;
use crate::text;
use crate::text::{
    begins_with, chars_of, drop_empty, joined, same, split_text, text_of, trimmed,
    without_white_space, Cut,
};

verus! {

/// The `meta-data` of an instance.
#[derive(Debug, Default)]
pub struct MetaData {
    pub instance_id: Option<String>,
    pub local_hostname: Option<String>,
}

/// The supported keys of a `#cloud-config`.
#[derive(Debug, Default)]
pub struct CloudConfig {
    pub hostname: Option<String>,
    pub fqdn: Option<String>,
    pub manage_etc_hosts: Option<bool>,
    pub users: Vec<UserEntry>,
    pub ssh_authorized_keys: Vec<String>,
    pub write_files: Vec<WriteFile>,
    pub runcmd: Vec<Cmd>,
    pub final_message: Option<String>,
    pub growpart: Option<GrowpartVal>,
    pub resize_rootfs: Option<ResizeVal>,
}

/// Whether and what to grow.
#[derive(Debug, Clone)]
pub enum GrowpartVal {
    Enabled(bool),
    Cfg(GrowpartCfg),
}

/// The long form of the `growpart` key.
#[derive(Debug, Clone, Default)]
pub struct GrowpartCfg {
    pub mode: Option<GrowMode>,
    /// Mountpoints or partition devices; none stands for the default.
    pub devices: Vec<String>,
}

/// The mode of growing: on or off, or a word such as `auto` or `off`.
#[derive(Debug, Clone)]
pub enum GrowMode {
    Flag(bool),
    Word(String),
}

/// Whether to resize filesystems: on or off, or a word such as `noblock`.
#[derive(Debug, Clone)]
pub enum ResizeVal {
    Flag(bool),
    Word(String),
}

/// A user: a bare name or a full description.
#[derive(Debug, Clone)]
pub enum UserEntry {
    Name(String),
    Spec(UserSpec),
}

/// The description of a user.
#[derive(Debug, Clone, Default)]
pub struct UserSpec {
    pub name: String,
    pub gecos: Option<String>,
    pub shell: Option<String>,
    pub homedir: Option<String>,
    pub groups: Option<Groups>,
    pub sudo: Option<SudoVal>,
    /// Pre-hashed password (crypt(3) format), applied with `chpasswd -e`.
    pub passwd: Option<String>,
    pub lock_passwd: Option<bool>,
    pub system: Option<bool>,
    pub ssh_authorized_keys: Vec<String>,
}

/// Group names in one string or in a list.
#[derive(Debug, Clone)]
pub enum Groups {
    Str(String),
    List(Vec<String>),
}

/// What a user may do with sudo.
#[derive(Debug, Clone)]
pub enum SudoVal {
    /// A bare truth value; it is never consulted.
    Enabled(bool),
    Line(String),
    Lines(Vec<String>),
}

/// A command: a line for the shell, or a program with its arguments.
#[derive(Debug, Clone)]
pub enum Cmd {
    Shell(String),
    Argv(Vec<String>),
}

/// A file to write.
#[derive(Debug, Clone, Default)]
pub struct WriteFile {
    pub path: String,
    pub content: String,
    pub encoding: Option<String>,
    pub permissions: Option<PermVal>,
    /// "user" or "user:group"
    pub owner: Option<String>,
    pub append: bool,
}

/// File permissions: a number, or octal digits in a string.
#[derive(Debug, Clone)]
pub enum PermVal {
    Num(u32),
    Str(String),
}

impl GrowpartCfg {
    /// Whether growing is turned off: by a mode that is false, or `off`.
    pub open spec fn off(self) -> bool {
        match self.mode {
            Some(GrowMode::Flag(b)) => !b,
            Some(GrowMode::Word(w)) => w@ == "off"@,
            None => false,
        }
    }

    /// Whether growing is turned off.
    pub fn is_off(&self) -> (r: bool)
        ensures
            r == self.off(),
    {
        match &self.mode {
            Some(GrowMode::Flag(b)) => !*b,
            Some(GrowMode::Word(w)) => same(w.as_str(), "off"),
            None => false,
        }
    }
}

impl CloudConfig {
    /// Whether the filesystem is resized once its partition has grown; it is
    /// unless the configuration says `false`.
    pub open spec fn resizes(self) -> bool {
        !(self.resize_rootfs matches Some(ResizeVal::Flag(b)) && !b)
    }

    /// Whether the filesystem is resized once its partition has grown.
    pub fn resize_rootfs_enabled(&self) -> (r: bool)
        ensures
            r == self.resizes(),
    {
        match &self.resize_rootfs {
            Some(ResizeVal::Flag(b)) => *b,
            Some(ResizeVal::Word(_)) => true,
            None => true,
        }
    }
}

/// The group names in a string, which commas and spaces separate.
pub open spec fn group_names(s: Seq<char>) -> Seq<Seq<char>> {
    text::non_empty(text::split(s, Cut::Either(',', ' ')))
}

impl Groups {
    /// The groups as one list with commas between the names.
    pub open spec fn list(self) -> Seq<char> {
        match self {
            Groups::Str(s) => text::join(group_names(s@), ","@),
            Groups::List(v) => text::join(text::texts(v@), ","@),
        }
    }

    /// The groups as one list with commas between the names.
    pub fn joined(&self) -> (r: String)
        ensures
            r@ == self.list(),
    {
        match self {
            Groups::Str(s) => {
                let pieces = split_text(s.as_str(), Cut::Either(',', ' '));
                let names = drop_empty(&pieces);
                joined(&names, ",")
            },
            Groups::List(v) => joined(v, ","),
        }
    }
}

/// The octal digits in a permissions string: without white space around them
/// and without the prefix `0o`.
pub open spec fn mode_digits(s: Seq<char>) -> Seq<char> {
    let t = text::trim(s);
    if "0o"@.is_prefix_of(t) {
        t.skip("0o"@.len() as int)
    } else {
        t
    }
}

/// The mode that a `permissions:` value stands for.
pub open spec fn mode_of(p: Option<&PermVal>) -> Result<u32, Seq<char>> {
    match p {
        None => Ok(0o644),
        Some(PermVal::Num(n)) => Ok(*n),
        Some(PermVal::Str(s)) => match number::number(mode_digits(s@), 8, u32::MAX as int) {
            Ok(v) => Ok(v as u32),
            Err(e) => Err("invalid permissions '"@ + s@ + "': "@ + e.words()),
        },
    }
}

/// Resolves a `permissions:` value to a mode; without one it is 0644. Strings
/// ("0644") are octal; a number is used as it is.
pub fn parse_mode(p: Option<&PermVal>) -> (r: Result<u32, String>)
    ensures
        match r {
            Ok(m) => mode_of(p) == Ok::<u32, Seq<char>>(m),
            Err(e) => mode_of(p) == Err::<u32, Seq<char>>(e@),
        },
{
    match p {
        None => Ok(0o644),
        Some(PermVal::Num(n)) => Ok(*n),
        Some(PermVal::Str(s)) => {
            let mut t = trimmed(s.as_str());
            if begins_with(t.as_str(), "0o") {
                let chars = chars_of(t.as_str());
                let skip: usize = chars_of("0o").len();
                let ghost whole = t@;
                t = text_of(&chars, skip, chars.len());
                assert(t@ =~= whole.skip("0o"@.len() as int));
            }
            match parse_number(t.as_str(), 8, 0xffff_ffff) {
                Ok(v) => Ok(v as u32),
                Err(e) => {
                    let mut m = "invalid permissions '".to_owned();
                    m.append(s.as_str());
                    m.append("': ");
                    m.append(e.message());
                    Err(m)
                },
            }
        },
    }
}

/// What the standard base64 engine makes of a text: the bytes that it stands
/// for, or the words of the error.
pub uninterp spec fn base64_decoded(encoded: Seq<u8>) -> Result<Seq<u8>, Seq<char>>;

/// `Engine::decode` of the crate `base64`, with the `STANDARD` engine: the
/// standard alphabet, canonical padding required. The result depends on the
/// input alone; an error is given as the text that its `Display` prints.
#[verifier::external_body]
fn base64_standard_decode(encoded: &[u8]) -> (r: Result<Vec<u8>, String>)
    ensures
        match r {
            Ok(b) => base64_decoded(encoded@) == Ok::<Seq<u8>, Seq<char>>(b@),
            Err(e) => base64_decoded(encoded@) == Err::<Seq<u8>, Seq<char>>(e@),
        },
{
    base64::engine::general_purpose::STANDARD.decode(encoded).map_err(|e| e.to_string())
}

/// The content that decoding base64 came to.
pub open spec fn base64_content(decoded: Result<Seq<u8>, Seq<char>>) -> Result<
    Seq<u8>,
    Seq<char>,
> {
    match decoded {
        Ok(b) => Ok(b),
        Err(e) => Err("invalid base64 content: "@ + e),
    }
}

/// The bytes of file content or an error, by their contents.
pub open spec fn content_view(r: Result<Vec<u8>, String>) -> Result<Seq<u8>, Seq<char>> {
    match r {
        Ok(b) => Ok(b@),
        Err(e) => Err(e@),
    }
}

/// The bytes to write for a text in an encoding; no encoding means plain text.
pub open spec fn decoded_content(content: Seq<char>, encoding: Option<Seq<char>>) -> Result<
    Seq<u8>,
    Seq<char>,
> {
    let name = match encoding {
        Some(e) => e,
        None => "plain"@,
    };
    if name.len() == 0 || name == "plain"@ || name == "text/plain"@ {
        Ok(vstd::utf8::encode_utf8(content))
    } else if name == "b64"@ || name == "base64"@ {
        base64_content(
            base64_decoded(
                vstd::utf8::encode_utf8(content.filter(|c: char| !text::white_space(c))),
            ),
        )
    } else {
        Err("unsupported write_files encoding '"@ + name + "'"@)
    }
}

/// Turns the outcome of decoding base64 into file content.
pub fn accept_base64(decoded: Result<Vec<u8>, String>) -> (r: Result<Vec<u8>, String>)
    ensures
        content_view(r) == base64_content(content_view(decoded)),
{
    match decoded {
        Ok(b) => Ok(b),
        Err(e) => {
            let mut m = "invalid base64 content: ".to_owned();
            m.append(e.as_str());
            Err(m)
        },
    }
}

/// The bytes to write for `content` in the given encoding: plain text as it
/// is, base64 decoded once white space has been removed.
pub fn decode_content(content: &str, encoding: Option<&str>) -> (r: Result<Vec<u8>, String>)
    ensures
        content_view(r) == decoded_content(content@, text::opt_str(encoding)),
{
    let name: &str = match encoding {
        Some(e) => e,
        None => "plain",
    };
    if name.is_empty() || same(name, "plain") || same(name, "text/plain") {
        return Ok(content.as_bytes_vec());
    }
    if same(name, "b64") || same(name, "base64") {
        let cleaned = without_white_space(content);
        return accept_base64(base64_standard_decode(cleaned.as_str().as_bytes()));
    }
    let mut m = "unsupported write_files encoding '".to_owned();
    m.append(name);
    m.append("'");
    Err(m)
}

} // verus!

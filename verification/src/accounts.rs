//! The account files `/etc/passwd` and `/etc/group`, and who owns a file.
use vstd::prelude::*;
use vstd::string::*;

use crate::effect::{Effect, EffectView};
use crate::number;
use crate::number::parse_number;
use crate::text;
use crate::text::{cut_at, lines_of, same, split_text, Cut};

verus! {

/// A user account, as far as it is needed.
#[derive(Debug)]
pub struct Account {
    pub uid: u32,
    pub gid: u32,
    pub home: String,
}

/// The contents of an [`Account`].
pub struct AccountView {
    pub uid: u32,
    pub gid: u32,
    pub home: Seq<char>,
}

impl View for Account {
    type V = AccountView;

    open spec fn view(&self) -> AccountView {
        AccountView { uid: self.uid, gid: self.gid, home: self.home@ }
    }
}

/// The contents of an account, if there is one.
pub open spec fn opt_account(a: Option<Account>) -> Option<AccountView> {
    match a {
        Some(x) => Some(x@),
        None => None,
    }
}

/// The fields of the first line that has at least `width` of them, between
/// colons, and `name` in the first one.
pub open spec fn record(rows: Seq<Seq<char>>, name: Seq<char>, width: int) -> Option<Seq<Seq<char>>>
    decreases rows.len(),
{
    if rows.len() == 0 {
        None
    } else {
        let fields = text::split(rows[0], Cut::At(':'));
        if fields.len() >= width && fields[0] == name {
            Some(fields)
        } else {
            record(rows.drop_first(), name, width)
        }
    }
}

/// The account of a user in the text of a passwd file. A line whose ids are no
/// numbers hides the user.
pub open spec fn account(data: Option<Seq<char>>, name: Seq<char>) -> Option<AccountView> {
    match data {
        None => None,
        Some(d) => match record(text::lines(d), name, 6) {
            None => None,
            Some(f) => match (
                number::number(f[2], 10, u32::MAX as int),
                number::number(f[3], 10, u32::MAX as int),
            ) {
                (Ok(uid), Ok(gid)) => Some(
                    AccountView { uid: uid as u32, gid: gid as u32, home: f[5] },
                ),
                _ => None,
            },
        },
    }
}

/// The id of a group in the text of a group file.
pub open spec fn group(data: Option<Seq<char>>, name: Seq<char>) -> Option<u32> {
    match data {
        None => None,
        Some(d) => match record(text::lines(d), name, 3) {
            None => None,
            Some(f) => match number::number(f[2], 10, u32::MAX as int) {
                Ok(gid) => Some(gid as u32),
                Err(_) => None,
            },
        },
    }
}

fn find_record(data: &str, name: &str, width: usize) -> (r: Option<Vec<String>>)
    requires
        width >= 1,
    ensures
        match r {
            Some(f) => record(text::lines(data@), name@, width as int) == Some(text::texts(f@)),
            None => record(text::lines(data@), name@, width as int) is None,
        },
        r matches Some(f) ==> f@.len() >= width,
{
    let rows = lines_of(data);
    let n: usize = rows.len();
    let ghost all = text::texts(rows@);
    let mut i: usize = 0;
    assert(all.skip(0) =~= all);
    while i < n
        invariant
            n == rows@.len(),
            all == text::texts(rows@),
            all == text::lines(data@),
            0 <= i <= n,
            width >= 1,
            record(all, name@, width as int) == record(all.skip(i as int), name@, width as int),
        decreases n - i,
    {
        let fields = split_text(rows[i].as_str(), Cut::At(':'));
        assert(all.skip(i as int)[0] == rows@[i as int]@);
        assert(all.skip(i as int).drop_first() =~= all.skip(i + 1));
        assert(text::texts(fields@)[0] == fields@[0]@);
        if fields.len() >= width && same(fields[0].as_str(), name) {
            return Some(fields);
        }
        i = i + 1;
    }
    None
}

/// The uid, gid and home of a user, from the text of `/etc/passwd` if it could
/// be read.
pub fn passwd_entry(data: Option<&str>, name: &str) -> (r: Option<Account>)
    ensures
        opt_account(r) == account(text::opt_str(data), name@),
{
    let d: &str = match data {
        Some(d) => d,
        None => return None,
    };
    let f = match find_record(d, name, 6) {
        Some(f) => f,
        None => return None,
    };
    assert(text::texts(f@)[2] == f@[2]@);
    assert(text::texts(f@)[3] == f@[3]@);
    assert(text::texts(f@)[5] == f@[5]@);
    match (
        parse_number(f[2].as_str(), 10, 0xffff_ffff),
        parse_number(f[3].as_str(), 10, 0xffff_ffff),
    ) {
        (Ok(uid), Ok(gid)) => Some(
            Account { uid: uid as u32, gid: gid as u32, home: f[5].as_str().to_owned() },
        ),
        _ => None,
    }
}

/// The id of a group, from the text of `/etc/group` if it could be read.
pub fn group_id(data: Option<&str>, name: &str) -> (r: Option<u32>)
    ensures
        r == group(text::opt_str(data), name@),
{
    let d: &str = match data {
        Some(d) => d,
        None => return None,
    };
    let f = match find_record(d, name, 3) {
        Some(f) => f,
        None => return None,
    };
    assert(text::texts(f@)[2] == f@[2]@);
    match parse_number(f[2].as_str(), 10, 0xffff_ffff) {
        Ok(gid) => Some(gid as u32),
        Err(_) => None,
    }
}

/// The user in an owner `user` or `user:group`.
pub open spec fn owner_user(owner: Seq<char>) -> Seq<char> {
    text::before(owner, ':')
}

/// The group in an owner `user` or `user:group`; empty if there is none.
pub open spec fn owner_group(owner: Seq<char>) -> Seq<char> {
    match text::after(owner, ':') {
        Some(g) => g,
        None => Seq::<char>::empty(),
    }
}

/// The effect that gives a file to its owner. Without a group it goes to the
/// user's own group.
pub open spec fn ownership(
    path: Seq<char>,
    owner: Seq<char>,
    passwd: Option<Seq<char>>,
    groups: Option<Seq<char>>,
) -> Result<EffectView, Seq<char>> {
    match account(passwd, owner_user(owner)) {
        None => Err("write_files owner '"@ + owner_user(owner) + "' not found"@),
        Some(a) => if owner_group(owner).len() == 0 {
            Ok(EffectView::Chown { path, uid: a.uid, gid: a.gid })
        } else {
            match group(groups, owner_group(owner)) {
                None => Err("write_files group '"@ + owner_group(owner) + "' not found"@),
                Some(gid) => Ok(EffectView::Chown { path, uid: a.uid, gid }),
            }
        },
    }
}

/// The contents of an effect or of an error.
pub open spec fn effect_result(r: Result<Effect, String>) -> Result<EffectView, Seq<char>> {
    match r {
        Ok(e) => Ok(e@),
        Err(e) => Err(e@),
    }
}

/// Looks up the owner of a written file in the texts of the account files.
pub fn file_owner(path: &str, owner: &str, passwd: Option<&str>, groups: Option<&str>) -> (r: Result<
    Effect,
    String,
>)
    ensures
        effect_result(r) == ownership(
            path@,
            owner@,
            text::opt_str(passwd),
            text::opt_str(groups),
        ),
{
    let (user, rest) = cut_at(owner, ':');
    let group_name = match rest {
        Some(g) => g,
        None => String::new(),
    };
    assert(group_name@ =~= owner_group(owner@));
    let a = match passwd_entry(passwd, user.as_str()) {
        Some(a) => a,
        None => {
            let mut m = "write_files owner '".to_owned();
            m.append(user.as_str());
            m.append("' not found");
            return Err(m);
        },
    };
    if group_name.as_str().is_empty() {
        return Ok(Effect::Chown { path: path.to_owned(), uid: a.uid, gid: a.gid });
    }
    match group_id(groups, group_name.as_str()) {
        Some(gid) => Ok(Effect::Chown { path: path.to_owned(), uid: a.uid, gid }),
        None => {
            let mut m = "write_files group '".to_owned();
            m.append(group_name.as_str());
            m.append("' not found");
            Err(m)
        },
    }
}

} // verus!

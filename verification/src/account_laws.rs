//! What holds of account files, owners and keys.
use vstd::prelude::*;

use crate::accounts;
use crate::accounts::AccountView;
use crate::effect::EffectView;
use crate::number;
use crate::ssh_keys;
use crate::text;
use crate::text_laws;

verus! {

/// Whether a text is one line of an account file: it has no line break, and no
/// carriage return at its end.
pub open spec fn is_row(row: Seq<char>) -> bool {
    &&& forall|i: int| 0 <= i < row.len() ==> #[trigger] row[i] != '\n'
    &&& row.len() == 0 || row.last() != '\r'
}

/// Whether the fields can stand between colons.
pub open spec fn are_fields(fields: Seq<Seq<char>>) -> bool {
    &&& fields.len() > 0
    &&& forall|i: int, k: int|
        0 <= i < fields.len() && 0 <= k < fields[i].len() ==> #[trigger] fields[i][k] != ':'
}

proof fn lemma_row(
    fields: Seq<Seq<char>>,
    row: Seq<char>,
    rest: Seq<char>,
    name: Seq<char>,
    width: int,
)
    requires
        are_fields(fields),
        row == text::join(fields, seq![':']),
        is_row(row),
    ensures
        ({
            let hit = fields.len() >= width && fields[0] == name;
            let all = accounts::record(text::lines(row.push('\n') + rest), name, width);
            &&& hit ==> all == Some(fields)
            &&& !hit ==> all == accounts::record(text::lines(rest), name, width)
            &&& row.len() > 0 && hit ==> accounts::record(text::lines(row), name, width) == Some(
                fields,
            )
            &&& row.len() > 0 && !hit ==> accounts::record(text::lines(row), name, width) is None
        }),
        accounts::record(text::lines(Seq::<char>::empty()), name, width) is None,
{
    text_laws::text_line_by_line(row, rest);
    text_laws::joined_pieces_are_found(fields, ':');
    let rows = text::lines(row.push('\n') + rest);
    assert(rows[0] == row);
    assert(rows.drop_first() =~= text::lines(rest));
    assert(seq![row].drop_first() =~= Seq::<Seq<char>>::empty());
    assert(accounts::record(seq![row].drop_first(), name, width) is None);
}

/// The first line of a user decides: one with at least six fields between
/// colons, the first of them the name. The third and fourth are the ids and the
/// sixth is the home; where an id is no number there is no account. Any other
/// line is passed over, and without a file there is no account.
pub proof fn the_first_line_of_a_user_decides(
    fields: Seq<Seq<char>>,
    row: Seq<char>,
    rest: Seq<char>,
    name: Seq<char>,
)
    requires
        are_fields(fields),
        row == text::join(fields, seq![':']),
        is_row(row),
    ensures
        ({
            let r = accounts::account(Some(row.push('\n') + rest), name);
            let hit = fields.len() >= 6 && fields[0] == name;
            let uid = number::number(fields[2], 10, 0xffff_ffff);
            let gid = number::number(fields[3], 10, 0xffff_ffff);
            &&& hit && uid is Ok && gid is Ok ==> r == Some(
                AccountView { uid: uid->Ok_0 as u32, gid: gid->Ok_0 as u32, home: fields[5] },
            )
            &&& hit && !(uid is Ok && gid is Ok) ==> r is None
            &&& !hit ==> r == accounts::account(Some(rest), name)
            &&& row.len() > 0 && hit ==> accounts::account(Some(row), name) == r
            &&& row.len() > 0 && !hit ==> accounts::account(Some(row), name) is None
        }),
        accounts::account(Some(Seq::<char>::empty()), name) is None,
        accounts::account(None, name) is None,
{
    lemma_row(fields, row, rest, name, 6);
}

/// The first line of a group decides, in the same way: its third field is the id.
pub proof fn the_first_line_of_a_group_decides(
    fields: Seq<Seq<char>>,
    row: Seq<char>,
    rest: Seq<char>,
    name: Seq<char>,
)
    requires
        are_fields(fields),
        row == text::join(fields, seq![':']),
        is_row(row),
    ensures
        ({
            let r = accounts::group(Some(row.push('\n') + rest), name);
            let hit = fields.len() >= 3 && fields[0] == name;
            let gid = number::number(fields[2], 10, 0xffff_ffff);
            &&& hit && gid is Ok ==> r == Some(gid->Ok_0 as u32)
            &&& hit && gid is Err ==> r is None
            &&& !hit ==> r == accounts::group(Some(rest), name)
            &&& row.len() > 0 && hit ==> accounts::group(Some(row), name) == r
            &&& row.len() > 0 && !hit ==> accounts::group(Some(row), name) is None
        }),
        accounts::group(Some(Seq::<char>::empty()), name) is None,
        accounts::group(None, name) is None,
{
    lemma_row(fields, row, rest, name, 3);
}

/// A file goes to the user in front of the colon and the group behind it, and to
/// the user's own group where none is named. It is refused exactly if the user,
/// or a group that is named, is not there.
pub proof fn who_gets_a_file(
    path: Seq<char>,
    user: Seq<char>,
    named: Seq<char>,
    passwd: Option<Seq<char>>,
    groups: Option<Seq<char>>,
)
    requires
        forall|i: int| 0 <= i < user.len() ==> #[trigger] user[i] != ':',
    ensures
        ({
            let both = accounts::ownership(path, user.push(':') + named, passwd, groups);
            let alone = accounts::ownership(path, user, passwd, groups);
            match accounts::account(passwd, user) {
                None => both == alone && alone == Err::<EffectView, Seq<char>>(
                    "write_files owner '"@ + user + "' not found"@,
                ),
                Some(a) => {
                    let own = EffectView::Chown { path, uid: a.uid, gid: a.gid };
                    &&& alone == Ok::<EffectView, Seq<char>>(own)
                    &&& named.len() == 0 ==> both == Ok::<EffectView, Seq<char>>(own)
                    &&& named.len() > 0 ==> match accounts::group(groups, named) {
                        Some(gid) => both == Ok::<EffectView, Seq<char>>(
                            EffectView::Chown { path, uid: a.uid, gid },
                        ),
                        None => both == Err::<EffectView, Seq<char>>(
                            "write_files group '"@ + named + "' not found"@,
                        ),
                    }
                },
            }
        }),
{
    text_laws::parted_at_the_first(user, ':', named);
}

/// A key is on a line of its own, blanks left aside, in a file that has it.
pub open spec fn on_a_line(content: Seq<char>, key: Seq<char>) -> bool {
    exists|i: int|
        0 <= i < text::lines(content).len() && text::trim(#[trigger] text::lines(content)[i]) == key
}

/// Keys are merged one by one. A key that is not blank and not on a line already
/// is added on a line of its own, without the blanks around it, behind all that
/// is there; any other key changes nothing. Keys that were added are counted.
pub proof fn keys_are_merged_one_by_one(content: Seq<char>, keys: Seq<Seq<char>>, key: Seq<char>)
    ensures
        ({
            let before = ssh_keys::merged(content, keys);
            let after = ssh_keys::merged(content, keys.push(key));
            let k = text::trim(key);
            let new = k.len() > 0 && !on_a_line(before, k);
            &&& ssh_keys::merged(content, Seq::<Seq<char>>::empty()) == content
            &&& ssh_keys::added(content, Seq::<Seq<char>>::empty()) == 0
            &&& !new ==> after == before
            &&& new && (before.len() == 0 || before.last() == '\n') ==> after == before + k
                + seq!['\n']
            &&& new && before.len() > 0 && before.last() != '\n' ==> after == before + seq!['\n']
                + k + seq!['\n']
            &&& ssh_keys::added(content, keys.push(key)) == ssh_keys::added(content, keys) + (
            if new {
                1int
            } else {
                0
            })
        }),
{
    let before = ssh_keys::merged(content, keys);
    let k = text::trim(key);
    assert(keys.push(key).drop_last() =~= keys);
    assert(on_a_line(before, k) == ssh_keys::has_key(before, k));
    assert((before + k).push('\n') =~= before + k + seq!['\n']);
    assert((before.push('\n') + k).push('\n') =~= before + seq!['\n'] + k + seq!['\n']);
}

/// Installing keys for a user makes the directory for them below the home, for
/// the user alone, writes the merged file, for the user alone, and gives both to
/// the user; it is refused exactly if there is no such user.
pub proof fn what_installing_keys_does(
    user: Seq<char>,
    keys: Seq<Seq<char>>,
    passwd: Option<Seq<char>>,
    content: Seq<char>,
)
    ensures
        ({
            let r = ssh_keys::keys_plan(user, keys, false, passwd, content);
            match accounts::account(passwd, user) {
                None => r == Err::<Seq<EffectView>, Seq<char>>(
                    "user '"@ + user + "' not found for ssh keys"@,
                ),
                Some(a) => {
                    let dir = text::path_join(a.home, ".ssh"@);
                    let file = text::path_join(dir, "authorized_keys"@);
                    &&& r is Ok
                    &&& r->Ok_0.len() == 7
                    &&& r->Ok_0[0] is MakeDir && r->Ok_0[0]->MakeDir_path == dir
                    &&& r->Ok_0[1] == (EffectView::Chmod { path: dir, mode: 448 })
                    &&& r->Ok_0[2] == (EffectView::Write {
                        path: file,
                        data: vstd::utf8::encode_utf8(ssh_keys::merged(content, keys)),
                    })
                    &&& r->Ok_0[3] == (EffectView::Chmod { path: file, mode: 384 })
                    &&& r->Ok_0[4] == (EffectView::Chown { path: dir, uid: a.uid, gid: a.gid })
                    &&& r->Ok_0[5] == (EffectView::Chown { path: file, uid: a.uid, gid: a.gid })
                    &&& r->Ok_0[6] == EffectView::Say(
                        "tinycloudinit: installed "@ + number::decimal(
                            ssh_keys::added(content, keys),
                        ) + " ssh key(s) for '"@ + user + "'"@,
                    )
                },
            }
        }),
        ssh_keys::keys_plan(user, keys, true, passwd, content) == Ok::<Seq<EffectView>, Seq<char>>(
            seq![
                EffectView::Say(
                    "DRY: would install "@ + number::decimal(keys.len() as int)
                        + " ssh key(s) for '"@ + user + "'"@,
                ),
            ],
        ),
{
}

} // verus!

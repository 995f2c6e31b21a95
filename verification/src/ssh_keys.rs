//! Keys that may log in: merging them into an `authorized_keys` file.
use vstd::prelude::*;
use vstd::string::*;

use crate::accounts;
use crate::accounts::{passwd_entry, AccountView};
use crate::effect;
use crate::effect::{add_effect, no_effects, one_effect, Effect, EffectView};
use crate::number;
use crate::number::decimal_text;
use crate::text;
use crate::text::{chars_of, joined_path, lines_of, same, trimmed, Cut};
use crate::text_laws;
use crate::Ctx;

verus! {

/// Whether a key stands alone on a line of the file.
pub open spec fn has_key(content: Seq<char>, key: Seq<char>) -> bool {
    exists|i: int|
        0 <= i < text::lines(content).len() && text::trim(#[trigger] text::lines(content)[i]) == key
}

/// The content with a line break at its end, unless it is empty.
pub open spec fn ended(content: Seq<char>) -> Seq<char> {
    if content.len() > 0 && content.last() != '\n' {
        content.push('\n')
    } else {
        content
    }
}

/// Whether a key is added to the content: it is neither blank nor there.
pub open spec fn wanted(content: Seq<char>, key: Seq<char>) -> bool {
    text::trim(key).len() > 0 && !has_key(content, text::trim(key))
}

/// The content once the keys have been merged into it, in order.
pub open spec fn merged(content: Seq<char>, keys: Seq<Seq<char>>) -> Seq<char>
    decreases keys.len(),
{
    if keys.len() == 0 {
        content
    } else {
        let before = merged(content, keys.drop_last());
        if wanted(before, keys.last()) {
            (ended(before) + text::trim(keys.last())).push('\n')
        } else {
            before
        }
    }
}

/// How many of the keys are added.
pub open spec fn added(content: Seq<char>, keys: Seq<Seq<char>>) -> int
    decreases keys.len(),
{
    if keys.len() == 0 {
        0
    } else {
        added(content, keys.drop_last()) + (if wanted(
            merged(content, keys.drop_last()),
            keys.last(),
        ) {
            1int
        } else {
            0int
        })
    }
}

/// The directory of a home that holds the keys.
pub open spec fn ssh_dir(home: Seq<char>) -> Seq<char> {
    text::path_join(home, ".ssh"@)
}

/// The file of a home that holds the keys.
pub open spec fn key_file(home: Seq<char>) -> Seq<char> {
    text::path_join(ssh_dir(home), "authorized_keys"@)
}

/// What a dry run says instead of adding keys.
pub open spec fn keys_announced(user: Seq<char>, count: int) -> EffectView {
    EffectView::Say(
        "DRY: would install "@ + number::decimal(count) + " ssh key(s) for '"@ + user + "'"@,
    )
}

/// The effects of adding keys to an account whose file holds `content`.
pub open spec fn keys_installed(
    user: Seq<char>,
    keys: Seq<Seq<char>>,
    a: AccountView,
    content: Seq<char>,
) -> Seq<EffectView> {
    let dir = ssh_dir(a.home);
    let file = key_file(a.home);
    seq![
        EffectView::MakeDir { path: dir, label: dir },
        EffectView::Chmod { path: dir, mode: 0o700 },
        EffectView::Write { path: file, data: effect::file_bytes(merged(content, keys)) },
        EffectView::Chmod { path: file, mode: 0o600 },
        EffectView::Chown { path: dir, uid: a.uid, gid: a.gid },
        EffectView::Chown { path: file, uid: a.uid, gid: a.gid },
        EffectView::Say(
            "tinycloudinit: installed "@ + number::decimal(added(content, keys))
                + " ssh key(s) for '"@ + user + "'"@,
        ),
    ]
}

/// What adding keys for a user comes to.
pub open spec fn keys_plan(
    user: Seq<char>,
    keys: Seq<Seq<char>>,
    dry_run: bool,
    passwd: Option<Seq<char>>,
    content: Seq<char>,
) -> Result<Seq<EffectView>, Seq<char>> {
    if dry_run {
        Ok(seq![keys_announced(user, keys.len() as int)])
    } else {
        match accounts::account(passwd, user) {
            None => Err("user '"@ + user + "' not found for ssh keys"@),
            Some(a) => Ok(keys_installed(user, keys, a, content)),
        }
    }
}

fn key_present(content: &str, key: &str) -> (r: bool)
    ensures
        r == has_key(content@, key@),
{
    let rows = lines_of(content);
    let n: usize = rows.len();
    let ghost all = text::texts(rows@);
    let mut i: usize = 0;
    while i < n
        invariant
            n == rows@.len(),
            all == text::texts(rows@),
            all == text::lines(content@),
            0 <= i <= n,
            forall|k: int| 0 <= k < i ==> text::trim(#[trigger] all[k]) != key@,
        decreases n - i,
    {
        assert(all[i as int] == rows@[i as int]@);
        if same(trimmed(rows[i].as_str()).as_str(), key) {
            return true;
        }
        i = i + 1;
    }
    false
}

/// Merges keys into the content of a key file; returns how many were added.
pub fn merge_keys(content: &mut String, keys: &Vec<String>) -> (count: usize)
    ensures
        final(content)@ == merged(old(content)@, text::texts(keys@)),
        count == added(old(content)@, text::texts(keys@)),
{
    let n: usize = keys.len();
    let ghost start = content@;
    let ghost all = text::texts(keys@);
    let mut count: usize = 0;
    let mut i: usize = 0;
    while i < n
        invariant
            n == keys@.len(),
            all == text::texts(keys@),
            start == old(content)@,
            0 <= i <= n,
            count <= i,
            content@ == merged(start, all.take(i as int)),
            count == added(start, all.take(i as int)),
        decreases n - i,
    {
        let key = trimmed(keys[i].as_str());
        proof {
            assert(all.take(i + 1).drop_last() =~= all.take(i as int));
            assert(all.take(i + 1).last() == keys@[i as int]@);
        }
        if !key.as_str().is_empty() && !key_present(content.as_str(), key.as_str()) {
            let ghost before = content@;
            let chars = chars_of(content.as_str());
            let len: usize = chars.len();
            if len > 0 && chars[len - 1] != '\n' {
                content.push('\n');
            }
            content.append(key.as_str());
            content.push('\n');
            count = count + 1;
            assert(content@ =~= (ended(before) + key@).push('\n'));
        }
        i = i + 1;
    }
    assert(all.take(n as int) =~= all);
    count
}

/// Where the keys of a user are kept, if the user is known.
pub fn authorized_keys_path(passwd: Option<&str>, user: &str) -> (r: Option<String>)
    ensures
        text::opt_text(r) == match accounts::account(text::opt_str(passwd), user@) {
            Some(a) => Some(key_file(a.home)),
            None => None,
        },
{
    match passwd_entry(passwd, user) {
        Some(a) => {
            let dir = joined_path(a.home.as_str(), ".ssh");
            Some(joined_path(dir.as_str(), "authorized_keys"))
        },
        None => None,
    }
}

/// What a dry run says instead of adding keys.
pub(crate) fn announce_keys(user: &str, count: usize) -> (r: Effect)
    ensures
        r@ == keys_announced(user@, count as int),
{
    let mut m = "DRY: would install ".to_owned();
    m.append(decimal_text(count as u64).as_str());
    m.append(" ssh key(s) for '");
    m.append(user);
    m.append("'");
    Effect::Say(m)
}

/// Adds keys for a user, given the text of `/etc/passwd` if it could be read
/// and the present content of the user's key file, empty if there is none.
pub fn install_ssh_keys(
    user: &str,
    keys: &Vec<String>,
    ctx: &Ctx,
    passwd: Option<&str>,
    content: &str,
) -> (r: Result<Vec<Effect>, String>)
    ensures
        effect::planned(r) == keys_plan(
            user@,
            text::texts(keys@),
            ctx.dry_run,
            text::opt_str(passwd),
            content@,
        ),
{
    if ctx.dry_run {
        return Ok(one_effect(announce_keys(user, keys.len())));
    }
    let a = match passwd_entry(passwd, user) {
        Some(a) => a,
        None => {
            let mut m = "user '".to_owned();
            m.append(user);
            m.append("' not found for ssh keys");
            return Err(m);
        },
    };
    let dir = joined_path(a.home.as_str(), ".ssh");
    let file = joined_path(dir.as_str(), "authorized_keys");
    let mut text = content.to_owned();
    let count: usize = merge_keys(&mut text, keys);
    let mut list = no_effects();
    add_effect(
        &mut list,
        Effect::MakeDir { path: dir.as_str().to_owned(), label: dir.as_str().to_owned() },
    );
    add_effect(&mut list, Effect::Chmod { path: dir.as_str().to_owned(), mode: 0o700 });
    add_effect(
        &mut list,
        Effect::Write { path: file.as_str().to_owned(), data: text.as_str().as_bytes_vec() },
    );
    add_effect(&mut list, Effect::Chmod { path: file.as_str().to_owned(), mode: 0o600 });
    add_effect(
        &mut list,
        Effect::Chown { path: dir.as_str().to_owned(), uid: a.uid, gid: a.gid },
    );
    add_effect(&mut list, Effect::Chown { path: file, uid: a.uid, gid: a.gid });
    let mut m = "tinycloudinit: installed ".to_owned();
    m.append(decimal_text(count as u64).as_str());
    m.append(" ssh key(s) for '");
    m.append(user);
    m.append("'");
    add_effect(&mut list, Effect::Say(m));
    assert(effect::effects(list@) =~= keys_installed(user@, text::texts(keys@), a@, content@));
    Ok(list)
}

/// Merging keys never removes anything: the content stays, in front.
pub proof fn merging_keeps_content(content: Seq<char>, keys: Seq<Seq<char>>)
    ensures
        content.is_prefix_of(merged(content, keys)),
    decreases keys.len(),
{
    if keys.len() > 0 {
        merging_keeps_content(content, keys.drop_last());
        let before = merged(content, keys.drop_last());
        let after = merged(content, keys);
        assert(after.take(before.len() as int) =~= before);
        assert(after.take(content.len() as int) =~= before.take(content.len() as int));
    }
}

/// Whether a key is on one line.
pub open spec fn one_line(key: Seq<char>) -> bool {
    !key.contains('\n')
}

/// A line break at the end changes none of the lines, but that it takes a
/// carriage return before it away.
proof fn lemma_ended_lines(s: Seq<char>)
    ensures
        text::lines(ended(s)).len() == text::lines(s).len(),
        forall|i: int|
            0 <= i < text::lines(s).len() ==> #[trigger] text::lines(ended(s))[i]
                == text::lines(s)[i] || text::lines(ended(s))[i] == text::strip_cr(
                text::lines(s)[i],
            ),
{
    let cut = Cut::At('\n');
    text_laws::last_piece(s, cut);
    let parts = text::split(s, cut);
    if s.len() > 0 && s.last() != '\n' {
        assert(ended(s).drop_last() =~= s);
        assert(text::split(ended(s), cut) == parts.push(Seq::<char>::empty()));
    }
}

proof fn lemma_strip_cr_trim(s: Seq<char>)
    ensures
        text::trim(text::strip_cr(s)) == text::trim(s),
{
    if s.len() > 0 && s.last() == '\r' {
        text_laws::trailing_blank_is_trimmed(s);
    }
}

/// What a line adds to a content that ends in a line break.
proof fn lemma_line_added(s: Seq<char>, line: Seq<char>)
    requires
        one_line(line),
        line.len() > 0,
        line.last() != '\r',
        s.len() > 0 ==> s.last() == '\n',
    ensures
        text::lines((s + line).push('\n')) == text::lines(s).push(line),
{
    let cut = Cut::At('\n');
    assert forall|i: int| 0 <= i < line.len() implies !cut.cuts(#[trigger] line[i]) by {
        assert(line.contains(line[i]));
    }
    text_laws::split_without_cut(line, cut);
    let whole = s + line;
    assert(whole.push('\n').drop_last() =~= whole);
    text_laws::last_piece(s, cut);
    let parts = text::split(s, cut);
    if s.len() > 0 {
        assert(s.drop_last().push('\n') =~= s);
        text_laws::split_at_cut(s.drop_last(), '\n', line, cut);
        assert(text::split(whole, cut) == text::split(s.drop_last(), cut) + seq![line]);
        assert(parts == text::split(s.drop_last(), cut).push(Seq::<char>::empty()));
        assert(parts.drop_last() =~= text::split(s.drop_last(), cut));
    } else {
        assert(whole =~= line);
        assert(parts =~= seq![Seq::<char>::empty()]);
        assert(parts.drop_last() + seq![line] =~= seq![line]);
    }
    assert(text::split(whole, cut) == parts.drop_last() + seq![line]);
    assert(text::split(whole.push('\n'), cut) == text::split(whole, cut).push(
        Seq::<char>::empty(),
    ));
    assert(text::lines(whole.push('\n')) =~= text::lines(s).push(line));
}

/// Whatever is put behind a content that ends in a line break leaves its lines
/// as they are.
proof fn lemma_lines_stay(s: Seq<char>, more: Seq<char>)
    requires
        s.len() > 0 ==> s.last() == '\n',
    ensures
        text::lines(s).is_prefix_of(text::lines(s + more)),
{
    let cut = Cut::At('\n');
    text_laws::last_piece(s, cut);
    text_laws::last_piece(more, cut);
    if s.len() > 0 {
        let head = s.drop_last();
        assert(head.push('\n') =~= s);
        text_laws::split_at_cut(head, '\n', more, cut);
        assert(text::split(s, cut) == text::split(head, cut).push(Seq::<char>::empty()));
        assert(text::lines(s + more).take(text::lines(s).len() as int) =~= text::lines(s));
    } else {
        assert(text::lines(s).len() == 0);
    }
}

/// Adding a key keeps the keys that are there.
proof fn lemma_keys_stay(content: Seq<char>, line: Seq<char>, key: Seq<char>)
    requires
        has_key(content, key),
    ensures
        has_key((ended(content) + line).push('\n'), key),
{
    lemma_ended_lines(content);
    lemma_lines_stay(ended(content), line.push('\n'));
    let after = (ended(content) + line).push('\n');
    assert(after =~= ended(content) + line.push('\n'));
    let i = choose|i: int|
        0 <= i < text::lines(content).len() && text::trim(#[trigger] text::lines(content)[i])
            == key;
    lemma_strip_cr_trim(text::lines(content)[i]);
    assert(text::lines(after)[i] == text::lines(ended(content))[i]);
    assert(text::trim(text::lines(after)[i]) == key);
}

/// A key that was added is there.
proof fn lemma_key_added(content: Seq<char>, key: Seq<char>)
    requires
        one_line(text::trim(key)),
        text::trim(key).len() > 0,
    ensures
        has_key((ended(content) + text::trim(key)).push('\n'), text::trim(key)),
{
    let t = text::trim(key);
    text_laws::trimming_is_final(key);
    lemma_line_added(ended(content), t);
    let after = (ended(content) + t).push('\n');
    assert(text::lines(after)[text::lines(ended(content)).len() as int] == t);
}

/// Merging keys loses none that were there.
pub proof fn merging_keeps_keys(content: Seq<char>, keys: Seq<Seq<char>>, key: Seq<char>)
    requires
        has_key(content, key),
    ensures
        has_key(merged(content, keys), key),
    decreases keys.len(),
{
    if keys.len() > 0 {
        merging_keeps_keys(content, keys.drop_last(), key);
        lemma_keys_stay(merged(content, keys.drop_last()), text::trim(keys.last()), key);
    }
}

/// Once keys have been merged, each one that is not blank and that has no line
/// break within it is there.
pub proof fn merged_keys_are_there(content: Seq<char>, keys: Seq<Seq<char>>, i: int)
    requires
        0 <= i < keys.len(),
        text::trim(keys[i]).len() > 0,
        one_line(text::trim(keys[i])),
    ensures
        has_key(merged(content, keys), text::trim(keys[i])),
    decreases keys.len(),
{
    let head = keys.drop_last();
    let before = merged(content, head);
    if i < keys.len() - 1 {
        assert(head[i] == keys[i]);
        merged_keys_are_there(content, head, i);
        lemma_keys_stay(before, text::trim(keys.last()), text::trim(keys[i]));
    } else {
        lemma_key_added(before, keys[i]);
    }
}

/// Whether no key has a line break within it.
pub open spec fn all_one_line(keys: Seq<Seq<char>>) -> bool {
    forall|i: int| 0 <= i < keys.len() ==> one_line(text::trim(#[trigger] keys[i]))
}

proof fn lemma_all_there(content: Seq<char>, keys: Seq<Seq<char>>)
    requires
        forall|i: int|
            0 <= i < keys.len() && text::trim(#[trigger] keys[i]).len() > 0 ==> has_key(
                content,
                text::trim(keys[i]),
            ),
    ensures
        merged(content, keys) == content,
        added(content, keys) == 0,
    decreases keys.len(),
{
    if keys.len() > 0 {
        let head = keys.drop_last();
        assert forall|i: int|
            0 <= i < head.len() && text::trim(#[trigger] head[i]).len() > 0 implies has_key(
            content,
            text::trim(head[i]),
        ) by {
            assert(head[i] == keys[i]);
        }
        lemma_all_there(content, head);
        assert(keys.last() == keys[keys.len() - 1]);
    }
}

/// Merging the same keys again changes nothing and adds none.
pub proof fn merging_is_idempotent(content: Seq<char>, keys: Seq<Seq<char>>)
    requires
        all_one_line(keys),
    ensures
        merged(merged(content, keys), keys) == merged(content, keys),
        added(merged(content, keys), keys) == 0,
{
    assert forall|i: int|
        0 <= i < keys.len() && text::trim(#[trigger] keys[i]).len() > 0 implies has_key(
        merged(content, keys),
        text::trim(keys[i]),
    ) by {
        merged_keys_are_there(content, keys, i);
    }
    lemma_all_there(merged(content, keys), keys);
}

/// The lines that merging keys adds, in order.
pub open spec fn added_lines(content: Seq<char>, keys: Seq<Seq<char>>) -> Seq<Seq<char>>
    decreases keys.len(),
{
    if keys.len() == 0 {
        Seq::<Seq<char>>::empty()
    } else {
        let before = added_lines(content, keys.drop_last());
        if wanted(merged(content, keys.drop_last()), keys.last()) {
            before.push(text::trim(keys.last()))
        } else {
            before
        }
    }
}

proof fn lemma_heads_one_line(keys: Seq<Seq<char>>)
    requires
        all_one_line(keys),
        keys.len() > 0,
    ensures
        all_one_line(keys.drop_last()),
        one_line(text::trim(keys.last())),
{
    let head = keys.drop_last();
    assert forall|i: int| 0 <= i < head.len() implies one_line(text::trim(#[trigger] head[i])) by {
        assert(head[i] == keys[i]);
    }
    assert(one_line(text::trim(keys[keys.len() - 1])));
}

/// The lines of the merged content are as many as before, then those added.
proof fn lemma_lines_added(content: Seq<char>, keys: Seq<Seq<char>>)
    requires
        all_one_line(keys),
    ensures
        ({
            let m = merged(content, keys);
            let n = text::lines(content).len() as int;
            &&& n <= text::lines(m).len()
            &&& text::lines(m).skip(n) == added_lines(content, keys)
            &&& added_lines(content, keys).len() == added(content, keys)
            &&& if added(content, keys) == 0 {
                m == content
            } else {
                m.len() > 0 && m.last() == '\n'
            }
        }),
    decreases keys.len(),
{
    let n = text::lines(content).len() as int;
    if keys.len() == 0 {
        assert(text::lines(content).skip(n) =~= Seq::<Seq<char>>::empty());
    } else {
        let head = keys.drop_last();
        let before = merged(content, head);
        let t = text::trim(keys.last());
        lemma_heads_one_line(keys);
        lemma_lines_added(content, head);
        if wanted(before, keys.last()) {
            let old_lines = text::lines(ended(before));
            let new_lines = text::lines(merged(content, keys));
            text_laws::trimming_is_final(keys.last());
            lemma_ended_lines(before);
            lemma_line_added(ended(before), t);
            assert(new_lines == old_lines.push(t));
            if added(content, head) == 0 {
                assert(new_lines.skip(n) =~= added_lines(content, head).push(t));
            } else {
                assert(ended(before) == before);
                assert(new_lines.skip(n) =~= text::lines(before).skip(n).push(t));
            }
        }
    }
}

/// The lines that merging adds are new and tidy: there are as many as are
/// counted, no two are the same, each is one of the keys without white space
/// around it, and none was there before.
pub proof fn added_lines_are_new_keys(content: Seq<char>, keys: Seq<Seq<char>>)
    requires
        all_one_line(keys),
    ensures
        ({
            let more = text::lines(merged(content, keys)).skip(text::lines(content).len() as int);
            &&& more.len() == added(content, keys)
            &&& forall|i: int, j: int|
                0 <= i < j < more.len() ==> #[trigger] more[i] != #[trigger] more[j]
            &&& forall|i: int| 0 <= i < more.len() ==> is_some_key(keys, #[trigger] more[i])
            &&& forall|i: int| 0 <= i < more.len() ==> !has_key(content, #[trigger] more[i])
        }),
    decreases keys.len(),
{
    lemma_lines_added(content, keys);
    let n = text::lines(content).len() as int;
    let more = added_lines(content, keys);
    if keys.len() > 0 {
        let head = keys.drop_last();
        let before = merged(content, head);
        let fewer = added_lines(content, head);
        let t = text::trim(keys.last());
        lemma_heads_one_line(keys);
        lemma_lines_added(content, head);
        added_lines_are_new_keys(content, head);
        assert forall|i: int| 0 <= i < more.len() implies is_some_key(keys, #[trigger] more[i]) by {
            if i < fewer.len() {
                assert(more[i] == fewer[i]);
                assert(is_some_key(head, fewer[i]));
                let k = choose|k: int|
                    0 <= k < head.len() && text::trim(#[trigger] head[k]) == fewer[i];
                assert(text::trim(keys[k]) == more[i]);
            } else {
                assert(text::trim(keys[keys.len() - 1]) == more[i]);
            }
        }
        if wanted(before, keys.last()) {
            assert forall|i: int| 0 <= i < fewer.len() implies #[trigger] fewer[i] != t by {
                assert(is_some_key(head, fewer[i]));
                let k = choose|k: int|
                    0 <= k < head.len() && text::trim(#[trigger] head[k]) == fewer[i];
                text_laws::trimming_is_final(head[k]);
                assert(text::lines(before)[n + i] == text::lines(before).skip(n)[i]);
                assert(has_key(before, fewer[i]));
            }
            assert(!has_key(content, t)) by {
                if has_key(content, t) {
                    merging_keeps_keys(content, head, t);
                }
            }
        }
    }
}

/// Whether a line is one of the keys, without white space around it.
pub open spec fn is_some_key(keys: Seq<Seq<char>>, line: Seq<char>) -> bool {
    exists|k: int| 0 <= k < keys.len() && text::trim(#[trigger] keys[k]) == line
}

} // verus!

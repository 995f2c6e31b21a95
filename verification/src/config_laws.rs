//! What holds of every configuration.
use vstd::prelude::*;

use crate::config;
use crate::config::{Groups, PermVal};
use crate::number;
use crate::number::NumberError;
use crate::text;
use crate::text::Cut;
use crate::text_laws;

verus! {

/// Whether `s` is a group name: not empty, and free of commas and spaces.
pub open spec fn group_name(s: Seq<char>) -> bool {
    s.len() > 0 && forall|i: int| 0 <= i < s.len() ==> #[trigger] s[i] != ',' && s[i] != ' '
}

proof fn lemma_split_join(names: Seq<Seq<char>>)
    requires
        names.len() > 0,
        forall|i: int| 0 <= i < names.len() ==> group_name(#[trigger] names[i]),
    ensures
        text::split(text::join(names, ","@), Cut::Either(',', ' ')) == names,
    decreases names.len(),
{
    let cut = Cut::Either(',', ' ');
    reveal_strlit(",");
    if names.len() == 1 {
        text_laws::split_without_cut(names[0], cut);
        assert(names =~= seq![names[0]]);
    } else {
        let head = names.drop_last();
        assert forall|i: int| 0 <= i < head.len() implies group_name(#[trigger] head[i]) by {
            assert(head[i] == names[i]);
        }
        lemma_split_join(head);
        assert(group_name(names[names.len() - 1]));
        text_laws::split_without_cut(names.last(), cut);
        let left = text::join(head, ","@);
        text_laws::split_at_cut(left, ',', names.last(), cut);
        assert(left + ","@ + names.last() =~= left.push(',') + names.last());
        assert(head + seq![names.last()] =~= names);
    }
}

proof fn lemma_all_kept(names: Seq<Seq<char>>)
    requires
        forall|i: int| 0 <= i < names.len() ==> (#[trigger] names[i]).len() > 0,
    ensures
        text::non_empty(names) == names,
    decreases names.len(),
{
    reveal(Seq::filter);
    if names.len() > 0 {
        lemma_all_kept(names.drop_last());
        assert(names.drop_last().push(names.last()) =~= names);
        assert(names.last().len() > 0);
    } else {
        assert(text::non_empty(names) =~= names);
    }
}

/// Groups mean the same in a string and in a list: a list of names comes to
/// the same as the string with commas between those names.
pub proof fn groups_string_and_list_agree(names: Vec<String>, line: String)
    requires
        forall|i: int| 0 <= i < names@.len() ==> group_name(#[trigger] names@[i]@),
        line@ == text::join(text::texts(names@), ","@),
    ensures
        Groups::Str(line).list() == Groups::List(names).list(),
{
    let all = text::texts(names@);
    if all.len() == 0 {
        let cut = Cut::Either(',', ' ');
        assert(text::split(line@, cut) =~= seq![Seq::<char>::empty()]);
        reveal(Seq::filter);
        let pieces = text::split(line@, cut);
        let keep = |p: Seq<char>| p.len() > 0;
        assert(pieces.drop_last() =~= Seq::<Seq<char>>::empty());
        assert(pieces.drop_last().filter(keep) =~= Seq::<Seq<char>>::empty());
        assert(pieces.last().len() == 0);
        assert(text::non_empty(pieces) =~= Seq::<Seq<char>>::empty());
    } else {
        assert forall|i: int| 0 <= i < all.len() implies group_name(#[trigger] all[i]) by {
            assert(all[i] == names@[i]@);
        }
        lemma_split_join(all);
        lemma_all_kept(all);
    }
}

/// Whether a character separates group names.
pub open spec fn separates(c: char) -> bool {
    c == ',' || c == ' '
}

proof fn lemma_pieces_are_free(s: Seq<char>, i: int)
    requires
        0 <= i < text::split(s, Cut::Either(',', ' ')).len(),
    ensures
        forall|k: int|
            0 <= k < text::split(s, Cut::Either(',', ' '))[i].len() ==> !separates(
                #[trigger] text::split(s, Cut::Either(',', ' '))[i][k],
            ),
    decreases s.len(),
{
    let cut = Cut::Either(',', ' ');
    if s.len() > 0 {
        let before = text::split(s.drop_last(), cut);
        text_laws::last_piece(s.drop_last(), cut);
        if i < before.len() {
            lemma_pieces_are_free(s.drop_last(), i);
        }
    }
}

proof fn lemma_kept_from(pieces: Seq<Seq<char>>, i: int)
    requires
        0 <= i < text::non_empty(pieces).len(),
    ensures
        text::non_empty(pieces)[i].len() > 0,
        pieces.contains(text::non_empty(pieces)[i]),
    decreases pieces.len(),
{
    reveal(Seq::filter);
    let keep = |p: Seq<char>| p.len() > 0;
    if pieces.len() > 0 {
        let head = pieces.drop_last();
        if i < head.filter(keep).len() {
            lemma_kept_from(head, i);
            let k = choose|k: int| 0 <= k < head.len() && head[k] == head.filter(keep)[i];
            assert(pieces[k] == head[k]);
        } else {
            assert(pieces[pieces.len() - 1] == pieces.last());
        }
    }
}

proof fn lemma_group_names(s: Seq<char>)
    ensures
        forall|i: int|
            0 <= i < config::group_names(s).len() ==> group_name(
                #[trigger] config::group_names(s)[i],
            ),
{
    let pieces = text::split(s, Cut::Either(',', ' '));
    let names = config::group_names(s);
    assert forall|i: int| 0 <= i < names.len() implies group_name(#[trigger] names[i]) by {
        lemma_kept_from(pieces, i);
        let k = choose|k: int| 0 <= k < pieces.len() && pieces[k] == names[i];
        lemma_pieces_are_free(s, k);
        assert forall|j: int| 0 <= j < names[i].len() implies #[trigger] names[i][j] != ','
            && names[i][j] != ' ' by {
            assert(!separates(pieces[k][j]));
        }
    }
}

proof fn lemma_joined_shape(names: Seq<Seq<char>>)
    requires
        names.len() > 0,
        forall|i: int| 0 <= i < names.len() ==> group_name(#[trigger] names[i]),
    ensures
        tidy(text::join(names, ","@)),
        text::join(names, ","@).len() > 0,
    decreases names.len(),
{
    reveal_strlit(",");
    let r = text::join(names, ","@);
    let last = names.last();
    assert(group_name(names[names.len() - 1]));
    if names.len() == 1 {
        assert(r == last);
    } else {
        let head = names.drop_last();
        assert forall|i: int| 0 <= i < head.len() implies group_name(#[trigger] head[i]) by {
            assert(head[i] == names[i]);
        }
        lemma_joined_shape(head);
        let left = text::join(head, ","@);
        let n = left.len() as int;
        assert(r =~= left.push(',') + last);
        assert forall|i: int| 0 <= i < r.len() implies #[trigger] r[i] != ' ' by {
            if i < n {
                assert(r[i] == left[i]);
            } else if i > n {
                assert(r[i] == last[i - n - 1]);
            }
        }
        assert forall|i: int, j: int|
            0 <= i && j == i + 1 && j < r.len() && #[trigger] r[i] == ',' implies #[trigger] r[j]
            != ',' by {
            if j < n {
                assert(r[i] == left[i] && r[j] == left[j]);
            } else if j == n {
                assert(r[i] == left.last());
            } else {
                assert(r[j] == last[j - n - 1]);
            }
        }
        assert(r[0] == left[0]);
        assert(r.last() == last.last());
    }
}

/// Whether a list of groups is tidy: no space, no two commas in a row, and no
/// comma at either end.
pub open spec fn tidy(r: Seq<char>) -> bool {
    &&& forall|i: int| 0 <= i < r.len() ==> #[trigger] r[i] != ' '
    &&& forall|i: int, j: int|
        0 <= i && j == i + 1 && j < r.len() && #[trigger] r[i] == ',' ==> #[trigger] r[j] != ','
    &&& r.len() > 0 ==> r[0] != ',' && r.last() != ','
}

/// However groups are written in a string, the list made of them is tidy; its
/// parts between commas are the names in the string, in order and each one a
/// name; it is empty exactly if there are none; and making a list of it again
/// changes nothing.
pub proof fn groups_string_is_tidied(line: String, again: String)
    requires
        again@ == Groups::Str(line).list(),
    ensures
        ({
            let r = Groups::Str(line).list();
            let names = config::group_names(line@);
            &&& tidy(r)
            &&& forall|i: int| 0 <= i < names.len() ==> group_name(#[trigger] names[i])
            &&& r.len() == 0 <==> names.len() == 0
            &&& names.len() > 0 ==> text::split(r, Cut::At(',')) == names
            &&& config::group_names(r) == names
            &&& Groups::Str(again).list() == r
        }),
{
    let r = Groups::Str(line).list();
    let names = config::group_names(line@);
    lemma_group_names(line@);
    if names.len() == 0 {
        assert(r =~= Seq::<char>::empty());
        text_laws::split_without_cut(r, Cut::Either(',', ' '));
        assert(config::group_names(r) =~= names) by {
            if config::group_names(r).len() > 0 {
                lemma_kept_from(seq![r], 0);
            }
        }
    } else {
        lemma_joined_shape(names);
        lemma_split_join(names);
        lemma_all_kept(names);
        lemma_same_cuts(r);
    }
}

/// Without spaces, spaces and commas separate the same pieces as commas.
proof fn lemma_same_cuts(r: Seq<char>)
    requires
        forall|i: int| 0 <= i < r.len() ==> #[trigger] r[i] != ' ',
    ensures
        text::split(r, Cut::At(',')) == text::split(r, Cut::Either(',', ' ')),
    decreases r.len(),
{
    if r.len() > 0 {
        let head = r.drop_last();
        assert forall|i: int| 0 <= i < head.len() implies #[trigger] head[i] != ' ' by {
            assert(head[i] == r[i]);
        }
        assert(r[r.len() - 1] != ' ');
        lemma_same_cuts(head);
    }
}

proof fn lemma_octal_chars(m: nat)
    ensures
        number::octal(m as int).len() > 0,
        forall|i: int|
            0 <= i < number::octal(m as int).len() ==> '0' <= #[trigger] number::octal(m as int)[i]
                <= '7',
    decreases m,
{
    if m >= 8 {
        lemma_octal_chars(m / 8);
    }
}

proof fn lemma_leading_zero(s: Seq<char>, max: int)
    requires
        0 <= max,
    ensures
        number::digits_value(seq!['0'] + s, 8, max) == number::digits_value(s, 8, max),
    decreases s.len(),
{
    let longer = seq!['0'] + s;
    if s.len() == 0 {
        assert(longer.drop_last() =~= Seq::<char>::empty());
        assert(number::digits_value(longer.drop_last(), 8, max) == Ok::<int, NumberError>(0));
    } else {
        lemma_leading_zero(s.drop_last(), max);
        assert(longer.drop_last() =~= seq!['0'] + s.drop_last());
    }
}

/// A mode reads back from its octal digits, whether they stand alone, behind a
/// zero or behind `0o`.
pub proof fn octal_mode_round_trip(m: u32, plain: String, zero: String, prefixed: String)
    requires
        plain@ == number::octal(m as int),
        zero@ == seq!['0'] + number::octal(m as int),
        prefixed@ == seq!['0', 'o'] + number::octal(m as int),
    ensures
        config::mode_of(Some(&PermVal::Str(plain))) == Ok::<u32, Seq<char>>(m),
        config::mode_of(Some(&PermVal::Str(zero))) == Ok::<u32, Seq<char>>(m),
        config::mode_of(Some(&PermVal::Str(prefixed))) == Ok::<u32, Seq<char>>(m),
{
    let row = number::octal(m as int);
    reveal_strlit("0o");
    lemma_octal_chars(m as nat);
    number::digits_round_trip(m as nat, 8, u32::MAX as int);
    lemma_leading_zero(row, u32::MAX as int);
    assert('0' <= row[0] <= '7');
    assert('0' <= row[row.len() - 1] <= '7');
    text_laws::solid_text_is_trimmed(plain@);
    assert(zero@.last() == row.last());
    text_laws::solid_text_is_trimmed(zero@);
    assert(prefixed@.last() == row.last());
    text_laws::solid_text_is_trimmed(prefixed@);
    assert("0o"@[1] == 'o');
    if row.len() > 1 {
        assert('0' <= row[1] <= '7');
    }
    assert(!"0o"@.is_prefix_of(plain@)) by {
        if "0o"@.is_prefix_of(plain@) {
            assert(plain@.subrange(0, 2)[1] == 'o');
        }
    }
    assert(!"0o"@.is_prefix_of(zero@)) by {
        assert(zero@[1] == row[0]);
        if "0o"@.is_prefix_of(zero@) {
            assert(zero@.subrange(0, 2)[1] == 'o');
        }
    }
    assert("0o"@ =~= prefixed@.subrange(0, 2));
    assert(prefixed@.skip(2) =~= row);
}

/// Plain content is stored as it is: the bytes read as text are the content.
pub proof fn plain_content_reads_back(content: Seq<char>)
    ensures
        config::decoded_content(content, None) matches Ok(data) && vstd::utf8::valid_utf8(data)
            && vstd::utf8::decode_utf8(data) == content,
        config::decoded_content(content, Some("text/plain"@)) == config::decoded_content(
            content,
            None,
        ),
{
    vstd::utf8::encode_utf8_valid_utf8(content);
    vstd::utf8::encode_utf8_decode_utf8(content);
}

/// White space in base64 content makes no difference, wherever it stands.
pub proof fn blanks_in_base64_do_not_matter(a: Seq<char>, b: Seq<char>, encoding: Seq<char>)
    requires
        encoding == "b64"@ || encoding == "base64"@,
        a.filter(|c: char| !text::white_space(c)) == b.filter(|c: char| !text::white_space(c)),
    ensures
        config::decoded_content(a, Some(encoding)) == config::decoded_content(b, Some(encoding)),
{
    reveal_strlit("b64");
    reveal_strlit("base64");
    reveal_strlit("plain");
    reveal_strlit("text/plain");
    assert("b64"@.len() == 3 && "base64"@.len() == 6);
    assert("plain"@.len() == 5 && "text/plain"@.len() == 10);
}

} // verus!

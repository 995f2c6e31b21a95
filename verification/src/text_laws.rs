//! What holds of every text.
use vstd::prelude::*;

use crate::text;
use crate::text::Cut;

verus! {

/// Cutting at a character between two texts cuts each of them.
pub proof fn split_at_cut(a: Seq<char>, c: char, b: Seq<char>, cut: Cut)
    requires
        cut.cuts(c),
    ensures
        text::split(a.push(c) + b, cut) == text::split(a, cut) + text::split(b, cut),
    decreases b.len(),
{
    let whole = a.push(c) + b;
    if b.len() == 0 {
        assert(whole.drop_last() =~= a);
        assert(text::split(whole, cut) =~= text::split(a, cut) + text::split(b, cut));
    } else {
        split_at_cut(a, c, b.drop_last(), cut);
        last_piece(b.drop_last(), cut);
        assert(whole.drop_last() =~= a.push(c) + b.drop_last());
        assert(text::split(whole, cut) =~= text::split(a, cut) + text::split(b, cut));
    }
}

/// A text without a cut is its only piece.
pub proof fn split_without_cut(s: Seq<char>, cut: Cut)
    requires
        forall|i: int| 0 <= i < s.len() ==> !cut.cuts(#[trigger] s[i]),
    ensures
        text::split(s, cut) == seq![s],
    decreases s.len(),
{
    if s.len() == 0 {
        assert(s =~= Seq::<char>::empty());
    } else {
        split_without_cut(s.drop_last(), cut);
        assert(s.drop_last().push(s.last()) =~= s);
        assert(text::split(s, cut) =~= seq![s]);
    }
}

/// The last piece of a text is empty if the text is, or if it ends in a cut.
pub proof fn last_piece(s: Seq<char>, cut: Cut)
    ensures
        text::split(s, cut).len() >= 1,
        s.len() > 0 && cut.cuts(s.last()) ==> text::split(s, cut).last().len() == 0,
        s.len() == 0 ==> text::split(s, cut).last().len() == 0,
        s.len() > 0 && !cut.cuts(s.last()) ==> text::split(s, cut).last().len() > 0,
    decreases s.len(),
{
    if s.len() > 0 {
        last_piece(s.drop_last(), cut);
    }
}

/// A trimmed text has nothing left to trim.
pub proof fn trimming_is_final(s: Seq<char>)
    ensures
        text::trim(text::trim(s)) == text::trim(s),
        text::trim(s).len() > 0 ==> !text::white_space(text::trim(s).last()),
{
    let a = text::trim_start(s);
    lemma_trim_start_done(s);
    lemma_trim_end_done(a);
    let t = text::trim_end(a);
    if t.len() > 0 {
        assert(t[0] == a[0]);
    }
    assert(text::trim_start(t) == t);
}

proof fn lemma_trim_start_done(s: Seq<char>)
    ensures
        text::trim_start(s).len() > 0 ==> !text::white_space(text::trim_start(s)[0]),
    decreases s.len(),
{
    if s.len() > 0 && text::white_space(s[0]) {
        lemma_trim_start_done(s.drop_first());
    }
}

proof fn lemma_trim_end_done(s: Seq<char>)
    ensures
        text::trim_end(s).len() > 0 ==> !text::white_space(text::trim_end(s).last()),
        text::trim_end(s).is_prefix_of(s),
        text::trim_end(text::trim_end(s)) == text::trim_end(s),
    decreases s.len(),
{
    if s.len() > 0 && text::white_space(s.last()) {
        lemma_trim_end_done(s.drop_last());
        let t = text::trim_end(s);
        assert(s.take(t.len() as int) =~= s.drop_last().take(t.len() as int));
    } else {
        assert(s.take(s.len() as int) =~= s);
    }
}

/// A text with no white space at either end has nothing to trim.
pub proof fn solid_text_is_trimmed(s: Seq<char>)
    requires
        s.len() > 0,
        !text::white_space(s[0]),
        !text::white_space(s.last()),
    ensures
        text::trim(s) == s,
{
}

/// White space at the end makes no difference to a trimmed text.
pub proof fn trailing_blank_is_trimmed(s: Seq<char>)
    requires
        s.len() > 0,
        text::white_space(s.last()),
    ensures
        text::trim(s.drop_last()) == text::trim(s),
    decreases s.len(),
{
    if text::white_space(s[0]) {
        let rest = s.drop_first();
        if rest.len() > 0 {
            trailing_blank_is_trimmed(rest);
            assert(s.drop_last().drop_first() =~= rest.drop_last());
            assert(s.drop_last()[0] == s[0]);
        } else {
            assert(s.drop_last() =~= rest);
        }
    } else {
        if s.len() > 1 {
            assert(s.drop_last()[0] == s[0]);
        }
    }
}

/// Trimming takes the white space at both ends away, all of it and nothing else.
pub proof fn trimming_leaves_the_middle(a: Seq<char>, t: Seq<char>, b: Seq<char>)
    requires
        forall|i: int| 0 <= i < a.len() ==> text::white_space(#[trigger] a[i]),
        forall|i: int| 0 <= i < b.len() ==> text::white_space(#[trigger] b[i]),
        t.len() > 0 ==> !text::white_space(t[0]) && !text::white_space(t.last()),
    ensures
        text::trim(a + t + b) == t,
        text::trim_start(a + t) == t,
        text::trim_end(t + b) == t,
    decreases a.len() + b.len(),
{
    if a.len() > 0 {
        let rest = a.drop_first();
        assert forall|i: int| 0 <= i < rest.len() implies text::white_space(#[trigger] rest[i]) by {
            assert(rest[i] == a[i + 1]);
        }
        trimming_leaves_the_middle(rest, t, b);
        assert((a + t + b).drop_first() =~= rest + t + b);
        assert((a + t).drop_first() =~= rest + t);
        assert((a + t + b)[0] == a[0]);
    } else {
        assert(a + t =~= t);
        assert(a + t + b =~= t + b);
        if b.len() > 0 {
            trimming_leaves_the_middle(a, t, b.drop_last());
            assert((t + b).drop_last() =~= t + b.drop_last());
            assert(a + t + b.drop_last() =~= t + b.drop_last());
            assert((t + b).last() == b.last());
            if t.len() == 0 {
                lemma_all_blank(t + b);
            }
        } else {
            assert(t + b =~= t);
        }
    }
}

/// White space in front is taken away, and nothing behind it.
pub proof fn leading_blanks_go(a: Seq<char>, t: Seq<char>)
    requires
        forall|i: int| 0 <= i < a.len() ==> text::white_space(#[trigger] a[i]),
        t.len() > 0 ==> !text::white_space(t[0]),
    ensures
        text::trim_start(a + t) == t,
    decreases a.len(),
{
    if a.len() > 0 {
        let rest = a.drop_first();
        assert forall|i: int| 0 <= i < rest.len() implies text::white_space(#[trigger] rest[i]) by {
            assert(rest[i] == a[i + 1]);
        }
        leading_blanks_go(rest, t);
        assert((a + t).drop_first() =~= rest + t);
        assert((a + t)[0] == a[0]);
    } else {
        assert(a + t =~= t);
    }
}

proof fn lemma_all_blank(s: Seq<char>)
    requires
        forall|i: int| 0 <= i < s.len() ==> text::white_space(#[trigger] s[i]),
    ensures
        text::trim_start(s) == Seq::<char>::empty(),
    decreases s.len(),
{
    if s.len() > 0 {
        let rest = s.drop_first();
        assert forall|i: int| 0 <= i < rest.len() implies text::white_space(#[trigger] rest[i]) by {
            assert(rest[i] == s[i + 1]);
        }
        lemma_all_blank(rest);
        assert(text::white_space(s[0]));
    } else {
        assert(s =~= Seq::<char>::empty());
    }
}

/// Of the ASCII characters, the space and the five controls from the tab to the
/// carriage return are white space; of the others, so are the next line, the
/// no-break space and the spaces and separators of the punctuation blocks.
pub proof fn which_characters_are_blank(c: char)
    ensures
        c <= '\u{7f}' ==> (text::white_space(c) <==> c == ' ' || '\t' <= c <= '\r'),
        '\u{80}' <= c <= '\u{fff}' ==> (text::white_space(c) <==> c == '\u{85}' || c == '\u{a0}'),
        c >= '\u{1000}' ==> (text::white_space(c) <==> c == '\u{1680}' || '\u{2000}' <= c
            <= '\u{200a}' || c == '\u{2028}' || c == '\u{2029}' || c == '\u{202f}' || c
            == '\u{205f}' || c == '\u{3000}'),
{
}

/// A text is cut at the characters that were asked for.
pub proof fn where_a_text_is_cut(a: char, b: char, c: char)
    ensures
        Cut::At(a).cuts(c) <==> c == a,
        Cut::Either(a, b).cuts(c) <==> c == a || c == b,
        Cut::Blank.cuts(c) <==> text::white_space(c),
{
}

/// No piece of a text holds a character that it is cut at.
pub proof fn pieces_hold_no_cut(s: Seq<char>, cut: Cut, i: int, k: int)
    requires
        0 <= i < text::split(s, cut).len(),
        0 <= k < text::split(s, cut)[i].len(),
    ensures
        !cut.cuts(text::split(s, cut)[i][k]),
    decreases s.len(),
{
    if s.len() > 0 {
        let front = text::split(s.drop_last(), cut);
        last_piece(s.drop_last(), cut);
        if cut.cuts(s.last()) {
            if i < front.len() {
                pieces_hold_no_cut(s.drop_last(), cut, i, k);
            }
        } else if i < front.len() - 1 || k < front.last().len() {
            pieces_hold_no_cut(s.drop_last(), cut, i, k);
        }
    }
}

/// Joining the pieces of a text with the character it was cut at gives the text
/// back.
pub proof fn pieces_make_up_the_text(s: Seq<char>, c: char)
    ensures
        text::join(text::split(s, Cut::At(c)), seq![c]) == s,
    decreases s.len(),
{
    let cut = Cut::At(c);
    let pieces = text::split(s, cut);
    if s.len() > 0 {
        let front = text::split(s.drop_last(), cut);
        last_piece(s.drop_last(), cut);
        pieces_make_up_the_text(s.drop_last(), c);
        if s.last() == c {
            assert(pieces.drop_last() =~= front);
            assert(text::join(pieces, seq![c]) =~= s);
        } else {
            assert(pieces.drop_last() =~= front.drop_last());
            assert(pieces.last() == front.last().push(s.last()));
            if front.len() > 1 {
                assert(text::join(front, seq![c]) == text::join(front.drop_last(), seq![c])
                    + seq![c] + front.last());
                assert(text::join(pieces, seq![c]) == text::join(front.drop_last(), seq![c])
                    + seq![c] + front.last().push(s.last()));
            } else {
                assert(text::join(front, seq![c]) == front[0]);
                assert(text::join(pieces, seq![c]) == pieces[0]);
            }
            assert(text::join(pieces, seq![c]) =~= text::join(front, seq![c]).push(s.last()));
            assert(s.drop_last().push(s.last()) =~= s);
        }
    } else {
        assert(text::join(pieces, seq![c]) =~= s);
    }
}

/// Pieces that are joined are one behind the other, with the separator between
/// neighbours only.
pub proof fn joining_two_lists(a: Seq<Seq<char>>, b: Seq<Seq<char>>, sep: Seq<char>)
    ensures
        text::join(Seq::<Seq<char>>::empty(), sep) == Seq::<char>::empty(),
        a.len() == 1 ==> text::join(a, sep) == a[0],
        a.len() > 0 && b.len() > 0 ==> text::join(a + b, sep) == text::join(a, sep) + sep
            + text::join(b, sep),
    decreases b.len(),
{
    if a.len() > 0 && b.len() > 0 {
        let whole = a + b;
        if b.len() == 1 {
            assert(whole.drop_last() =~= a);
            assert(whole.last() == b[0]);
        } else {
            joining_two_lists(a, b.drop_last(), sep);
            assert(whole.drop_last() =~= a + b.drop_last());
            assert(text::join(whole, sep) =~= text::join(a, sep) + sep + text::join(b, sep));
        }
    }
}

/// Of a list of pieces those with a character in them are kept, in their order.
pub proof fn empty_pieces_are_dropped(a: Seq<Seq<char>>, p: Seq<char>)
    ensures
        text::non_empty(Seq::<Seq<char>>::empty()) == Seq::<Seq<char>>::empty(),
        p.len() == 0 ==> text::non_empty(a.push(p)) == text::non_empty(a),
        p.len() > 0 ==> text::non_empty(a.push(p)) == text::non_empty(a).push(p),
{
    reveal(Seq::filter);
    assert(a.push(p).drop_last() =~= a);
}

/// The lines of a text are what stands in front of each line feed, without the
/// carriage return that may stand right in front of it, and what follows the
/// last one, if anything does.
pub proof fn text_line_by_line(row: Seq<char>, rest: Seq<char>)
    requires
        forall|i: int| 0 <= i < row.len() ==> #[trigger] row[i] != '\n',
    ensures
        text::lines(Seq::<char>::empty()) == Seq::<Seq<char>>::empty(),
        row.len() > 0 ==> text::lines(row) == seq![row],
        row.len() == 0 || row.last() != '\r' ==> text::lines(row.push('\n') + rest) == seq![row]
            + text::lines(rest),
        text::lines(row.push('\r').push('\n') + rest) == seq![row] + text::lines(rest),
{
    let cut = Cut::At('\n');
    split_without_cut(row, cut);
    split_without_cut(row.push('\r'), cut);
    split_without_cut(Seq::<char>::empty(), cut);
    last_piece(rest, cut);
    split_at_cut(row, '\n', rest, cut);
    split_at_cut(row.push('\r'), '\n', rest, cut);
    assert(row.push('\r').drop_last() =~= row);
    assert(text::lines(Seq::<char>::empty()) =~= Seq::<Seq<char>>::empty());
    assert(row.len() > 0 ==> text::lines(row) =~= seq![row]);
    let ended = text::lines(row.push('\r').push('\n') + rest);
    let tail = text::split(rest, cut);
    assert(text::split(row.push('\r').push('\n') + rest, cut) =~= seq![row.push('\r')] + tail);
    assert(text::strip_cr(row.push('\r')) == row);
    assert(ended =~= seq![row] + text::lines(rest));
    if row.len() == 0 || row.last() != '\r' {
        assert(text::split(row.push('\n') + rest, cut) =~= seq![row] + tail);
        assert(text::lines(row.push('\n') + rest) =~= seq![row] + text::lines(rest));
    }
}

/// A part occurs in a text exactly if the text has it between a front and a back.
pub proof fn occurring_is_being_a_part(
    s: Seq<char>,
    front: Seq<char>,
    part: Seq<char>,
    back: Seq<char>,
)
    ensures
        text::occurs(front + part + back, part),
        text::occurs(s, part) <==> exists|i: int|
            0 <= i <= s.len() - part.len() && #[trigger] s.subrange(i, i + part.len()) == part,
{
    let whole = front + part + back;
    let n = front.len() as int;
    assert(whole.subrange(n, n + part.len()) =~= part);
    assert(text::occurs_at(whole, part, n));
    if exists|i: int|
        0 <= i <= s.len() - part.len() && #[trigger] s.subrange(i, i + part.len()) == part {
        let i = choose|i: int|
            0 <= i <= s.len() - part.len() && #[trigger] s.subrange(i, i + part.len()) == part;
        assert(text::occurs_at(s, part, i));
    }
    if text::occurs(s, part) {
        let i = choose|i: int| text::occurs_at(s, part, i);
        assert(s.subrange(i, i + part.len()) == part);
    }
}

/// Turning to lower case moves the letters from A to Z to those from a to z and
/// leaves every other character alone.
pub proof fn only_capitals_are_lowered(s: Seq<char>, i: int)
    requires
        0 <= i < s.len(),
    ensures
        text::lower(s).len() == s.len(),
        'A' <= s[i] <= 'Z' ==> text::lower(s)[i] as u32 - s[i] as u32 == 'a' as u32 - 'A' as u32,
        !('A' <= s[i] <= 'Z') ==> text::lower(s)[i] == s[i],
        text::lower(text::lower(s)) == text::lower(s),
{
    assert(text::lower(text::lower(s)) =~= text::lower(s));
}

/// A path below a directory has one separator behind the directory, be it given
/// with one or without.
pub proof fn one_separator_is_enough(dir: Seq<char>, leaf: Seq<char>)
    requires
        dir.len() > 0,
        dir.last() != '/',
    ensures
        text::path_join(dir, leaf) == dir.push('/') + leaf,
        text::path_join(dir.push('/'), leaf) == dir.push('/') + leaf,
        text::path_join(Seq::<char>::empty(), leaf) == leaf,
{
    reveal_strlit("/");
    assert(text::path_join(dir, leaf) =~= dir.push('/') + leaf);
    assert(text::path_join(Seq::<char>::empty(), leaf) =~= leaf);
}

/// A text is parted at the first occurrence of a character.
pub proof fn parted_at_the_first(a: Seq<char>, c: char, b: Seq<char>)
    requires
        forall|i: int| 0 <= i < a.len() ==> #[trigger] a[i] != c,
    ensures
        text::before(a, c) == a,
        text::after(a, c) is None,
        text::before(a.push(c) + b, c) == a,
        text::after(a.push(c) + b, c) == Some(b),
{
    lemma_until(a, c, Seq::<char>::empty());
    lemma_until(a, c, b);
    let whole = a.push(c) + b;
    assert(whole.take(a.len() as int) =~= a);
    assert(whole.skip(a.len() as int + 1) =~= b);
    assert(a.take(a.len() as int) =~= a);
}

proof fn lemma_until(a: Seq<char>, c: char, b: Seq<char>)
    requires
        forall|i: int| 0 <= i < a.len() ==> #[trigger] a[i] != c,
    ensures
        text::until(a, c) == a.len(),
        text::until(a.push(c) + b, c) == a.len(),
    decreases a.len(),
{
    if a.len() > 0 {
        let rest = a.drop_first();
        assert forall|i: int| 0 <= i < rest.len() implies #[trigger] rest[i] != c by {
            assert(rest[i] == a[i + 1]);
        }
        lemma_until(rest, c, b);
        assert((a.push(c) + b).drop_first() =~= rest.push(c) + b);
        assert((a.push(c) + b)[0] == a[0]);
        assert(a[0] != c);
    } else {
        assert((a.push(c) + b)[0] == c);
    }
}

/// Pieces without the character that they are joined with are found again when
/// the text is cut there.
pub proof fn joined_pieces_are_found(pieces: Seq<Seq<char>>, c: char)
    requires
        pieces.len() > 0,
        forall|i: int, k: int|
            0 <= i < pieces.len() && 0 <= k < pieces[i].len() ==> #[trigger] pieces[i][k] != c,
    ensures
        text::split(text::join(pieces, seq![c]), Cut::At(c)) == pieces,
    decreases pieces.len(),
{
    let cut = Cut::At(c);
    let last = pieces.last();
    assert forall|k: int| 0 <= k < last.len() implies !cut.cuts(#[trigger] last[k]) by {
        assert(pieces[pieces.len() - 1][k] != c);
    }
    split_without_cut(last, cut);
    if pieces.len() == 1 {
        assert(pieces =~= seq![last]);
    } else {
        let front = pieces.drop_last();
        assert forall|i: int, k: int|
            0 <= i < front.len() && 0 <= k < front[i].len() implies #[trigger] front[i][k] != c by {
            assert(pieces[i][k] != c);
        }
        joined_pieces_are_found(front, c);
        let a = text::join(front, seq![c]);
        assert(a + seq![c] + last =~= a.push(c) + last);
        split_at_cut(a, c, last, cut);
        assert(front + seq![last] =~= pieces);
    }
}

} // verus!

//! Plain-text helpers: trimming, splitting, joining and comparing text.
//!
//! The meaning of every operation is given on sequences of characters; the
//! executable functions work on `&str` and return owned text.
use vstd::prelude::*;
use vstd::string::*;

verus! {

/// `String::push` appends one character to the end of the string.
pub assume_specification[ String::push ](s: &mut String, c: char)
    ensures
        final(s)@ == old(s)@.push(c),
;

/// The characters of each string of a list.
pub open spec fn texts(list: Seq<String>) -> Seq<Seq<char>> {
    Seq::new(list.len(), |i: int| list[i]@)
}

/// The characters of an optional string.
pub open spec fn opt_text(text: Option<String>) -> Option<Seq<char>> {
    match text {
        Some(t) => Some(t@),
        None => None,
    }
}

/// The characters of an optional string slice.
pub open spec fn opt_str(text: Option<&str>) -> Option<Seq<char>> {
    match text {
        Some(t) => Some(t@),
        None => None,
    }
}

/// The Unicode `White_Space` property.
pub open spec fn white_space(c: char) -> bool {
    let u = c as u32;
    ||| 0x09 <= u <= 0x0d
    ||| u == 0x20
    ||| u == 0x85
    ||| u == 0xa0
    ||| u == 0x1680
    ||| 0x2000 <= u <= 0x200a
    ||| u == 0x2028
    ||| u == 0x2029
    ||| u == 0x202f
    ||| u == 0x205f
    ||| u == 0x3000
}

/// `s` without its leading white space.
pub open spec fn trim_start(s: Seq<char>) -> Seq<char>
    decreases s.len(),
{
    if s.len() > 0 && white_space(s[0]) {
        trim_start(s.drop_first())
    } else {
        s
    }
}

/// `s` without its trailing white space.
pub open spec fn trim_end(s: Seq<char>) -> Seq<char>
    decreases s.len(),
{
    if s.len() > 0 && white_space(s.last()) {
        trim_end(s.drop_last())
    } else {
        s
    }
}

/// `s` without white space at either end.
pub open spec fn trim(s: Seq<char>) -> Seq<char> {
    trim_end(trim_start(s))
}

/// Where a text is cut into pieces.
#[derive(Debug, Clone, Copy, PartialEq, Eq)]
pub enum Cut {
    /// At every occurrence of one character.
    At(char),
    /// At every occurrence of either of two characters.
    Either(char, char),
    /// At every white-space character.
    Blank,
}

impl Cut {
    /// Whether the text is cut at `c`.
    pub open spec fn cuts(self, c: char) -> bool {
        match self {
            Cut::At(a) => c == a,
            Cut::Either(a, b) => c == a || c == b,
            Cut::Blank => white_space(c),
        }
    }

    /// Whether the text is cut at `c`.
    pub fn hits(&self, c: char) -> (r: bool)
        ensures
            r == self.cuts(c),
    {
        match self {
            Cut::At(a) => c == *a,
            Cut::Either(a, b) => c == *a || c == *b,
            Cut::Blank => is_white_space(c),
        }
    }
}

/// The pieces of `s` between the characters it is cut at. There is always at
/// least one piece; adjacent cuts leave empty pieces.
pub open spec fn split(s: Seq<char>, cut: Cut) -> Seq<Seq<char>>
    decreases s.len(),
{
    if s.len() == 0 {
        seq![Seq::<char>::empty()]
    } else {
        let before = split(s.drop_last(), cut);
        if cut.cuts(s.last()) {
            before.push(Seq::<char>::empty())
        } else {
            before.drop_last().push(before.last().push(s.last()))
        }
    }
}

/// The pieces that hold at least one character.
pub open spec fn non_empty(pieces: Seq<Seq<char>>) -> Seq<Seq<char>> {
    pieces.filter(|p: Seq<char>| p.len() > 0)
}

/// A line without the carriage return that precedes its line feed.
pub open spec fn strip_cr(line: Seq<char>) -> Seq<char> {
    if line.len() > 0 && line.last() == '\r' {
        line.drop_last()
    } else {
        line
    }
}

/// The lines of a text. A line ends at a line feed, with or without a carriage
/// return before it; the last line may lack the line feed.
pub open spec fn lines(s: Seq<char>) -> Seq<Seq<char>> {
    let parts = split(s, Cut::At('\n'));
    let ended = Seq::new((parts.len() - 1) as nat, |i: int| strip_cr(parts[i]));
    if parts.last().len() == 0 {
        ended
    } else {
        ended.push(parts.last())
    }
}

/// The pieces one after another with `sep` between neighbours.
pub open spec fn join(pieces: Seq<Seq<char>>, sep: Seq<char>) -> Seq<char>
    decreases pieces.len(),
{
    if pieces.len() == 0 {
        Seq::<char>::empty()
    } else if pieces.len() == 1 {
        pieces[0]
    } else {
        join(pieces.drop_last(), sep) + sep + pieces.last()
    }
}

/// Whether `part` occurs in `s` at position `i`.
pub open spec fn occurs_at(s: Seq<char>, part: Seq<char>, i: int) -> bool {
    0 <= i && i + part.len() <= s.len() && s.subrange(i, i + part.len()) == part
}

/// Whether `part` occurs anywhere in `s`.
pub open spec fn occurs(s: Seq<char>, part: Seq<char>) -> bool {
    exists|i: int| occurs_at(s, part, i)
}

/// ASCII upper-case letters turned into lower-case ones; nothing else changes.
pub open spec fn lower_char(c: char) -> char {
    if 'A' <= c <= 'Z' {
        ((c as u32) + 32) as char
    } else {
        c
    }
}

/// [`lower_char`] on every character.
pub open spec fn lower(s: Seq<char>) -> Seq<char> {
    Seq::new(s.len(), |i: int| lower_char(s[i]))
}

/// A file name below a directory, with exactly one separator added where the
/// directory does not end in one.
pub open spec fn path_join(dir: Seq<char>, leaf: Seq<char>) -> Seq<char> {
    if dir.len() == 0 || dir.last() == '/' {
        dir + leaf
    } else {
        dir + "/"@ + leaf
    }
}

/// How many characters come before the first `c`; all of them if there is none.
pub open spec fn until(s: Seq<char>, c: char) -> int
    decreases s.len(),
{
    if s.len() == 0 || s[0] == c {
        0
    } else {
        1 + until(s.drop_first(), c)
    }
}

/// What comes before the first `c`, which may be everything.
pub open spec fn before(s: Seq<char>, c: char) -> Seq<char> {
    s.take(until(s, c))
}

/// What comes after the first `c`, if there is one.
pub open spec fn after(s: Seq<char>, c: char) -> Option<Seq<char>> {
    if until(s, c) < s.len() {
        Some(s.skip(until(s, c) + 1))
    } else {
        None
    }
}

/// Whether `c` has the Unicode `White_Space` property.
pub fn is_white_space(c: char) -> (r: bool)
    ensures
        r == white_space(c),
{
    let u: u32 = c as u32;
    (0x09 <= u && u <= 0x0d) || u == 0x20 || u == 0x85 || u == 0xa0 || u == 0x1680 || (0x2000 <= u
        && u <= 0x200a) || u == 0x2028 || u == 0x2029 || u == 0x202f || u == 0x205f || u == 0x3000
}

/// Whether two texts hold the same characters.
pub fn same(a: &str, b: &str) -> (r: bool)
    ensures
        r == (a@ == b@),
{
    a.to_owned() == b.to_owned()
}

/// The characters of a text.
pub fn chars_of(s: &str) -> (v: Vec<char>)
    ensures
        v@ == s@,
{
    let mut v: Vec<char> = Vec::new();
    for c in it: s.chars()
        invariant
            v@ == it.seq().take(it.index()),
            it.seq() == s@,
    {
        v.push(c);
    }
    v
}

/// The text made of `chars[from..to]`.
pub fn text_of(chars: &Vec<char>, from: usize, to: usize) -> (r: String)
    requires
        from <= to <= chars@.len(),
    ensures
        r@ == chars@.subrange(from as int, to as int),
{
    let mut r = String::new();
    let mut i: usize = from;
    while i < to
        invariant
            from <= i <= to <= chars@.len(),
            r@ == chars@.subrange(from as int, i as int),
        decreases to - i,
    {
        r.push(chars[i]);
        i = i + 1;
    }
    r
}

proof fn lemma_trim_start(s: Seq<char>, i: int)
    requires
        0 <= i <= s.len(),
        forall|k: int| 0 <= k < i ==> white_space(#[trigger] s[k]),
        i < s.len() ==> !white_space(s[i]),
    ensures
        trim_start(s) == s.skip(i),
    decreases i,
{
    if i > 0 {
        let rest = s.drop_first();
        assert(white_space(s[0]));
        assert forall|k: int| 0 <= k < i - 1 implies white_space(#[trigger] rest[k]) by {
            assert(rest[k] == s[k + 1]);
        }
        lemma_trim_start(rest, i - 1);
        assert(rest.skip(i - 1) =~= s.skip(i));
    } else {
        assert(s.skip(0) =~= s);
    }
}

proof fn lemma_trim_end(s: Seq<char>, j: int)
    requires
        0 <= j <= s.len(),
        forall|k: int| j <= k < s.len() ==> white_space(#[trigger] s[k]),
        j > 0 ==> !white_space(s[j - 1]),
    ensures
        trim_end(s) == s.take(j),
    decreases s.len() - j,
{
    if j < s.len() {
        let rest = s.drop_last();
        assert(white_space(s[s.len() - 1]));
        lemma_trim_end(rest, j);
        assert(rest.take(j) =~= s.take(j));
    } else {
        assert(s.take(j) =~= s);
    }
}

/// The text without its leading white space.
pub fn trimmed_start(s: &str) -> (r: String)
    ensures
        r@ == trim_start(s@),
{
    let chars = chars_of(s);
    let n: usize = chars.len();
    let mut i: usize = 0;
    while i < n && is_white_space(chars[i])
        invariant
            n == chars@.len(),
            0 <= i <= n,
            forall|k: int| 0 <= k < i ==> white_space(#[trigger] chars@[k]),
        decreases n - i,
    {
        i = i + 1;
    }
    proof {
        lemma_trim_start(s@, i as int);
        assert(s@.subrange(i as int, n as int) =~= s@.skip(i as int));
    }
    text_of(&chars, i, n)
}

/// The text without white space at either end.
pub fn trimmed(s: &str) -> (r: String)
    ensures
        r@ == trim(s@),
{
    let chars = chars_of(s);
    let n: usize = chars.len();
    let mut i: usize = 0;
    while i < n && is_white_space(chars[i])
        invariant
            n == chars@.len(),
            0 <= i <= n,
            forall|k: int| 0 <= k < i ==> white_space(#[trigger] chars@[k]),
        decreases n - i,
    {
        i = i + 1;
    }
    let mut j: usize = n;
    while j > i && is_white_space(chars[j - 1])
        invariant
            n == chars@.len(),
            i <= j <= n,
            forall|k: int| j <= k < n ==> white_space(#[trigger] chars@[k]),
        decreases j,
    {
        j = j - 1;
    }
    proof {
        lemma_trim_start(s@, i as int);
        let tail = s@.skip(i as int);
        assert forall|k: int| j - i <= k < tail.len() implies white_space(#[trigger] tail[k]) by {
            assert(tail[k] == chars@[k + i]);
        }
        if j > i {
            assert(tail[j - i - 1] == chars@[j - 1]);
        }
        lemma_trim_end(tail, j - i);
        assert(tail.take(j - i) =~= s@.subrange(i as int, j as int));
    }
    text_of(&chars, i, j)
}

/// The pieces of a text between the characters it is cut at.
pub fn split_text(s: &str, cut: Cut) -> (r: Vec<String>)
    ensures
        texts(r@) == split(s@, cut),
        r@.len() >= 1,
{
    let chars = chars_of(s);
    let n: usize = chars.len();
    let mut done: Vec<String> = Vec::new();
    let mut piece = String::new();
    let mut i: usize = 0;
    assert(chars@.take(0) =~= Seq::<char>::empty());
    assert(texts(done@).push(piece@) =~= split(chars@.take(0), cut));
    while i < n
        invariant
            n == chars@.len(),
            0 <= i <= n,
            texts(done@).push(piece@) == split(chars@.take(i as int), cut),
        decreases n - i,
    {
        let ghost before = texts(done@).push(piece@);
        let c = chars[i];
        assert(chars@.take(i + 1).drop_last() =~= chars@.take(i as int));
        assert(chars@.take(i + 1).last() == c);
        assert(before.drop_last() =~= texts(done@));
        assert(before.last() == piece@);
        if cut.hits(c) {
            let ghost old_done = done@;
            done.push(piece);
            piece = String::new();
            assert(texts(done@) =~= before);
        } else {
            piece.push(c);
        }
        i = i + 1;
    }
    assert(chars@.take(n as int) =~= s@);
    let ghost before = texts(done@).push(piece@);
    done.push(piece);
    assert(texts(done@) =~= before);
    done
}

/// The pieces that hold at least one character, in their order.
pub fn drop_empty(pieces: &Vec<String>) -> (r: Vec<String>)
    ensures
        texts(r@) == non_empty(texts(pieces@)),
{
    let mut r: Vec<String> = Vec::new();
    let n: usize = pieces.len();
    let mut i: usize = 0;
    let ghost all = texts(pieces@);
    let ghost keep = |p: Seq<char>| p.len() > 0;
    proof {
        reveal(Seq::filter);
        assert(all.take(0) =~= Seq::<Seq<char>>::empty());
        assert(texts(r@) =~= all.take(0).filter(keep));
    }
    while i < n
        invariant
            n == pieces@.len(),
            0 <= i <= n,
            all == texts(pieces@),
            keep == (|p: Seq<char>| p.len() > 0),
            texts(r@) == all.take(i as int).filter(keep),
        decreases n - i,
    {
        proof {
            reveal(Seq::filter);
            assert(all.take(i + 1).drop_last() =~= all.take(i as int));
            assert(all.take(i + 1).last() == pieces@[i as int]@);
        }
        let ghost before = texts(r@);
        if !pieces[i].as_str().is_empty() {
            let kept = pieces[i].as_str().to_owned();
            r.push(kept);
            assert(texts(r@) =~= before.push(kept@));
        }
        i = i + 1;
    }
    assert(all.take(n as int) =~= all);
    r
}

/// The lines of a text.
pub fn lines_of(s: &str) -> (r: Vec<String>)
    ensures
        texts(r@) == lines(s@),
{
    let parts = split_text(s, Cut::At('\n'));
    let n: usize = parts.len();
    let ghost all = texts(parts@);
    let mut r: Vec<String> = Vec::new();
    let mut i: usize = 0;
    while i < n - 1
        invariant
            n == parts@.len(),
            n >= 1,
            0 <= i <= n - 1,
            all == texts(parts@),
            texts(r@) =~= Seq::new(i as nat, |k: int| strip_cr(all[k])),
        decreases n - 1 - i,
    {
        let ghost before = texts(r@);
        let chars = chars_of(parts[i].as_str());
        let len: usize = chars.len();
        let line = if len > 0 && chars[len - 1] == '\r' {
            text_of(&chars, 0, len - 1)
        } else {
            text_of(&chars, 0, len)
        };
        assert(line@ =~= strip_cr(all[i as int]));
        r.push(line);
        assert(texts(r@) =~= before.push(line@));
        i = i + 1;
    }
    if !parts[n - 1].as_str().is_empty() {
        let ghost before = texts(r@);
        let last = parts[n - 1].as_str().to_owned();
        r.push(last);
        assert(texts(r@) =~= before.push(last@));
    }
    r
}

/// The pieces one after another with `sep` between neighbours.
pub fn joined(pieces: &Vec<String>, sep: &str) -> (r: String)
    ensures
        r@ == join(texts(pieces@), sep@),
{
    let mut r = String::new();
    let n: usize = pieces.len();
    let ghost all = texts(pieces@);
    let mut i: usize = 0;
    while i < n
        invariant
            n == pieces@.len(),
            0 <= i <= n,
            all == texts(pieces@),
            r@ == join(all.take(i as int), sep@),
        decreases n - i,
    {
        proof {
            assert(all.take(i + 1).drop_last() =~= all.take(i as int));
            assert(all.take(i + 1).last() == pieces@[i as int]@);
            if i == 0 {
                assert(r@ + pieces@[0]@ =~= pieces@[0]@);
            }
        }
        if i > 0 {
            r.append(sep);
        }
        r.append(pieces[i].as_str());
        i = i + 1;
    }
    assert(all.take(n as int) =~= all);
    r
}

/// Whether `s` begins with `prefix`.
pub fn begins_with(s: &str, prefix: &str) -> (r: bool)
    ensures
        r == prefix@.is_prefix_of(s@),
{
    let a = chars_of(s);
    let p = chars_of(prefix);
    matches_at(&a, &p, 0)
}

/// Whether `part` stands in `chars` at position `at`.
fn matches_at(chars: &Vec<char>, part: &Vec<char>, at: usize) -> (r: bool)
    requires
        at <= chars@.len(),
    ensures
        r == occurs_at(chars@, part@, at as int),
        at == 0 ==> r == part@.is_prefix_of(chars@),
{
    let n: usize = part.len();
    let total: usize = chars.len();
    if total - at < n {
        return false;
    }
    let mut i: usize = 0;
    while i < n
        invariant
            n == part@.len(),
            total == chars@.len(),
            at + n <= total,
            0 <= i <= n,
            forall|k: int| 0 <= k < i ==> chars@[at + k] == #[trigger] part@[k],
        decreases n - i,
    {
        if chars[at + i] != part[i] {
            assert(chars@.subrange(at as int, at + n)[i as int] != part@[i as int]);
            return false;
        }
        i = i + 1;
    }
    assert(chars@.subrange(at as int, at + n) =~= part@);
    true
}

/// Whether `part` occurs anywhere in `s`.
pub fn has_part(s: &str, part: &str) -> (r: bool)
    ensures
        r == occurs(s@, part@),
{
    let a = chars_of(s);
    let p = chars_of(part);
    let n: usize = a.len();
    let mut i: usize = 0;
    while i < n
        invariant
            n == a@.len(),
            a@ == s@,
            p@ == part@,
            0 <= i <= n,
            forall|k: int| 0 <= k < i ==> !#[trigger] occurs_at(s@, part@, k),
        decreases n - i,
    {
        if matches_at(&a, &p, i) {
            return true;
        }
        i = i + 1;
    }
    let last = matches_at(&a, &p, n);
    assert(last ==> occurs_at(s@, part@, n as int));
    assert(!last ==> forall|k: int| !occurs_at(s@, part@, k));
    last
}

/// The text with ASCII letters in lower case.
pub fn lowered(s: &str) -> (r: String)
    ensures
        r@ == lower(s@),
{
    let chars = chars_of(s);
    let n: usize = chars.len();
    let mut r = String::new();
    let mut i: usize = 0;
    while i < n
        invariant
            n == chars@.len(),
            0 <= i <= n,
            r@ =~= lower(chars@.take(i as int)),
        decreases n - i,
    {
        let c = chars[i];
        if 'A' <= c && c <= 'Z' {
            r.push(((c as u8) + 32) as char);
        } else {
            r.push(c);
        }
        i = i + 1;
        assert(r@ =~= lower(chars@.take(i as int)));
    }
    assert(chars@.take(n as int) =~= s@);
    r
}

/// The text without any white space.
pub fn without_white_space(s: &str) -> (r: String)
    ensures
        r@ == s@.filter(|c: char| !white_space(c)),
{
    let chars = chars_of(s);
    let n: usize = chars.len();
    let mut r = String::new();
    let mut i: usize = 0;
    let ghost keep = |c: char| !white_space(c);
    proof {
        reveal(Seq::filter);
        assert(chars@.take(0).filter(keep) =~= Seq::<char>::empty());
    }
    while i < n
        invariant
            n == chars@.len(),
            0 <= i <= n,
            keep == (|c: char| !white_space(c)),
            r@ == chars@.take(i as int).filter(keep),
        decreases n - i,
    {
        proof {
            reveal(Seq::filter);
            assert(chars@.take(i + 1).drop_last() =~= chars@.take(i as int));
        }
        if !is_white_space(chars[i]) {
            r.push(chars[i]);
        }
        i = i + 1;
    }
    assert(chars@.take(n as int) =~= s@);
    r
}

/// The path of `leaf` below the directory `dir`.
pub fn joined_path(dir: &str, leaf: &str) -> (r: String)
    ensures
        r@ == path_join(dir@, leaf@),
{
    let chars = chars_of(dir);
    let n: usize = chars.len();
    let mut r = dir.to_owned();
    if n > 0 && chars[n - 1] != '/' {
        r.append("/");
    }
    r.append(leaf);
    r
}

/// A text that may be missing, borrowed.
pub(crate) fn borrowed(t: &Option<String>) -> (r: Option<&str>)
    ensures
        opt_str(r) == opt_text(*t),
{
    match t {
        Some(s) => Some(s.as_str()),
        None => None,
    }
}

/// The first `c` is the one that no other comes before.
pub proof fn until_is_first(s: Seq<char>, c: char, i: int)
    requires
        0 <= i <= s.len(),
        forall|k: int| 0 <= k < i ==> #[trigger] s[k] != c,
        i < s.len() ==> s[i] == c,
    ensures
        until(s, c) == i,
    decreases i,
{
    if i > 0 {
        let rest = s.drop_first();
        assert(s[0] != c);
        assert forall|k: int| 0 <= k < i - 1 implies #[trigger] rest[k] != c by {
            assert(rest[k] == s[k + 1]);
        }
        until_is_first(rest, c, i - 1);
    }
}

/// What comes before and after the first `c`.
pub fn cut_at(s: &str, c: char) -> (r: (String, Option<String>))
    ensures
        r.0@ == before(s@, c),
        opt_text(r.1) == after(s@, c),
{
    let chars = chars_of(s);
    let n: usize = chars.len();
    let mut i: usize = 0;
    while i < n && chars[i] != c
        invariant
            n == chars@.len(),
            0 <= i <= n,
            forall|k: int| 0 <= k < i ==> #[trigger] chars@[k] != c,
        decreases n - i,
    {
        i = i + 1;
    }
    proof {
        until_is_first(s@, c, i as int);
    }
    let head = text_of(&chars, 0, i);
    assert(head@ =~= before(s@, c));
    if i < n {
        let tail = text_of(&chars, i + 1, n);
        assert(tail@ =~= s@.skip(i + 1));
        (head, Some(tail))
    } else {
        (head, None)
    }
}

} // verus!

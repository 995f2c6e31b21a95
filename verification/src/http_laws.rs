//! What holds of every response.
use vstd::prelude::*;

use crate::http;
use crate::number;
use crate::text;
use crate::text::Cut;
use crate::text_laws;

verus! {

/// Whether bytes are the header line of a chunk of `n` bytes: there is no line
/// end among them, and the size that they give is `n`.
pub open spec fn chunk_line(line: Seq<u8>, n: int) -> bool {
    &&& http::first_at(line + http::crlf(), http::crlf()) == Some(line.len() as int)
    &&& http::size_of_chunk(http::lossy(line)) == Ok::<int, Seq<char>>(n)
}

/// A body that is sent in chunks: the given parts, each behind its header line,
/// then the line that ends the body and whatever follows it.
pub open spec fn chunks(
    parts: Seq<Seq<u8>>,
    lines: Seq<Seq<u8>>,
    end: Seq<u8>,
    trailer: Seq<u8>,
) -> Seq<u8>
    decreases parts.len(),
{
    if parts.len() == 0 {
        end + http::crlf() + trailer
    } else {
        lines[0] + http::crlf() + parts[0] + http::crlf() + chunks(
            parts.drop_first(),
            lines.drop_first(),
            end,
            trailer,
        )
    }
}

/// The parts of a body, one behind the other.
pub open spec fn all_parts(parts: Seq<Seq<u8>>) -> Seq<u8>
    decreases parts.len(),
{
    if parts.len() == 0 {
        Seq::<u8>::empty()
    } else {
        parts[0] + all_parts(parts.drop_first())
    }
}

/// Whether the parts can be sent as chunks with these header lines: none is
/// empty, since that would end the body, each line gives the size of its part,
/// and the last line gives zero.
pub open spec fn sendable(parts: Seq<Seq<u8>>, lines: Seq<Seq<u8>>, end: Seq<u8>) -> bool {
    &&& lines.len() == parts.len()
    &&& chunk_line(end, 0)
    &&& forall|i: int|
        0 <= i < parts.len() ==> 0 < (#[trigger] parts[i]).len() && chunk_line(
            lines[i],
            parts[i].len() as int,
        )
}

/// Whether a text spells a number in hexadecimal digits, in either case.
pub open spec fn spells(row: Seq<char>, n: nat) -> bool {
    text::lower(row) == number::digits(n, 16)
}

proof fn lemma_hex_digits(n: nat)
    ensures
        number::digits(n, 16).len() > 0,
        forall|i: int|
            0 <= i < number::digits(n, 16).len() ==> {
                let c = #[trigger] number::digits(n, 16)[i];
                '0' <= c <= '9' || 'a' <= c <= 'f'
            },
    decreases n,
{
    if n >= 16 {
        lemma_hex_digits(n / 16);
    }
}

/// Whether a character is a hexadecimal digit, in either case.
spec fn hex_digit(c: char) -> bool {
    '0' <= c <= '9' || 'a' <= c <= 'f' || 'A' <= c <= 'F'
}

/// The case of the digits makes no difference to what they stand for.
proof fn lemma_case(row: Seq<char>, max: int)
    ensures
        number::digits_value(text::lower(row), 16, max) == number::digits_value(row, 16, max),
    decreases row.len(),
{
    if row.len() > 0 {
        lemma_case(row.drop_last(), max);
        assert(text::lower(row).drop_last() =~= text::lower(row.drop_last()));
        let c = row.last();
        assert(number::digit_value(text::lower_char(c), 16) == number::digit_value(c, 16));
    }
}

/// A size that is spelled right consists of digits and is read as it is meant.
proof fn lemma_spelled(row: Seq<char>, n: nat)
    requires
        spells(row, n),
        n <= usize::MAX,
    ensures
        row.len() > 0,
        forall|i: int| 0 <= i < row.len() ==> hex_digit(#[trigger] row[i]),
        http::size_of_chunk(row) == Ok::<int, Seq<char>>(n as int),
{
    let low = number::digits(n, 16);
    lemma_hex_digits(n);
    assert(low.len() == row.len());
    assert forall|i: int| 0 <= i < row.len() implies hex_digit(#[trigger] row[i]) by {
        assert(low[i] == text::lower_char(row[i]));
        assert('0' <= low[i] <= '9' || 'a' <= low[i] <= 'f');
    }
    assert(hex_digit(row[0]) && hex_digit(row[row.len() - 1]));
    text_laws::solid_text_is_trimmed(row);
    assert forall|i: int| 0 <= i < row.len() implies #[trigger] row[i] != ';' by {
        assert(hex_digit(row[i]));
    }
    text::until_is_first(row, ';', row.len() as int);
    assert(text::before(row, ';') =~= row);
    lemma_case(row, usize::MAX as int);
    number::digits_round_trip(n, 16, usize::MAX as int);
}

/// The bytes of digits are no line ends.
proof fn lemma_digit_bytes(row: Seq<char>)
    requires
        forall|i: int| 0 <= i < row.len() ==> hex_digit(#[trigger] row[i]),
    ensures
        vstd::utf8::encode_utf8(row).len() == row.len(),
        forall|i: int|
            0 <= i < row.len() ==> #[trigger] vstd::utf8::encode_utf8(row)[i] != http::crlf()[0],
        http::lossy(vstd::utf8::encode_utf8(row)) == row,
{
    let bytes = vstd::utf8::encode_utf8(row);
    assert(vstd::utf8::is_ascii_chars(row)) by {
        assert forall|i: int| 0 <= i < row.len() implies '\0' <= #[trigger] row[i] <= '\u{7f}' by {
            assert(hex_digit(row[i]));
        }
    }
    vstd::utf8::is_ascii_chars_encode_utf8(row);
    assert forall|i: int| 0 <= i < row.len() implies #[trigger] bytes[i] != http::crlf()[0] by {
        assert(hex_digit(row[i]));
        assert(bytes[i] == row[i] as u8);
    }
    vstd::utf8::encode_utf8_valid_utf8(row);
    vstd::utf8::encode_utf8_decode_utf8(row);
}

/// A mark that cannot begin inside what stands in front of it is found there.
proof fn lemma_found_behind(front: Seq<u8>, part: Seq<u8>, more: Seq<u8>)
    requires
        part.len() > 0,
        forall|i: int| 0 <= i < front.len() ==> #[trigger] front[i] != part[0],
    ensures
        http::first_at(front + part + more, part) == Some(front.len() as int),
    decreases front.len(),
{
    let whole = front + part + more;
    let n = part.len() as int;
    if front.len() == 0 {
        assert(whole.take(n) =~= part);
    } else {
        assert(whole[0] == front[0]);
        assert(whole.take(n)[0] == whole[0]);
        let rest = front.drop_first();
        assert forall|i: int| 0 <= i < rest.len() implies #[trigger] rest[i] != part[0] by {
            assert(rest[i] == front[i + 1]);
        }
        lemma_found_behind(rest, part, more);
        assert(whole.drop_first() =~= rest + part + more);
    }
}

/// A size that is spelled in hexadecimal digits, in either case, is the header
/// line of a chunk of that size.
pub proof fn spelled_size_is_a_chunk_line(row: Seq<char>, n: nat)
    requires
        spells(row, n),
        n <= usize::MAX,
    ensures
        chunk_line(vstd::utf8::encode_utf8(row), n as int),
{
    let bytes = vstd::utf8::encode_utf8(row);
    lemma_spelled(row, n);
    lemma_digit_bytes(row);
    assert forall|i: int| 0 <= i < bytes.len() implies #[trigger] bytes[i] != http::crlf()[0] by {}
    lemma_found_behind(bytes, http::crlf(), Seq::<u8>::empty());
    assert(bytes + http::crlf() + Seq::<u8>::empty() =~= bytes + http::crlf());
}

/// Parts can be sent with their sizes spelled in hexadecimal digits, in either
/// case, and a zero at the end.
pub proof fn spelled_sizes_are_sendable(parts: Seq<Seq<u8>>, sizes: Seq<Seq<char>>)
    requires
        sizes.len() == parts.len(),
        forall|i: int|
            0 <= i < parts.len() ==> 0 < (#[trigger] parts[i]).len() <= usize::MAX && spells(
                sizes[i],
                parts[i].len(),
            ),
    ensures
        sendable(
            parts,
            Seq::new(sizes.len(), |i: int| vstd::utf8::encode_utf8(sizes[i])),
            vstd::utf8::encode_utf8(seq!['0']),
        ),
{
    let lines = Seq::new(sizes.len(), |i: int| vstd::utf8::encode_utf8(sizes[i]));
    assert(text::lower(seq!['0']) =~= number::digits(0, 16));
    spelled_size_is_a_chunk_line(seq!['0'], 0);
    assert forall|i: int| 0 <= i < parts.len() implies 0 < (#[trigger] parts[i]).len()
        && chunk_line(lines[i], parts[i].len() as int) by {
        spelled_size_is_a_chunk_line(sizes[i], parts[i].len());
    }
}

/// A chunk header is found and read.
proof fn lemma_header_is_read(line: Seq<u8>, n: int, more: Seq<u8>)
    requires
        chunk_line(line, n),
    ensures
        ({
            let b = line + http::crlf() + more;
            let at = line.len() as int;
            &&& http::first_at(b, http::crlf()) == Some(at)
            &&& http::size_of_chunk(http::lossy(b.take(at))) == Ok::<int, Seq<char>>(n)
            &&& b.skip(at + 2) == more
        }),
{
    let b = line + http::crlf() + more;
    let at = line.len() as int;
    lemma_found_as_before(line + http::crlf(), http::crlf(), more, at);
    assert(b.take(at) =~= line);
    assert(b.skip(at + 2) =~= more);
}

proof fn lemma_sendable_rest(parts: Seq<Seq<u8>>, lines: Seq<Seq<u8>>, end: Seq<u8>)
    requires
        sendable(parts, lines, end),
        parts.len() > 0,
    ensures
        sendable(parts.drop_first(), lines.drop_first(), end),
        0 < parts[0].len(),
        chunk_line(lines[0], parts[0].len() as int),
{
    let rest = parts.drop_first();
    assert forall|i: int| 0 <= i < rest.len() implies 0 < (#[trigger] rest[i]).len() && chunk_line(
        lines.drop_first()[i],
        rest[i].len() as int,
    ) by {
        assert(rest[i] == parts[i + 1]);
    }
}

/// What is sent in chunks is what is read: putting the chunks together gives
/// the parts, however their sizes are written and whatever trailer follows.
pub proof fn chunks_are_read_back(
    parts: Seq<Seq<u8>>,
    lines: Seq<Seq<u8>>,
    end: Seq<u8>,
    trailer: Seq<u8>,
)
    requires
        sendable(parts, lines, end),
    ensures
        http::dechunked(chunks(parts, lines, end, trailer)) == Ok::<Seq<u8>, Seq<char>>(
            all_parts(parts),
        ),
    decreases parts.len(),
{
    let b = chunks(parts, lines, end, trailer);
    if parts.len() == 0 {
        lemma_header_is_read(end, 0, trailer);
    } else {
        lemma_sendable_rest(parts, lines, end);
        let part = parts[0];
        let left = chunks(parts.drop_first(), lines.drop_first(), end, trailer);
        let more = part + http::crlf() + left;
        let size = part.len() as int;
        lemma_header_is_read(lines[0], size, more);
        assert(b =~= lines[0] + http::crlf() + more);
        chunks_are_read_back(parts.drop_first(), lines.drop_first(), end, trailer);
        assert(more.skip(size + 2) =~= left);
        assert(more.take(size) =~= part);
    }
}

/// Part of a chunk header is no header.
proof fn lemma_header_cut_short(line: Seq<u8>, n: int, more: Seq<u8>, k: int)
    requires
        chunk_line(line, n),
        0 <= k < line.len() + 2,
    ensures
        http::dechunked((line + http::crlf() + more).take(k)) is Err,
{
    let head = line + http::crlf();
    let cut = head.take(k);
    assert((head + more).take(k) =~= cut);
    http::first_at_holds(cut, http::crlf());
    if let Some(i) = http::first_at(cut, http::crlf()) {
        lemma_found_as_before(cut, http::crlf(), head.skip(k), i);
        assert(cut + head.skip(k) =~= head);
        assert(false);
    }
}

/// A body that is cut short is never taken for a whole one: whatever is missing
/// at its end, be it only the last byte of the line that ends it, putting the
/// chunks together fails.
pub proof fn cut_short_is_an_error(
    parts: Seq<Seq<u8>>,
    lines: Seq<Seq<u8>>,
    end: Seq<u8>,
    k: int,
)
    requires
        sendable(parts, lines, end),
        0 <= k < chunks(parts, lines, end, Seq::<u8>::empty()).len(),
    ensures
        http::dechunked(chunks(parts, lines, end, Seq::<u8>::empty()).take(k)) is Err,
    decreases parts.len(),
{
    let none = Seq::<u8>::empty();
    let b = chunks(parts, lines, end, none);
    if parts.len() == 0 {
        lemma_header_cut_short(end, 0, none, k);
    } else {
        lemma_sendable_rest(parts, lines, end);
        let part = parts[0];
        let size = part.len() as int;
        let head = lines[0] + http::crlf();
        let h = head.len() as int;
        let left = chunks(parts.drop_first(), lines.drop_first(), end, none);
        let more = part + http::crlf() + left;
        assert(b =~= head + more);
        if k < h {
            lemma_header_cut_short(lines[0], size, more, k);
        } else {
            let rest = more.take(k - h);
            lemma_header_is_read(lines[0], size, rest);
            assert(b.take(k) =~= head + rest);
            if rest.len() >= size + 2 {
                let m = k - h - size - 2;
                cut_short_is_an_error(parts.drop_first(), lines.drop_first(), end, m);
                assert(rest.skip(size + 2) =~= left.take(m));
            }
        }
    }
}

proof fn lemma_found_as_before(bytes: Seq<u8>, part: Seq<u8>, more: Seq<u8>, i: int)
    requires
        http::first_at(bytes, part) == Some(i),
    ensures
        http::first_at(bytes + more, part) == Some(i),
    decreases bytes.len(),
{
    let n = part.len() as int;
    let whole = bytes + more;
    assert(whole.take(n) =~= bytes.take(n));
    if bytes.take(n) != part {
        lemma_found_as_before(bytes.drop_first(), part, more, i - 1);
        assert(whole.drop_first() =~= bytes.drop_first() + more);
    }
}

/// Whether a text can be the head of a response: the first blank line is the
/// one behind it.
pub open spec fn is_head(head: Seq<char>) -> bool {
    http::first_at(vstd::utf8::encode_utf8(head) + http::blank_line(), http::blank_line()) == Some(
        vstd::utf8::encode_utf8(head).len() as int,
    )
}

/// The bytes of a response.
pub open spec fn response_bytes(head: Seq<char>, body: Seq<u8>) -> Seq<u8> {
    vstd::utf8::encode_utf8(head) + http::blank_line() + body
}

proof fn lemma_response(head: Seq<char>, body: Seq<u8>)
    requires
        is_head(head),
    ensures
        http::response(response_bytes(head, body)) == http::response_with(
            http::head_of(head),
            body,
        ),
{
    let front = vstd::utf8::encode_utf8(head);
    let raw = response_bytes(head, body);
    lemma_found_as_before(
        front + http::blank_line(),
        http::blank_line(),
        body,
        front.len() as int,
    );
    assert(raw.take(front.len() as int) =~= front);
    assert(raw.skip(front.len() as int + 4) =~= body);
    vstd::utf8::encode_utf8_valid_utf8(head);
    vstd::utf8::encode_utf8_decode_utf8(head);
}

/// The body of a response that is not sent in chunks is read as it is, every
/// byte of it.
pub proof fn plain_body_is_read_back(head: Seq<char>, code: u16, body: Seq<u8>)
    requires
        is_head(head),
        http::head_of(head) == Ok::<(u16, bool), Seq<char>>((code, false)),
    ensures
        http::response(response_bytes(head, body)) == Ok::<(u16, Seq<u8>), Seq<char>>((code, body)),
{
    lemma_response(head, body);
}

/// The body of a response that is sent in chunks is read as the parts that
/// were sent.
pub proof fn chunked_body_is_read_back(
    head: Seq<char>,
    code: u16,
    parts: Seq<Seq<u8>>,
    lines: Seq<Seq<u8>>,
    end: Seq<u8>,
    trailer: Seq<u8>,
)
    requires
        is_head(head),
        http::head_of(head) == Ok::<(u16, bool), Seq<char>>((code, true)),
        sendable(parts, lines, end),
    ensures
        http::response(response_bytes(head, chunks(parts, lines, end, trailer))) == Ok::<
            (u16, Seq<u8>),
            Seq<char>,
        >((code, all_parts(parts))),
{
    lemma_response(head, chunks(parts, lines, end, trailer));
    chunks_are_read_back(parts, lines, end, trailer);
}

/// A response is parted at its first blank line: the head in front says what the
/// status is and whether the body comes in chunks, and all that follows is the
/// body. Without a blank line it is no response.
pub proof fn parted_at_the_first_blank_line(raw: Seq<u8>, at: int)
    requires
        0 <= at <= raw.len() - 4,
        raw[at] == 13 && raw[at + 1] == 10 && raw[at + 2] == 13 && raw[at + 3] == 10,
        forall|k: int|
            0 <= k < at ==> !(#[trigger] raw[k] == 13 && raw[k + 1] == 10 && raw[k + 2] == 13
                && raw[k + 3] == 10),
    ensures
        match http::head_of(http::lossy(raw.take(at))) {
            Err(e) => http::response(raw) == Err::<(u16, Seq<u8>), Seq<char>>(e),
            Ok((code, false)) => http::response(raw) == Ok::<(u16, Seq<u8>), Seq<char>>(
                (code, raw.skip(at + 4)),
            ),
            Ok((code, true)) => match http::dechunked(raw.skip(at + 4)) {
                Ok(body) => http::response(raw) == Ok::<(u16, Seq<u8>), Seq<char>>((code, body)),
                Err(e) => http::response(raw) == Err::<(u16, Seq<u8>), Seq<char>>(e),
            },
        },
{
    let mark = http::blank_line();
    assert(raw.subrange(at, at + 4) =~= mark);
    assert forall|k: int| 0 <= k < at implies #[trigger] raw.subrange(k, k + 4) != mark by {
        let part = raw.subrange(k, k + 4);
        assert(part[0] == raw[k] && part[1] == raw[k + 1] && part[2] == raw[k + 2] && part[3]
            == raw[k + 3]);
        assert(mark[0] == 13 && mark[1] == 10 && mark[2] == 13 && mark[3] == 10);
    }
    http::first_at_is_first(raw, mark, at);
}

/// Bytes without a blank line are no response.
pub proof fn no_response_without_a_blank_line(raw: Seq<u8>)
    requires
        forall|k: int|
            0 <= k <= raw.len() - 4 ==> !(#[trigger] raw[k] == 13 && raw[k + 1] == 10 && raw[k + 2]
                == 13 && raw[k + 3] == 10),
    ensures
        http::response(raw) == Err::<(u16, Seq<u8>), Seq<char>>("malformed http response"@),
{
    let mark = http::blank_line();
    http::first_at_holds(raw, mark);
    if let Some(i) = http::first_at(raw, mark) {
        let part = raw.subrange(i, i + 4);
        assert(part[0] == raw[i] && part[1] == raw[i + 1] && part[2] == raw[i + 2] && part[3]
            == raw[i + 3]);
        assert(mark[0] == 13 && mark[1] == 10 && mark[2] == 13 && mark[3] == 10);
    }
}

/// A body in chunks, chunk by chunk: the size in front of the first line end
/// says how many bytes follow it, a size of zero ends the body, and each chunk is
/// closed by two more bytes.
pub proof fn body_chunk_by_chunk(b: Seq<u8>, at: int, size: int)
    requires
        0 <= at <= b.len() - 2,
        b[at] == 13 && b[at + 1] == 10,
        forall|k: int| 0 <= k < at ==> !(#[trigger] b[k] == 13 && b[k + 1] == 10),
        http::size_of_chunk(http::lossy(b.take(at))) == Ok::<int, Seq<char>>(size),
    ensures
        size == 0 ==> http::dechunked(b) == Ok::<Seq<u8>, Seq<char>>(Seq::<u8>::empty()),
        size > 0 && at + size + 4 > b.len() ==> http::dechunked(b) == Err::<Seq<u8>, Seq<char>>(
            "truncated chunk body"@,
        ),
        size > 0 && at + size + 4 <= b.len() ==> match http::dechunked(b.skip(at + size + 4)) {
            Ok(more) => http::dechunked(b) == Ok::<Seq<u8>, Seq<char>>(
                b.subrange(at + 2, at + 2 + size) + more,
            ),
            Err(e) => http::dechunked(b) == Err::<Seq<u8>, Seq<char>>(e),
        },
{
    let mark = http::crlf();
    assert(b.subrange(at, at + 2) =~= mark);
    assert forall|k: int| 0 <= k < at implies #[trigger] b.subrange(k, k + 2) != mark by {
        let part = b.subrange(k, k + 2);
        assert(part[0] == b[k] && part[1] == b[k + 1]);
        assert(mark[0] == 13 && mark[1] == 10);
    }
    http::first_at_is_first(b, mark, at);
    http::chunk_size_is_not_negative(http::lossy(b.take(at)));
    if size > 0 && at + size + 4 <= b.len() {
        assert(b.skip(at + 2).skip(size + 2) =~= b.skip(at + size + 4));
        assert(b.skip(at + 2).take(size) =~= b.subrange(at + 2, at + 2 + size));
    }
}

/// The size of a chunk stands in front of any semicolon, in hexadecimal; white
/// space around it makes no difference, nor does what follows the semicolon.
pub proof fn size_in_front_of_the_semicolon(
    a: Seq<char>,
    size: Seq<char>,
    b: Seq<char>,
    extension: Seq<char>,
)
    requires
        forall|i: int| 0 <= i < a.len() ==> text::white_space(#[trigger] a[i]),
        forall|i: int| 0 <= i < b.len() ==> text::white_space(#[trigger] b[i]),
        size.len() > 0 && !text::white_space(size[0]) && !text::white_space(size.last()),
        forall|i: int| 0 <= i < size.len() ==> #[trigger] size[i] != ';',
        extension.len() > 0 && !text::white_space(extension.last()),
    ensures
        match number::number(size, 16, usize::MAX as int) {
            Ok(n) => http::size_of_chunk(a + size + b) == Ok::<int, Seq<char>>(n)
                && http::size_of_chunk(a + size + b.push(';') + extension) == Ok::<int, Seq<char>>(
                n,
            ),
            Err(_) => http::size_of_chunk(a + size + b) is Err && http::size_of_chunk(
                a + size + b.push(';') + extension,
            ) is Err,
        },
{
    let none = Seq::<char>::empty();
    text_laws::trimming_leaves_the_middle(a, size, b);
    text_laws::parted_at_the_first(size, ';', none);
    text_laws::solid_text_is_trimmed(size);
    let long = size + b.push(';') + extension;
    text_laws::trimming_leaves_the_middle(a, long, none);
    assert(a + long + none =~= a + size + b.push(';') + extension);
    let front = size + b;
    assert(!text::white_space(';'));
    assert forall|i: int| 0 <= i < front.len() implies #[trigger] front[i] != ';' by {
        if i >= size.len() {
            assert(text::white_space(b[i - size.len()]));
        } else {
            assert(size[i] != ';');
        }
    }
    text_laws::parted_at_the_first(front, ';', extension);
    assert(front.push(';') + extension =~= long);
    text_laws::trimming_leaves_the_middle(none, size, b);
    assert(none + size + b =~= front);
}

/// The status is the second word of the status line, whatever the words around
/// it and however many blanks part them.
pub proof fn status_is_the_second_word(
    protocol: Seq<char>,
    code: Seq<char>,
    reason: Seq<char>,
)
    requires
        protocol.len() > 0,
        code.len() > 0,
        forall|i: int| 0 <= i < protocol.len() ==> !text::white_space(#[trigger] protocol[i]),
        forall|i: int| 0 <= i < code.len() ==> !text::white_space(#[trigger] code[i]),
    ensures
        ({
            let line = protocol.push(' ') + code;
            match number::number(code, 10, 65535) {
                Ok(n) => http::status_of(line) == Ok::<u16, Seq<char>>(n as u16) && http::status_of(
                    line.push(' ') + reason,
                ) == Ok::<u16, Seq<char>>(n as u16),
                Err(_) => http::status_of(line) == Err::<u16, Seq<char>>(
                    "bad status line: "@ + line,
                ) && http::status_of(line.push(' ') + reason) == Err::<u16, Seq<char>>(
                    "bad status line: "@ + (line.push(' ') + reason),
                ),
            }
        }),
        http::status_of(protocol) == Err::<u16, Seq<char>>("bad status line: "@ + protocol),
{
    let cut = Cut::Blank;
    let line = protocol.push(' ') + code;
    assert(text::white_space(' '));
    text_laws::split_without_cut(protocol, cut);
    text_laws::split_without_cut(code, cut);
    text_laws::split_at_cut(protocol, ' ', code, cut);
    text_laws::split_at_cut(line, ' ', reason, cut);
    let two = seq![protocol, code];
    let more = text::split(reason, cut);
    assert(text::split(line, cut) =~= two);
    assert(text::split(line.push(' ') + reason, cut) =~= two + more);
    let none = Seq::<Seq<char>>::empty();
    text_laws::empty_pieces_are_dropped(none, protocol);
    text_laws::empty_pieces_are_dropped(none.push(protocol), code);
    assert(none.push(protocol).push(code) =~= two);
    assert(none.push(protocol) =~= seq![protocol]);
    assert(text::non_empty(two) =~= two);
    lemma_kept_in_front(two, more);
}

proof fn lemma_kept_in_front(a: Seq<Seq<char>>, b: Seq<Seq<char>>)
    requires
        text::non_empty(a) == a,
    ensures
        text::non_empty(a + b).len() >= a.len(),
        text::non_empty(a + b).take(a.len() as int) == a,
    decreases b.len(),
{
    if b.len() > 0 {
        lemma_kept_in_front(a, b.drop_last());
        text_laws::empty_pieces_are_dropped(a + b.drop_last(), b.last());
        assert((a + b.drop_last()).push(b.last()) =~= a + b);
        let kept = text::non_empty(a + b.drop_last());
        assert(kept.push(b.last()).take(a.len() as int) =~= kept.take(a.len() as int));
    } else {
        assert(a + b =~= a);
        assert(a.take(a.len() as int) =~= a);
    }
}

/// The status line is the first line of the head, and the body comes in chunks
/// exactly if one of the lines behind it says so.
pub proof fn head_line_by_line(status: Seq<char>, rest: Seq<char>, code: u16)
    requires
        forall|i: int| 0 <= i < status.len() ==> #[trigger] status[i] != '\n',
        http::status_of(status) == Ok::<u16, Seq<char>>(code),
    ensures
        http::head_of(status.push('\r').push('\n') + rest) == Ok::<(u16, bool), Seq<char>>(
            (
                code,
                exists|i: int|
                    0 <= i < text::lines(rest).len() && http::says_chunked(
                        #[trigger] text::lines(rest)[i],
                    ),
            ),
        ),
        status.len() > 0 ==> http::head_of(status) == Ok::<(u16, bool), Seq<char>>((code, false)),
{
    text_laws::text_line_by_line(status, rest);
    let rows = text::lines(status.push('\r').push('\n') + rest);
    let others = text::lines(rest);
    assert(rows == seq![status] + others);
    if exists|i: int| 0 <= i < others.len() && http::says_chunked(#[trigger] others[i]) {
        let i = choose|i: int| 0 <= i < others.len() && http::says_chunked(#[trigger] others[i]);
        assert(rows[i + 1] == others[i]);
    }
    if exists|i: int| 1 <= i < rows.len() && http::says_chunked(#[trigger] rows[i]) {
        let i = choose|i: int| 1 <= i < rows.len() && http::says_chunked(#[trigger] rows[i]);
        assert(rows[i] == others[i - 1]);
    }
}

/// A header says that the body comes in chunks exactly if its name is
/// transfer-encoding and the word chunked stands in it, in whatever case.
pub proof fn chunked_in_any_case(line: Seq<char>, same: Seq<char>, a: Seq<char>, b: Seq<char>)
    requires
        text::lower(line) == text::lower(same),
    ensures
        http::says_chunked(line) == http::says_chunked(same),
        http::says_chunked("transfer-encoding:"@ + a + "chunked"@ + b),
        http::says_chunked(line) ==> line.len() >= 25 && text::lower(line).take(18)
            == "transfer-encoding:"@,
        http::says_chunked(line) ==> text::occurs(text::lower(line), "chunked"@),
{
    reveal_strlit("transfer-encoding:");
    reveal_strlit("chunked");
    let name = "transfer-encoding:"@;
    let word = "chunked"@;
    let whole = name + a + word + b;
    let l = text::lower(whole);
    assert(l.take(18) =~= name);
    assert(name.is_prefix_of(l));
    let at = 18 + a.len();
    assert(l.subrange(at as int, at as int + 7) =~= word);
    assert(text::occurs_at(l, word, at as int));
    if http::says_chunked(line) {
        let low = text::lower(line);
        assert(low.take(18) =~= name);
        let i = choose|i: int| text::occurs_at(low, word, i);
        let found = low.subrange(i, i + 7);
        if i < 18 {
            assert(name[i] == found[0]);
            assert(low[i] == 'c');
            assert(i == 11);
            assert(found[1] == low[12]);
            assert(word[1] == 'h' && low.take(18)[12] == low[12]);
        }
    }
}

/// A request asks the service for a path in one line, names the host, asks for
/// the connection to be closed, and gives each header on a line of its own; a
/// blank line ends it.
pub proof fn request_line_by_line(
    method: Seq<char>,
    path: Seq<char>,
    headers: Seq<(Seq<char>, Seq<char>)>,
    name: Seq<char>,
    value: Seq<char>,
)
    ensures
        http::request_text(method, path, Seq::<(Seq<char>, Seq<char>)>::empty()) == method + " "@
            + path + " HTTP/1.1\r\nHost: 169.254.169.254\r\nConnection: close\r\n\r\n"@,
        ({
            let less = http::request_text(method, path, headers);
            http::request_text(method, path, headers.push((name, value))) == less.take(
                less.len() - 2,
            ) + name + ": "@ + value + "\r\n\r\n"@
        }),
{
    reveal_strlit(" HTTP/1.1\r\nHost: 169.254.169.254\r\nConnection: close\r\n");
    reveal_strlit(" HTTP/1.1\r\nHost: 169.254.169.254\r\nConnection: close\r\n\r\n");
    reveal_strlit("\r\n");
    reveal_strlit("\r\n\r\n");
    let none = Seq::<(Seq<char>, Seq<char>)>::empty();
    assert(http::header_lines(none) == Seq::<char>::empty());
    assert(http::request_text(method, path, none) =~= method + " "@ + path
        + " HTTP/1.1\r\nHost: 169.254.169.254\r\nConnection: close\r\n\r\n"@);
    let more = headers.push((name, value));
    assert(more.drop_last() =~= headers);
    assert(more.last() == (name, value));
    let less = http::request_text(method, path, headers);
    assert(http::request_text(method, path, more) =~= less.take(less.len() - 2) + name + ": "@
        + value + "\r\n\r\n"@);
}

} // verus!

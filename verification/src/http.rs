//! The little HTTP/1.1 that talking to a metadata service takes.
use vstd::prelude::*;
use vstd::slice::{slice_subrange, slice_to_vec};
use vstd::string::*;

use crate::number;
use crate::number::parse_number;
use crate::text;
use crate::text::{
    begins_with, cut_at, drop_empty, has_part, lines_of, lowered, split_text, trimmed, Cut,
};

verus! {

/// What reading bytes that are no valid UTF-8 as text gives: it has the
/// replacement character in place of whatever cannot be decoded.
pub uninterp spec fn utf8_repaired(bytes: Seq<u8>) -> Seq<char>;

/// Bytes read as text.
pub open spec fn lossy(bytes: Seq<u8>) -> Seq<char> {
    if vstd::utf8::valid_utf8(bytes) {
        vstd::utf8::decode_utf8(bytes)
    } else {
        utf8_repaired(bytes)
    }
}

/// `String::from_utf8_lossy` of std: valid UTF-8 is decoded as it stands; of
/// other input nothing is claimed but that the text depends on the bytes alone.
#[verifier::external_body]
pub(crate) fn lossy_text(bytes: &[u8]) -> (r: String)
    ensures
        r@ == if vstd::utf8::valid_utf8(bytes@) {
            vstd::utf8::decode_utf8(bytes@)
        } else {
            utf8_repaired(bytes@)
        },
{
    String::from_utf8_lossy(bytes).into_owned()
}

/// Where `part` first stands in the bytes.
pub open spec fn first_at(bytes: Seq<u8>, part: Seq<u8>) -> Option<int>
    decreases bytes.len(),
{
    if bytes.len() < part.len() || bytes.len() == 0 {
        None
    } else if bytes.take(part.len() as int) == part {
        Some(0)
    } else {
        match first_at(bytes.drop_first(), part) {
            Some(i) => Some(i + 1),
            None => None,
        }
    }
}

/// A carriage return and a line feed.
pub open spec fn crlf() -> Seq<u8> {
    seq![13u8, 10u8]
}

/// The end of the head of a response.
pub open spec fn blank_line() -> Seq<u8> {
    seq![13u8, 10u8, 13u8, 10u8]
}

/// A response: its status and its body, or what is wrong with it.
pub open spec fn reply_view(r: Result<(u16, Vec<u8>), String>) -> Result<
    (u16, Seq<u8>),
    Seq<char>,
> {
    match r {
        Ok((code, body)) => Ok((code, body@)),
        Err(e) => Err(e@),
    }
}

/// The size that a chunk header gives: hexadecimal digits up to a semicolon.
pub open spec fn size_of_chunk(header: Seq<char>) -> Result<int, Seq<char>> {
    match number::number(
        text::trim(text::before(text::trim(header), ';')),
        16,
        usize::MAX as int,
    ) {
        Ok(n) => Ok(n),
        Err(e) => Err("bad chunk size '"@ + header + "': "@ + e.words()),
    }
}

/// The content of a body that is sent in chunks, which a chunk of size zero
/// ends; what follows that is not looked at.
pub open spec fn dechunked(b: Seq<u8>) -> Result<Seq<u8>, Seq<char>>
    decreases b.len(),
{
    match first_at(b, crlf()) {
        None => Err("truncated chunk header"@),
        Some(at) => match size_of_chunk(lossy(b.take(at))) {
            Err(e) => Err(e),
            Ok(size) => {
                let rest = b.skip(at + 2);
                if size == 0 {
                    Ok(Seq::<u8>::empty())
                } else if rest.len() < size + 2 {
                    Err("truncated chunk body"@)
                } else {
                    proof {
                        first_at_holds(b, crlf());
                        chunk_size_is_not_negative(lossy(b.take(at)));
                    }
                    match dechunked(rest.skip(size + 2)) {
                        Err(e) => Err(e),
                        Ok(more) => Ok(rest.take(size) + more),
                    }
                }
            },
        },
    }
}

/// Whether a header line says that the body comes in chunks.
pub open spec fn says_chunked(line: Seq<char>) -> bool {
    let l = text::lower(line);
    "transfer-encoding:"@.is_prefix_of(l) && text::occurs(l, "chunked"@)
}

/// The status in a status line: its second word.
pub open spec fn status_of(line: Seq<char>) -> Result<u16, Seq<char>> {
    let words = text::non_empty(text::split(line, Cut::Blank));
    if words.len() < 2 {
        Err("bad status line: "@ + line)
    } else {
        match number::number(words[1], 10, u16::MAX as int) {
            Ok(n) => Ok(n as u16),
            Err(_) => Err("bad status line: "@ + line),
        }
    }
}

/// What the head of a response says: the status, and whether the body comes in
/// chunks.
pub open spec fn head_of(head: Seq<char>) -> Result<(u16, bool), Seq<char>> {
    let rows = text::lines(head);
    if rows.len() == 0 {
        Err("empty http response"@)
    } else {
        match status_of(rows[0]) {
            Err(e) => Err(e),
            Ok(code) => Ok(
                (code, exists|i: int| 1 <= i < rows.len() && says_chunked(#[trigger] rows[i])),
            ),
        }
    }
}

/// The status and the body of a response, given what reading its head came to.
pub open spec fn response_with(head: Result<(u16, bool), Seq<char>>, body: Seq<u8>) -> Result<
    (u16, Seq<u8>),
    Seq<char>,
> {
    match head {
        Err(e) => Err(e),
        Ok((code, false)) => Ok((code, body)),
        Ok((code, true)) => match dechunked(body) {
            Err(e) => Err(e),
            Ok(content) => Ok((code, content)),
        },
    }
}

/// The status and the body of a response.
pub open spec fn response(raw: Seq<u8>) -> Result<(u16, Seq<u8>), Seq<char>> {
    match first_at(raw, blank_line()) {
        None => Err("malformed http response"@),
        Some(at) => response_with(head_of(lossy(raw.take(at))), raw.skip(at + 4)),
    }
}

/// The first place where `part` stands is where it is found.
pub proof fn first_at_is_first(bytes: Seq<u8>, part: Seq<u8>, i: int)
    requires
        part.len() > 0,
        0 <= i <= bytes.len() - part.len(),
        bytes.subrange(i, i + part.len()) == part,
        forall|k: int| 0 <= k < i ==> #[trigger] bytes.subrange(k, k + part.len()) != part,
    ensures
        first_at(bytes, part) == Some(i),
    decreases i,
{
    let n = part.len() as int;
    if i > 0 {
        let rest = bytes.drop_first();
        assert(bytes.take(n) =~= bytes.subrange(0, 0 + n));
        assert(rest.subrange(i - 1, i - 1 + n) =~= bytes.subrange(i, i + n));
        assert forall|k: int| 0 <= k < i - 1 implies #[trigger] rest.subrange(k, k + n)
            != part by {
            assert(rest.subrange(k, k + n) =~= bytes.subrange(k + 1, k + 1 + n));
        }
        first_at_is_first(rest, part, i - 1);
    } else {
        assert(bytes.take(n) =~= bytes.subrange(0, n));
    }
}

proof fn lemma_nowhere(bytes: Seq<u8>, part: Seq<u8>)
    requires
        part.len() > 0,
        forall|k: int|
            0 <= k <= bytes.len() - part.len() ==> #[trigger] bytes.subrange(k, k + part.len())
                != part,
    ensures
        first_at(bytes, part) is None,
    decreases bytes.len(),
{
    let n = part.len() as int;
    if bytes.len() >= n {
        let rest = bytes.drop_first();
        assert(bytes.take(n) =~= bytes.subrange(0, 0 + n));
        assert forall|k: int| 0 <= k <= rest.len() - n implies #[trigger] rest.subrange(k, k + n)
            != part by {
            assert(rest.subrange(k, k + n) =~= bytes.subrange(k + 1, k + 1 + n));
        }
        lemma_nowhere(rest, part);
    }
}

/// Where `part` is found, it stands.
pub proof fn first_at_holds(bytes: Seq<u8>, part: Seq<u8>)
    ensures
        first_at(bytes, part) matches Some(i) ==> 0 <= i <= bytes.len() - part.len()
            && bytes.subrange(i, i + part.len()) == part,
    decreases bytes.len(),
{
    if bytes.len() >= part.len() && bytes.len() > 0 {
        let n = part.len() as int;
        let rest = bytes.drop_first();
        first_at_holds(rest, part);
        assert(bytes.take(n) =~= bytes.subrange(0, n));
        if let Some(i) = first_at(rest, part) {
            assert(rest.subrange(i, i + n) =~= bytes.subrange(i + 1, i + 1 + n));
        }
    }
}

/// The size of a chunk is never negative.
pub proof fn chunk_size_is_not_negative(header: Seq<char>)
    ensures
        size_of_chunk(header) matches Ok(n) ==> n >= 0,
{
    number::number_is_not_negative(
        text::trim(text::before(text::trim(header), ';')),
        16,
        usize::MAX as int,
    );
}

/// Finds where `part` first stands in the bytes.
fn position(bytes: &[u8], part: &[u8]) -> (r: Option<usize>)
    requires
        part@.len() > 0,
    ensures
        match r {
            Some(i) => first_at(bytes@, part@) == Some(i as int) && i + part@.len()
                <= bytes@.len(),
            None => first_at(bytes@, part@) is None,
        },
{
    let n: usize = bytes.len();
    let m: usize = part.len();
    if n < m {
        return None;
    }
    let mut i: usize = 0;
    while i <= n - m
        invariant
            n == bytes@.len(),
            m == part@.len(),
            0 < m <= n,
            0 <= i <= n - m + 1,
            forall|k: int| 0 <= k < i ==> #[trigger] bytes@.subrange(k, k + m) != part@,
        decreases n - m + 1 - i,
    {
        let mut j: usize = 0;
        while j < m && bytes[i + j] == part[j]
            invariant
                n == bytes@.len(),
                m == part@.len(),
                0 < m <= n,
                i <= n - m,
                0 <= j <= m,
                forall|k: int| 0 <= k < j ==> bytes@[i + k] == #[trigger] part@[k],
            decreases m - j,
        {
            j = j + 1;
        }
        if j == m {
            assert(bytes@.subrange(i as int, i + m) =~= part@);
            proof {
                first_at_is_first(bytes@, part@, i as int);
            }
            return Some(i);
        }
        assert(bytes@.subrange(i as int, i + m)[j as int] != part@[j as int]);
        i = i + 1;
    }
    proof {
        lemma_nowhere(bytes@, part@);
    }
    None
}

/// The size that a chunk header gives.
pub fn chunk_size(header: &str) -> (r: Result<usize, String>)
    ensures
        match r {
            Ok(n) => size_of_chunk(header@) == Ok::<int, Seq<char>>(n as int),
            Err(e) => size_of_chunk(header@) == Err::<int, Seq<char>>(e@),
        },
{
    let (word, _) = cut_at(trimmed(header).as_str(), ';');
    match parse_number(trimmed(word.as_str()).as_str(), 16, usize::MAX as u64) {
        Ok(n) => Ok(n as usize),
        Err(e) => {
            let mut m = "bad chunk size '".to_owned();
            m.append(header);
            m.append("': ");
            m.append(e.message());
            Err(m)
        },
    }
}

/// The content of a body or an error, by their contents.
pub open spec fn body_view(r: Result<Vec<u8>, String>) -> Result<Seq<u8>, Seq<char>> {
    match r {
        Ok(b) => Ok(b@),
        Err(e) => Err(e@),
    }
}

/// What a list of bytes in front makes of the rest of a body.
spec fn after_bytes(front: Seq<u8>, rest: Result<Seq<u8>, Seq<char>>) -> Result<
    Seq<u8>,
    Seq<char>,
> {
    match rest {
        Ok(more) => Ok(front + more),
        Err(e) => Err(e),
    }
}

/// Puts a body that was sent in chunks together.
pub fn dechunk(b: &[u8]) -> (r: Result<Vec<u8>, String>)
    ensures
        body_view(r) == dechunked(b@),
{
    let n: usize = b.len();
    let mark = vec![13u8, 10u8];
    let mut out: Vec<u8> = Vec::new();
    let mut from: usize = 0;
    assert(b@.skip(0) =~= b@);
    assert(mark@ =~= crlf());
    proof {
        if let Ok(more) = dechunked(b@) {
            assert(out@ + more =~= more);
        }
    }
    loop
        invariant
            n == b@.len(),
            mark@ == crlf(),
            0 <= from <= n,
            dechunked(b@) == after_bytes(out@, dechunked(b@.skip(from as int))),
        decreases n - from,
    {
        let rest = slice_subrange(b, from, n);
        let ghost left = b@.skip(from as int);
        assert(rest@ =~= left);
        let at: usize = match position(rest, mark.as_slice()) {
            Some(at) => at,
            None => return Err("truncated chunk header".to_owned()),
        };
        let line = slice_subrange(rest, 0, at);
        assert(line@ =~= left.take(at as int));
        let header = lossy_text(line);
        let size: usize = match chunk_size(header.as_str()) {
            Ok(size) => size,
            Err(e) => return Err(e),
        };
        if size == 0 {
            assert(out@ + Seq::<u8>::empty() =~= out@);
            return Ok(out);
        }
        let start: usize = from + at + 2;
        let room: usize = n - start;
        assert(left.skip(at + 2) =~= b@.skip(start as int));
        if room < 2 || room - 2 < size {
            return Err("truncated chunk body".to_owned());
        }
        let ghost before = out@;
        let ghost chunk = left.skip(at + 2).take(size as int);
        let mut part = slice_to_vec(slice_subrange(b, start, start + size));
        assert(part@ =~= chunk);
        out.append(&mut part);
        let ghost next = left.skip(at + 2).skip(size + 2);
        from = start + size + 2;
        proof {
            assert(next =~= b@.skip(from as int));
            if let Ok(more) = dechunked(next) {
                assert(before + (chunk + more) =~= (before + chunk) + more);
            }
        }
    }
}

/// The contents of what a head says.
pub open spec fn head_view(r: Result<(u16, bool), String>) -> Result<(u16, bool), Seq<char>> {
    match r {
        Ok(h) => Ok(h),
        Err(e) => Err(e@),
    }
}

fn parse_status(line: &str) -> (r: Result<u16, String>)
    ensures
        match r {
            Ok(code) => status_of(line@) == Ok::<u16, Seq<char>>(code),
            Err(e) => status_of(line@) == Err::<u16, Seq<char>>(e@),
        },
{
    let words = drop_empty(&split_text(line, Cut::Blank));
    let mut m = "bad status line: ".to_owned();
    m.append(line);
    if words.len() < 2 {
        return Err(m);
    }
    assert(text::texts(words@)[1] == words@[1]@);
    match parse_number(words[1].as_str(), 10, 0xffff) {
        Ok(n) => Ok(n as u16),
        Err(_) => Err(m),
    }
}

/// Reads the head of a response: the status, and whether the body comes in
/// chunks.
pub fn parse_head(head: &str) -> (r: Result<(u16, bool), String>)
    ensures
        head_view(r) == head_of(head@),
{
    let rows = lines_of(head);
    let n: usize = rows.len();
    let ghost all = text::texts(rows@);
    if n == 0 {
        return Err("empty http response".to_owned());
    }
    assert(all[0] == rows@[0]@);
    let code: u16 = match parse_status(rows[0].as_str()) {
        Ok(code) => code,
        Err(e) => return Err(e),
    };
    let mut i: usize = 1;
    while i < n
        invariant
            n == rows@.len(),
            all == text::texts(rows@),
            all == text::lines(head@),
            1 <= i <= n,
            status_of(all[0]) == Ok::<u16, Seq<char>>(code),
            forall|k: int| 1 <= k < i ==> !says_chunked(#[trigger] all[k]),
        decreases n - i,
    {
        let l = lowered(rows[i].as_str());
        assert(all[i as int] == rows@[i as int]@);
        if begins_with(l.as_str(), "transfer-encoding:") && has_part(l.as_str(), "chunked") {
            assert(says_chunked(all[i as int]));
            return Ok((code, true));
        }
        i = i + 1;
    }
    Ok((code, false))
}

/// Reads a response whose head has been read already.
pub fn finish_response(head: Result<(u16, bool), String>, body: &[u8]) -> (r: Result<
    (u16, Vec<u8>),
    String,
>)
    ensures
        reply_view(r) == response_with(head_view(head), body@),
{
    match head {
        Err(e) => Err(e),
        Ok((code, chunked)) => {
            if chunked {
                match dechunk(body) {
                    Ok(content) => Ok((code, content)),
                    Err(e) => Err(e),
                }
            } else {
                Ok((code, slice_to_vec(body)))
            }
        },
    }
}

/// Reads a response: its status and its body.
pub fn parse_response(raw: &[u8]) -> (r: Result<(u16, Vec<u8>), String>)
    ensures
        reply_view(r) == response(raw@),
{
    let mark = vec![13u8, 10u8, 13u8, 10u8];
    assert(mark@ =~= blank_line());
    let n: usize = raw.len();
    match position(raw, mark.as_slice()) {
        None => Err("malformed http response".to_owned()),
        Some(at) => {
            let head = slice_subrange(raw, 0, at);
            let body = slice_subrange(raw, at + 4, n);
            assert(head@ =~= raw@.take(at as int));
            assert(body@ =~= raw@.skip(at + 4));
            finish_response(parse_head(lossy_text(head).as_str()), body)
        },
    }
}

/// The lines of a list of headers.
pub open spec fn header_lines(headers: Seq<(Seq<char>, Seq<char>)>) -> Seq<char>
    decreases headers.len(),
{
    if headers.len() == 0 {
        Seq::<char>::empty()
    } else {
        header_lines(headers.drop_last()) + headers.last().0 + ": "@ + headers.last().1
            + "\r\n"@
    }
}

/// The text of a request to the metadata service.
pub open spec fn request_text(
    method: Seq<char>,
    path: Seq<char>,
    headers: Seq<(Seq<char>, Seq<char>)>,
) -> Seq<char> {
    method + " "@ + path
        + " HTTP/1.1\r\nHost: 169.254.169.254\r\nConnection: close\r\n"@ + header_lines(headers)
        + "\r\n"@
}

/// The names and values of headers.
pub open spec fn header_views(headers: Seq<(String, String)>) -> Seq<(Seq<char>, Seq<char>)> {
    Seq::new(headers.len(), |i: int| (headers[i].0@, headers[i].1@))
}

/// The text of a request to the metadata service.
pub fn request(method: &str, path: &str, headers: &Vec<(String, String)>) -> (r: String)
    ensures
        r@ == request_text(method@, path@, header_views(headers@)),
{
    let mut r = method.to_owned();
    r.append(" ");
    r.append(path);
    r.append(" HTTP/1.1\r\nHost: 169.254.169.254\r\nConnection: close\r\n");
    let ghost front = r@;
    let ghost all = header_views(headers@);
    let n: usize = headers.len();
    let mut i: usize = 0;
    assert(r@ + header_lines(all.take(0)) =~= r@);
    while i < n
        invariant
            n == headers@.len(),
            all == header_views(headers@),
            0 <= i <= n,
            r@ == front + header_lines(all.take(i as int)),
        decreases n - i,
    {
        proof {
            assert(all.take(i + 1).drop_last() =~= all.take(i as int));
            assert(all.take(i + 1).last() == all[i as int]);
        }
        r.append(headers[i].0.as_str());
        r.append(": ");
        r.append(headers[i].1.as_str());
        r.append("\r\n");
        i = i + 1;
        assert(r@ =~= front + header_lines(all.take(i as int)));
    }
    assert(all.take(n as int) =~= all);
    r.append("\r\n");
    r
}

} // verus!

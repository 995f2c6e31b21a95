use tinycloudinit::datasource::{Seed, Wait};
use tinycloudinit::ec2::{attempt, fetch, get, reply, Asking, Attempt, Reply};
use tinycloudinit::http::{
    chunk_size, dechunk, finish_response, parse_head, parse_response, request,
};

#[test]
fn parse_content_length_response() {
    let raw = b"HTTP/1.1 200 OK\r\nContent-Type: text/plain\r\nContent-Length: 5\r\n\r\nhello";
    let (code, body) = parse_response(raw).unwrap();
    assert_eq!(code, 200);
    assert_eq!(body, b"hello");
}

#[test]
fn parse_404_response() {
    let raw = b"HTTP/1.1 404 Not Found\r\n\r\n";
    let (code, body) = parse_response(raw).unwrap();
    assert_eq!(code, 404);
    assert!(body.is_empty());
}

#[test]
fn parse_chunked_response() {
    let raw = b"HTTP/1.1 200 OK\r\nTransfer-Encoding: chunked\r\n\r\n5\r\nhello\r\n6\r\n world\r\n0\r\n\r\n";
    let (code, body) = parse_response(raw).unwrap();
    assert_eq!(code, 200);
    assert_eq!(body, b"hello world");
}

#[test]
fn dechunk_rejects_truncated() {
    assert!(dechunk(b"5\r\nhel").is_err());
    assert!(dechunk(b"zz\r\n").is_err());
}

#[test]
fn parse_rejects_garbage() {
    assert!(parse_response(b"not http").is_err());
    assert!(parse_response(b"HTTP/1.1 abc\r\n\r\n").is_err());
}

#[test]
fn response_errors_are_exact() {
    assert_eq!(parse_response(b"not http").unwrap_err(), "malformed http response");
    assert_eq!(parse_response(b"\r\n\r\nx").unwrap_err(), "empty http response");
    assert_eq!(
        parse_response(b"HTTP/1.1 abc\r\n\r\n").unwrap_err(),
        "bad status line: HTTP/1.1 abc"
    );
    assert_eq!(parse_response(b"HTTP/1.1\r\n\r\n").unwrap_err(), "bad status line: HTTP/1.1");
    assert_eq!(
        parse_response(b"HTTP/1.1 70000 X\r\n\r\n").unwrap_err(),
        "bad status line: HTTP/1.1 70000 X"
    );
}

#[test]
fn chunk_errors_are_exact() {
    assert_eq!(dechunk(b"5").unwrap_err(), "truncated chunk header");
    assert_eq!(dechunk(b"5\r\nhel").unwrap_err(), "truncated chunk body");
    assert_eq!(dechunk(b"5\r\nhello\r").unwrap_err(), "truncated chunk body");
    assert_eq!(
        dechunk(b"zz\r\n").unwrap_err(),
        "bad chunk size 'zz': invalid digit found in string"
    );
    assert_eq!(
        dechunk(b" \r\n").unwrap_err(),
        "bad chunk size ' ': cannot parse integer from empty string"
    );
    // a size beyond any memory
    assert_eq!(dechunk(b"ffffffffffffffff\r\nx").unwrap_err(), "truncated chunk body");
}

#[test]
fn chunk_extensions_and_trailers_are_ignored() {
    assert_eq!(dechunk(b"3;name=x\r\nabc\r\n0;last\r\nTrailer: 1\r\n\r\n").unwrap(), b"abc");
    assert_eq!(chunk_size(" 1A ; q").unwrap(), 26);
    assert_eq!(chunk_size("+f").unwrap(), 15);
}

#[test]
fn chunked_parts_come_back() {
    let parts: Vec<Vec<u8>> = vec![vec![7; 300], b"\r\n0\r\n".to_vec(), vec![0, 255, 13, 10]];
    let mut sent = Vec::new();
    for p in &parts {
        sent.extend_from_slice(format!("{:X}\r\n", p.len()).as_bytes());
        sent.extend_from_slice(p);
        sent.extend_from_slice(b"\r\n");
    }
    sent.extend_from_slice(b"0\r\nanything");
    assert_eq!(dechunk(&sent).unwrap(), parts.concat());
}

#[test]
fn sizes_are_read_in_either_case() {
    let data = vec![9u8; 0xabc];
    for size in ["abc", "ABC", "aBc", "00Abc", "abc;x=1"] {
        let mut sent = format!("{size}\r\n").into_bytes();
        sent.extend_from_slice(&data);
        sent.extend_from_slice(b"\r\n0\r\n");
        assert_eq!(dechunk(&sent).unwrap(), data);
    }
}

#[test]
fn cut_short_bodies_are_refused() {
    let whole = b"5\r\nhello\r\nA;x\r\n0123456789\r\n0\r\n";
    assert_eq!(dechunk(whole).unwrap(), b"hello0123456789");
    for k in 0..whole.len() {
        assert!(dechunk(&whole[..k]).is_err(), "{k}");
    }
}

#[test]
fn head_is_read_without_regard_to_case() {
    assert_eq!(parse_head("HTTP/1.1 200 OK\r\nTRANSFER-Encoding: gzip, Chunked").unwrap(), (200, true));
    assert_eq!(parse_head("HTTP/1.1   204").unwrap(), (204, false));
    // only header lines count
    assert_eq!(parse_head("transfer-encoding:chunked 200").unwrap(), (200, false));
    assert_eq!(finish_response(Ok((200, false)), b"5\r\n").unwrap(), (200, b"5\r\n".to_vec()));
    assert_eq!(finish_response(Err("x".into()), b"").unwrap_err(), "x");
}

#[test]
fn only_the_first_blank_line_ends_the_head() {
    let (code, body) = parse_response(b"HTTP/1.1 200 OK\r\n\r\na\r\n\r\nb").unwrap();
    assert_eq!((code, body), (200, b"a\r\n\r\nb".to_vec()));
}

#[test]
fn undecodable_bytes_are_replaced() {
    match reply(Some(b"HTTP/1.1 200 OK\r\n\r\na\xffb".to_vec())) {
        Reply::Body(t) => assert_eq!(t, "a\u{fffd}b"),
        other => panic!("{other:?}"),
    }
    match reply(Some("HTTP/1.1 200 OK\r\n\r\nnöde".as_bytes().to_vec())) {
        Reply::Body(t) => assert_eq!(t, "nöde"),
        other => panic!("{other:?}"),
    }
}

#[test]
fn replies_are_told_apart() {
    assert!(matches!(reply(None), Reply::Unreachable));
    assert!(matches!(reply(Some(b"junk".to_vec())), Reply::Unreachable));
    assert!(matches!(reply(Some(b"HTTP/1.1 404 X\r\n\r\n".to_vec())), Reply::Refused));
    assert!(matches!(reply(Some(b"HTTP/1.1 200 X\r\n\r\n".to_vec())), Reply::Body(_)));
}

#[test]
fn requests_have_the_expected_text() {
    assert_eq!(
        get("/latest/user-data", None),
        "GET /latest/user-data HTTP/1.1\r\nHost: 169.254.169.254\r\nConnection: close\r\n\r\n"
    );
    assert_eq!(
        get("/x", Some("tok")),
        "GET /x HTTP/1.1\r\nHost: 169.254.169.254\r\nConnection: close\r\nX-aws-ec2-metadata-token: tok\r\n\r\n"
    );
    let headers = vec![("A".to_string(), "1".to_string()), ("B".to_string(), "2".to_string())];
    assert_eq!(
        request("PUT", "/p", &headers),
        "PUT /p HTTP/1.1\r\nHost: 169.254.169.254\r\nConnection: close\r\nA: 1\r\nB: 2\r\n\r\n"
    );
}

fn asked(a: Attempt) -> (Asking, String) {
    match a {
        Attempt::Ask { asking, request } => (asking, request),
        Attempt::Done(s) => panic!("over: {s:?}"),
    }
}

fn done(a: Attempt) -> Option<Seed> {
    match a {
        Attempt::Done(s) => s,
        Attempt::Ask { request, .. } => panic!("asks: {request}"),
    }
}

#[test]
fn attempt_with_a_token() {
    let (asking, request) = asked(attempt());
    assert_eq!(
        request,
        "PUT /latest/api/token HTTP/1.1\r\nHost: 169.254.169.254\r\nConnection: close\r\nX-aws-ec2-metadata-token-ttl-seconds: 21600\r\nContent-Length: 0\r\n\r\n"
    );
    let (asking, request) = asked(asking.answer(Reply::Body(" tok\n".into())));
    assert!(request.starts_with("GET /latest/meta-data/instance-id "));
    assert!(request.contains("\r\nX-aws-ec2-metadata-token: tok\r\n"));
    let (asking, request) = asked(asking.answer(Reply::Body("i-1\n".into())));
    assert!(request.starts_with("GET /latest/meta-data/local-hostname "));
    let (asking, request) = asked(asking.answer(Reply::Body(" ip-1 ".into())));
    assert!(request.starts_with("GET /latest/user-data "));
    let seed = done(asking.answer(Reply::Body("#!/bin/sh\n".into()))).unwrap();
    assert_eq!(seed.source, "ec2-imdsv2 (169.254.169.254)");
    assert_eq!(seed.meta_data, "instance-id: i-1\nlocal-hostname: ip-1\n");
    assert_eq!(seed.user_data.as_deref(), Some("#!/bin/sh\n"));
}

#[test]
fn attempt_falls_back_without_a_token() {
    let (asking, _) = asked(attempt());
    let (asking, request) = asked(asking.answer(Reply::Refused));
    assert!(!request.contains("X-aws"));
    let (asking, _) = asked(asking.answer(Reply::Body("i-2".into())));
    let (asking, _) = asked(asking.answer(Reply::Refused));
    let seed = done(asking.answer(Reply::Unreachable)).unwrap();
    assert_eq!(seed.source, "ec2-imdsv1 (169.254.169.254)");
    assert_eq!(seed.meta_data, "instance-id: i-2\n");
    assert!(seed.user_data.is_none());
}

#[test]
fn attempt_needs_a_service_and_an_id() {
    let (asking, _) = asked(attempt());
    assert!(done(asking.answer(Reply::Unreachable)).is_none());
    let (asking, _) = asked(attempt());
    let (asking, _) = asked(asking.answer(Reply::Refused));
    assert!(done(asking.answer(Reply::Refused)).is_none());
    let (asking, _) = asked(attempt());
    let (asking, _) = asked(asking.answer(Reply::Refused));
    assert!(done(asking.answer(Reply::Body(" \n".into()))).is_none());
}

#[test]
fn fetch_retries_every_second() {
    let seed = || Seed { source: "s".into(), meta_data: "m".into(), user_data: None };
    assert!(matches!(fetch(Some(seed()), true, true), Wait::Found(_)));
    assert!(matches!(fetch(None, true, false), Wait::GiveUp));
    assert!(matches!(fetch(None, false, true), Wait::GiveUp));
    assert!(matches!(fetch(None, false, false), Wait::Sleep(1000)));
}

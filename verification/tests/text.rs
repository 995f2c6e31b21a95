use tinycloudinit::number::{decimal_text, number_text, parse_number, NumberError};
use tinycloudinit::text::{
    begins_with, chars_of, cut_at, drop_empty, has_part, is_white_space, joined, joined_path,
    lines_of, lowered, same, split_text, text_of, trimmed, trimmed_start, without_white_space,
    Cut,
};

const SAMPLES: [&str; 12] = [
    "",
    " ",
    "a",
    " a b ",
    "\u{3000}x\u{2003}\u{85}",
    "a\nb\r\nc",
    "a\r",
    "\r\n\n",
    "x\u{200b}",
    "a:b::c:",
    "Grüße ÄÖ Z",
    "..a..b",
];

#[test]
fn white_space_is_that_of_unicode() {
    for u in 0..=0x10ffffu32 {
        if let Some(c) = char::from_u32(u) {
            assert_eq!(is_white_space(c), c.is_whitespace(), "{u:x}");
        }
    }
}

#[test]
fn texts_are_cut_as_std_cuts_them() {
    for s in SAMPLES {
        assert_eq!(trimmed(s), s.trim());
        assert_eq!(trimmed_start(s), s.trim_start());
        assert_eq!(split_text(s, Cut::At(':')), s.split(':').collect::<Vec<_>>());
        assert_eq!(split_text(s, Cut::Either('.', ' ')), s.split(['.', ' ']).collect::<Vec<_>>());
        assert_eq!(
            drop_empty(&split_text(s, Cut::Blank)),
            s.split_whitespace().collect::<Vec<_>>()
        );
        assert_eq!(lines_of(s), s.lines().collect::<Vec<_>>());
        assert_eq!(lowered(s), s.to_ascii_lowercase());
        assert_eq!(
            without_white_space(s),
            s.chars().filter(|c| !c.is_whitespace()).collect::<String>()
        );
        let (head, tail) = cut_at(s, '.');
        match s.split_once('.') {
            Some((a, b)) => assert_eq!((head.as_str(), tail.as_deref()), (a, Some(b))),
            None => assert_eq!((head.as_str(), tail), (s, None)),
        }
        assert_eq!(text_of(&chars_of(s), 0, s.chars().count()), s);
    }
}

#[test]
fn texts_are_searched_as_std_searches_them() {
    for s in SAMPLES {
        for t in ["", "a", "b", "::", "\n", "Z", "..a..b..", "ü"] {
            assert_eq!(begins_with(s, t), s.starts_with(t), "{s:?} {t:?}");
            assert_eq!(has_part(s, t), s.contains(t), "{s:?} {t:?}");
            assert_eq!(same(s, t), s == t);
        }
    }
}

#[test]
fn texts_are_joined() {
    let v = |w: &[&str]| w.iter().map(|s| s.to_string()).collect::<Vec<_>>();
    for w in [vec![], vec!["a"], vec!["a", "", "b"]] {
        assert_eq!(joined(&v(&w), ", "), w.join(", "));
    }
    assert_eq!(joined_path("/a", "b"), "/a/b");
    assert_eq!(joined_path("/a/", "b"), "/a/b");
    assert_eq!(joined_path("", "b"), "b");
}

#[test]
fn numbers_are_read_as_std_reads_them() {
    for s in [
        "", "+", "-", "0", "+0", "-0", "007", "4294967295", "4294967296", "99999999999z", "z9",
        "1 ", "+1", "++1", "１", "18446744073709551615",
    ] {
        let ours = parse_number(s, 10, u32::MAX as u64);
        match s.parse::<u32>() {
            Ok(n) => assert_eq!(ours, Ok(n as u64), "{s}"),
            Err(e) => assert_eq!(ours.unwrap_err().message(), e.to_string(), "{s}"),
        }
    }
    for s in ["ff", "FF", "0x1", "g", "ffffffffffffffff", "10000000000000000"] {
        let ours = parse_number(s, 16, u64::MAX);
        match u64::from_str_radix(s, 16) {
            Ok(n) => assert_eq!(ours, Ok(n), "{s}"),
            Err(e) => assert_eq!(ours.unwrap_err().message(), e.to_string(), "{s}"),
        }
    }
    assert_eq!(parse_number("", 8, 1), Err(NumberError::Empty));
    assert_eq!(parse_number("8", 8, 9), Err(NumberError::InvalidDigit));
    assert_eq!(parse_number("2", 8, 1), Err(NumberError::TooLarge));
}

#[test]
fn numbers_read_back() {
    for n in [0u64, 7, 8, 9, 10, 255, 256, 0o644, u64::MAX] {
        assert_eq!(decimal_text(n), n.to_string());
        assert_eq!(number_text(n, 8), format!("{n:o}"));
        assert_eq!(number_text(n, 16), format!("{n:x}"));
        for radix in [2, 8, 10, 16] {
            assert_eq!(parse_number(&number_text(n, radix), radix, u64::MAX), Ok(n));
        }
    }
}

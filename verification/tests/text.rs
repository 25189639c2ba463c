//! Texts, held against what std makes of the same input.

use openshell_firecracker::text::{
    after_first_text, cat, cat3, chars_of, decimal_text, hex_pair_text, is_space_char, join_path,
    parse_failure_text, parse_unsigned_text, second_word, spaced_text, trim_text, ParseFailure,
};
use std::path::Path;

const TEXTS: [&str; 14] = [
    "",
    " ",
    "one",
    " one",
    "one two",
    "one two three",
    "\tone\r\n\r\ntwo ",
    "HTTP/1.1 204 No Content\r\n\r\n",
    "\u{3000}one\u{2009}two\u{85}",
    "\u{200b}one\u{200b}two",
    "é ü",
    "a\u{a0}b",
    "   \n  ",
    "\r\n\r\n\r\n\r\nx",
];

#[test]
fn white_space_is_that_of_char() {
    for code in 0..=0x10ffffu32 {
        if let Some(c) = char::from_u32(code) {
            assert_eq!(is_space_char(c), c.is_whitespace(), "{:x}", code);
        }
    }
}

#[test]
fn trimming_is_that_of_str() {
    for text in TEXTS {
        assert_eq!(trim_text(text), text.trim(), "{:?}", text);
    }
}

#[test]
fn second_word_is_that_of_split_whitespace() {
    for text in TEXTS {
        let expected = text.split_whitespace().nth(1).map(|w| w.to_string());
        assert_eq!(second_word(text), expected, "{:?}", text);
    }
}

#[test]
fn after_first_is_that_of_split_once() {
    for text in TEXTS {
        for pattern in ["\r\n\r\n", "o", " ", "two", "é", ""] {
            let expected = text.split_once(pattern).map(|(_, rest)| rest.to_string());
            assert_eq!(after_first_text(text, pattern), expected, "{:?} {:?}", text, pattern);
        }
    }
}

#[test]
fn parsing_is_that_of_integers() {
    let numbers = [
        "",
        "0",
        "7",
        "200",
        "007",
        "+5",
        "+",
        "-",
        "-5",
        "++5",
        " 5",
        "5 ",
        "5x",
        "x5",
        "65535",
        "65536",
        "99999999999999999999x",
        "18446744073709551615",
        "18446744073709551616",
        "184467440737095516150",
        "٣",
    ];
    for text in numbers {
        let wide = text.parse::<u64>().map_err(|e| e.to_string());
        let ours = parse_unsigned_text(text, u64::MAX).map_err(|e| parse_failure_text(e).to_string());
        assert_eq!(ours, wide, "{:?}", text);
        let narrow = text.parse::<u16>().map(|n| n as u64).map_err(|e| e.to_string());
        let ours = parse_unsigned_text(text, u16::MAX as u64)
            .map_err(|e| parse_failure_text(e).to_string());
        assert_eq!(ours, narrow, "{:?}", text);
    }
}

#[test]
fn parse_failures() {
    assert_eq!(parse_unsigned_text("", 9), Err(ParseFailure::Empty));
    assert_eq!(parse_unsigned_text("4a", 9), Err(ParseFailure::InvalidDigit));
    assert_eq!(parse_unsigned_text("10", 9), Err(ParseFailure::TooLarge));
    assert_eq!(parse_unsigned_text("9", 9), Ok(9));
}

#[test]
fn reading_a_numeral_gives_the_number_back() {
    for n in [0, 1, 9, 10, 99, 100, 204, 65535, 1048576, u64::MAX - 1, u64::MAX] {
        assert_eq!(decimal_text(n), n.to_string());
        assert_eq!(parse_unsigned_text(&decimal_text(n), u64::MAX), Ok(n));
    }
}

#[test]
fn hex_pairs() {
    for b in 0..=255u8 {
        assert_eq!(hex_pair_text(b), format!("{:02x}", b));
    }
}

#[test]
fn joining_is_that_of_path() {
    for base in ["", "/", "/tmp", "/tmp/", "rel", "rel/"] {
        for name in ["", "a", "a/b", "/abs", "fc-x.sock"] {
            let expected = Path::new(base).join(name).to_string_lossy().into_owned();
            assert_eq!(join_path(base, name), expected, "{:?} {:?}", base, name);
        }
    }
}

#[test]
fn small_pieces() {
    assert_eq!(cat("a", "bé"), "abé");
    assert_eq!(cat3("a", "", "c"), "ac");
    assert_eq!(chars_of("aé\u{10348}"), vec!['a', 'é', '\u{10348}']);
    for parts in [vec![], vec!["a".to_string()], vec!["a".to_string(), "".to_string(), "b c".to_string()]] {
        assert_eq!(spaced_text(&parts), parts.join(" "));
    }
}

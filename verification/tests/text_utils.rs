//! The verified text utilities behind parsing and rendering.

use guessing_game::text::join_u32;
use guessing_game::text::parse_u32;
use guessing_game::text::split_on;
use guessing_game::text::str_eq;
use guessing_game::text::trim;
use guessing_game::text::u32_string;
use guessing_game::words::first_word;

#[test]
fn parse_u32_reads_decimal_text() {
    assert_eq!(parse_u32("0"), Some(0));
    assert_eq!(parse_u32("42"), Some(42));
    assert_eq!(parse_u32("007"), Some(7));
    assert_eq!(parse_u32("+15"), Some(15));
    assert_eq!(parse_u32("4294967295"), Some(u32::MAX));
}

#[test]
fn parse_u32_rejects_everything_else() {
    assert_eq!(parse_u32(""), None);
    assert_eq!(parse_u32("+"), None);
    assert_eq!(parse_u32("-1"), None);
    assert_eq!(parse_u32("12a"), None);
    assert_eq!(parse_u32(" 12"), None);
    assert_eq!(parse_u32("4294967296"), None);
    assert_eq!(parse_u32("99999999999999999999"), None);
}

#[test]
fn rendering_and_parsing_agree() {
    for n in [0u32, 1, 9, 10, 99, 100, 12345, u32::MAX] {
        let text = u32_string(n);
        assert_eq!(parse_u32(&text), Some(n));
    }
    assert_eq!(u32_string(0), "0");
    assert_eq!(u32_string(10000), "10000");
}

#[test]
fn split_on_pipe() {
    let segs = split_on("Easy|bob|3", '|');
    assert_eq!(segs, vec!["Easy", "bob", "3"]);
    assert_eq!(split_on("Easy|X", '|'), vec!["Easy", "X"]);
    assert_eq!(split_on("", '|'), vec![""]);
    assert_eq!(split_on("a||b", '|'), vec!["a", "", "b"]);
    assert_eq!(split_on("a\nb\n", '\n'), vec!["a", "b", ""]);
}

#[test]
fn trim_strips_both_ends() {
    assert_eq!(trim("  spaced out \t\r"), "spaced out");
    assert_eq!(trim("bare"), "bare");
    assert_eq!(trim(" \t "), "");
    assert_eq!(trim(""), "");
}

#[test]
fn join_renders_guess_history() {
    assert_eq!(join_u32(&vec![10, 70, 42], " → "), "10 → 70 → 42");
    assert_eq!(join_u32(&vec![7], ", "), "7");
    assert_eq!(join_u32(&vec![], ", "), "");
}

#[test]
fn str_eq_compares_characters() {
    assert!(str_eq("warm", "warm"));
    assert!(!str_eq("warm", "warmer"));
    assert!(!str_eq("warm", "Warm"));
}

#[test]
fn first_word_of_literals() {
    assert_eq!(first_word("hello world from rust"), "hello");
    assert_eq!(first_word("singleword"), "singleword");
    assert_eq!(first_word(""), "");
}

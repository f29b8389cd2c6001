use dingoflow_native::commit::trim_text;
use dingoflow_native::num::{decimal_text, parse_i32, parse_u32};
use dingoflow_native::text::str_eq;
use dingoflow_native::{append_committed_delta, normalize_text, normalize_whisper_text, push_text_piece};

#[test]
fn normalize_collapses_whitespace() {
    assert_eq!(normalize_text("  hello \t  world\n "), "hello world");
    assert_eq!(normalize_text(""), "");
    assert_eq!(normalize_text(" \n\t "), "");
    assert_eq!(normalize_text("one"), "one");
    assert_eq!(normalize_text("a\u{3000}b\u{a0}\u{a0}c"), "a b c");
    assert_eq!(normalize_whisper_text(" Hello,  world. "), "Hello, world.");
}

#[test]
fn push_piece_joins_with_spaces() {
    let mut out = String::new();
    let mut wrote = false;
    push_text_piece(&mut out, "hello", &mut wrote);
    assert_eq!(out, "hello");
    assert!(wrote);
    push_text_piece(&mut out, "world", &mut wrote);
    assert_eq!(out, "hello world");
    push_text_piece(&mut out, ",", &mut wrote);
    assert_eq!(out, "hello world,");
    push_text_piece(&mut out, ")", &mut wrote);
    assert_eq!(out, "hello world,)");
    push_text_piece(&mut out, "..", &mut wrote);
    assert_eq!(out, "hello world,) ..");
    push_text_piece(&mut out, "(", &mut wrote);
    assert_eq!(out, "hello world,) .. (");
}

#[test]
fn first_piece_punctuation_has_no_space() {
    let mut out = String::new();
    let mut wrote = false;
    push_text_piece(&mut out, "?", &mut wrote);
    assert_eq!(out, "?");
}

#[test]
fn append_delta_rules() {
    let mut t = String::new();
    append_committed_delta(&mut t, "");
    assert_eq!(t, "");
    append_committed_delta(&mut t, "hello");
    assert_eq!(t, "hello");
    append_committed_delta(&mut t, "world");
    assert_eq!(t, "hello world");
    append_committed_delta(&mut t, ". next");
    assert_eq!(t, "hello world. next");
    append_committed_delta(&mut t, "");
    assert_eq!(t, "hello world. next");
    let mut s = String::from("line\n");
    append_committed_delta(&mut s, "more");
    assert_eq!(s, "line\nmore");
    let mut u = String::from("end ");
    append_committed_delta(&mut u, "x");
    assert_eq!(u, "end x");
}

#[test]
fn trim_removes_outer_whitespace() {
    assert_eq!(trim_text("  a b  "), "a b");
    assert_eq!(trim_text("\t\n"), "");
    assert_eq!(trim_text("x"), "x");
}

#[test]
fn decimal_numbers() {
    assert_eq!(decimal_text(0), "0");
    assert_eq!(decimal_text(7), "7");
    assert_eq!(decimal_text(16000), "16000");
    assert_eq!(decimal_text(u64::MAX), "18446744073709551615");
    assert_eq!(parse_u32("42"), Some(42));
    assert_eq!(parse_u32("+42"), Some(42));
    assert_eq!(parse_u32("4294967295"), Some(u32::MAX));
    assert_eq!(parse_u32("4294967296"), None);
    assert_eq!(parse_u32("-1"), None);
    assert_eq!(parse_u32(""), None);
    assert_eq!(parse_u32("+"), None);
    assert_eq!(parse_u32("12a"), None);
    assert_eq!(parse_u32("000000000000007"), Some(7));
    assert_eq!(parse_i32("-2147483648"), Some(i32::MIN));
    assert_eq!(parse_i32("2147483647"), Some(i32::MAX));
    assert_eq!(parse_i32("2147483648"), None);
    assert_eq!(parse_i32("-"), None);
    assert_eq!(parse_i32("-0"), Some(0));
    assert_eq!(parse_i32("+8"), Some(8));
    assert_eq!(parse_i32(" 8"), None);
    for s in ["0", "17", "+3", "-3", "99999999999", "x", ""] {
        assert_eq!(parse_u32(s), s.parse::<u32>().ok());
        assert_eq!(parse_i32(s), s.parse::<i32>().ok());
    }
    assert!(str_eq("abc", "abc"));
    assert!(!str_eq("abc", "abd"));
}

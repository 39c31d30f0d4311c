use token_monitor::clock::{started_at, MAX_INSTANT, MIN_INSTANT};
use token_monitor::files::{fingerprint, fingerprint_of, FileStat};
use token_monitor::json::{parse_json, Json};
use token_monitor::text::{
    blank, decimal_i64, decimal_u64, first_word_of, format_int_grouped, text_less, trimmed,
};

#[test]
fn instants_come_back_from_the_calendar() {
    assert_eq!(started_at(1787220850248, 5), 1787220850248);
    assert_eq!(started_at(0, 5), 0);
    assert_eq!(started_at(-1, 5), -1);
    assert_eq!(started_at(MIN_INSTANT, 5), MIN_INSTANT);
    assert_eq!(started_at(MIN_INSTANT - 1, 5), 5);
    assert_eq!(started_at(MAX_INSTANT, 5), MAX_INSTANT);
    assert_eq!(started_at(MAX_INSTANT + 1, 5), 5);
    assert_eq!(started_at(i64::MAX, 5), 5);
    assert_eq!(started_at(i64::MIN, 5), 5);
}

#[test]
fn fingerprints_show_every_change() {
    assert_eq!(fingerprint(3, -4, 5), "3:-4:5");
    let stat = |len, mtime| Some(FileStat { len, mtime_secs: mtime });
    assert_eq!(fingerprint_of(&vec![]), "0:0:0");
    assert_eq!(fingerprint_of(&vec![stat(1, Some(8)), stat(2, None), None]), "2:8:3");
    assert_eq!(fingerprint_of(&vec![stat(1, Some(-8))]), "1:0:1");
    assert_ne!(fingerprint(1, 23, 4), fingerprint(12, 3, 4));
}

#[test]
fn documents_are_read_by_their_parts() {
    let json = parse_json(r#" {"a": [1, -2.5, 1e400e], "b": null} "#);
    assert!(json.is_err());
    let json = parse_json(r#"{"a":[1,-2.5,18446744073709551615,true],"b":null,"a":{"x":"y"}}"#).unwrap();
    assert_eq!(json.get("a").and_then(|a| a.text_at("x")), Some("y"));
    assert!(matches!(json.get("b"), Some(Json::Null)));
    assert!(json.get("c").is_none());
    assert!(json.is_object());
    let list = parse_json("[1,-2.5,18446744073709551615,true]").unwrap();
    let items = list.as_array().unwrap();
    assert_eq!(items[0].as_i64(), Some(1));
    assert_eq!(items[1].as_i64(), None);
    assert_eq!(items[1].as_truncated(), -2);
    assert_eq!(items[2].as_i64(), None);
    assert!(matches!(items[3], Json::Bool(true)));
    assert!(list.get("a").is_none());
    assert!(!list.is_object());
}

#[test]
fn errors_are_the_words_of_the_parser() {
    let message = parse_json("{ this is not json").unwrap_err();
    assert_eq!(message, "key must be a string at line 1 column 3");
}

#[test]
fn deep_documents_are_refused() {
    let deep = |n: usize| format!("{}{}", "[".repeat(n), "]".repeat(n));
    assert!(parse_json(&deep(127)).is_ok());
    assert!(parse_json(&deep(128)).is_err());
}

#[test]
fn numbers_are_written_in_full() {
    assert_eq!(decimal_u64(0), "0");
    assert_eq!(decimal_u64(u64::MAX), "18446744073709551615");
    assert_eq!(decimal_i64(i64::MIN), "-9223372036854775808");
    assert_eq!(format_int_grouped(0), "0");
    assert_eq!(format_int_grouped(999), "999");
    assert_eq!(format_int_grouped(1_000), "1,000");
    assert_eq!(format_int_grouped(123_456_789), "123,456,789");
    assert_eq!(format_int_grouped(1_000_007), "1,000,007");
}

#[test]
fn white_space_is_that_of_unicode() {
    assert!(blank(" \t\n\u{85}\u{a0}\u{2003}\u{3000}"));
    assert!(!blank("\u{200b}"));
    assert_eq!(trimmed("\u{3000} a b \n"), " a b ".trim());
    assert_eq!(first_word_of(" \u{a0}one two"), Some("one".to_string()));
    assert_eq!(first_word_of("  "), None);
    for c in '\u{0}'..='\u{3100}' {
        assert_eq!(blank(&c.to_string()), c.is_whitespace());
    }
}

#[test]
fn texts_are_ordered_as_strings_are() {
    for a in ["", "a", "ab", "b", "\u{e9}", "\u{10000}", "\u{ffff}"] {
        for b in ["", "a", "ab", "b", "\u{e9}", "\u{10000}", "\u{ffff}"] {
            assert_eq!(text_less(a, b), a < b);
        }
    }
}

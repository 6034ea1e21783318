//! Text and JSON primitives, and sorting.

use kanban_core::json::{parse_lines, Json, JsonNumber};
use kanban_core::sorting::{sort, text_not_after, Timestamp};
use kanban_core::text::{
    contains, cut_before_last, decimal_text, ends_with, join, keep_nonblank, lines,
    lines_with_end, parse_i64, parse_u64, rsplit_once, signed_decimal_text, split, split_once,
    split_text, split_whitespace, starts_with, strip_prefix, strip_suffix, to_ascii_lowercase,
    trim, trim_end, trim_end_matches, trim_end_text, trim_start, trim_start_matches, utf8_text,
    IntError,
};

fn owned(parts: &[&str]) -> Vec<String> {
    parts.iter().map(|part| part.to_string()).collect()
}

#[test]
fn trimming_removes_every_white_space() {
    for text in ["", "  ", "\u{3000}a b\u{2028}\t", "x", "\u{85}\u{a0}é\n", "\u{200b}"] {
        assert_eq!(trim(text), text.trim());
        assert_eq!(trim_start(text), text.trim_start());
        assert_eq!(trim_end(text), text.trim_end());
    }
    assert_eq!(trim_start_matches("vv1", 'v'), "1");
    assert_eq!(trim_end_matches("a//", '/'), "a");
    assert_eq!(trim_end_text("r.git.git", ".git"), "r");
}

#[test]
fn splitting_matches_the_pieces() {
    assert_eq!(split("a//b", '/'), owned(&["a", "", "b"]));
    assert_eq!(split("", '/'), owned(&[""]));
    assert_eq!(join(&owned(&["a", "", "b"]), "/"), "a//b");
    assert_eq!(lines("a\r\nb\n\nc"), owned(&["a", "b", "", "c"]));
    assert_eq!(lines("a\n"), owned(&["a"]));
    assert_eq!(lines_with_end("a\nb"), (owned(&["a"]), "b".to_string()));
    assert_eq!(keep_nonblank(owned(&["", " ", "x"])), owned(&["x"]));
    assert_eq!(split_text("a--b--", "--"), owned(&["a", "b", ""]));
    assert_eq!(split_whitespace(" a \t\u{3000}b\n"), owned(&["a", "b"]));
    assert_eq!(split_once("a:b:c", ':'), Some(("a".into(), "b:c".into())));
    assert_eq!(rsplit_once("a@b@c", '@'), Some(("a@b".into(), "c".into())));
    assert_eq!(split_once("abc", ':'), None);
    assert_eq!(cut_before_last("a``b``c", "``").as_deref(), Some("a``b"));
    assert_eq!(cut_before_last("abc", "``"), None);
}

#[test]
fn searching_finds_parts() {
    assert!(starts_with("héllo", "hé") && !starts_with("h", "hé"));
    assert!(ends_with("héllo", "lo") && !ends_with("o", "lo"));
    assert!(contains("abc", "") && contains("abc", "bc") && !contains("abc", "ac"));
    assert_eq!(strip_prefix("Body: x", "Body: ").as_deref(), Some("x"));
    assert_eq!(strip_suffix("x.md", ".md").as_deref(), Some("x"));
    assert_eq!(strip_prefix("x", "y"), None);
    assert_eq!(to_ascii_lowercase("ÀB Z"), "Àb z");
}

#[test]
fn numbers_are_read_and_written() {
    for text in ["0", "-1", "+5", "9223372036854775807", "-9223372036854775808"] {
        assert_eq!(parse_i64(text).ok(), text.parse::<i64>().ok());
    }
    assert_eq!(parse_i64(""), Err(IntError::Empty));
    for text in ["", "-", "+", "1a", "9223372036854775808", "-9223372036854775809", "１"] {
        let message = text.parse::<i64>().unwrap_err().to_string();
        assert_eq!(parse_i64(text).unwrap_err().text(), message);
    }
    for text in ["18446744073709551616", "-1", "x"] {
        let message = text.parse::<u64>().unwrap_err().to_string();
        assert_eq!(parse_u64(text).unwrap_err().text(), message);
    }
    assert_eq!(parse_u64("18446744073709551615"), Ok(u64::MAX));
    assert_eq!(decimal_text(1_048_576), "1048576");
    assert_eq!(signed_decimal_text(i64::MIN), i64::MIN.to_string());
    assert_eq!(signed_decimal_text(0), "0");
}

#[test]
fn bytes_are_decoded_as_utf8() {
    assert_eq!(utf8_text("é".as_bytes().to_vec()).as_deref(), Some("é"));
    assert_eq!(utf8_text(vec![0xc3]), None);
}

#[test]
fn documents_are_decoded_line_by_line() {
    let outcomes = parse_lines(&owned(&["{\"a\":[1,-2,1.5,18446744073709551615]}", "nope"]));
    match &outcomes[0] {
        Ok(value) => {
            let items = value.get("a").unwrap().as_array().unwrap();
            assert_eq!(items[0].as_i64(), Some(1));
            assert_eq!(items[1].as_i64(), Some(-2));
            assert_eq!(items[2], Json::Number(JsonNumber::Decimal("1.5".into())));
            assert_eq!(items[3], Json::Number(JsonNumber::UInt(u64::MAX)));
            assert_eq!(value.copy(), *value);
        }
        Err(message) => panic!("unexpected failure: {message}"),
    }
    let expected = serde_json::from_str::<serde_json::Value>("nope").unwrap_err();
    assert_eq!(outcomes[1], Err(expected.to_string()));
}

fn moment(seconds: i64) -> Timestamp {
    Timestamp { seconds, nanos: 0 }
}

#[test]
fn sorting_is_stable() {
    let sorted = sort(vec![
        (moment(2), vec!['a']),
        (moment(1), vec!['b']),
        (moment(2), vec!['c']),
        (moment(1), vec!['d']),
    ]);
    let texts: Vec<char> = sorted.iter().map(|item| item.1[0]).collect();
    assert_eq!(texts, vec!['b', 'd', 'a', 'c']);
    assert!(text_not_after("a", "ab") && text_not_after("", "") && !text_not_after("é", "z"));
    let early = Timestamp { seconds: -1, nanos: 999 };
    let late = Timestamp { seconds: 0, nanos: 0 };
    assert!(early.is_not_after(&late) && !late.is_not_after(&early));
}

use postcrate_core::json::Json;
use postcrate_core::patterns::is_match;
use postcrate_core::text::{number, replace, search, unicode, words};

#[test]
fn numbers_parse_as_they_are_written() {
    for n in [0u64, 9, 10, 1025, u64::MAX] {
        assert_eq!(number::to_decimal(n), n.to_string());
        assert_eq!(number::parse_u64(&n.to_string()), Some(n));
    }
    assert_eq!(number::parse_u64("+7"), Some(7));
    assert_eq!(number::parse_u64("007"), Some(7));
    for bad in ["", "+", "-1", "1a", " 1", "18446744073709551616"] {
        assert_eq!(number::parse_u64(bad), None, "{}", bad);
    }
}

#[test]
fn words_and_trims() {
    assert_eq!(words::trimmed(" \u{3000}a b\t\n"), "a b");
    assert_eq!(words::split_whitespace(" a\u{a0}b  c "), vec!["a", "b", "c"]);
    assert_eq!(words::split_ascii_whitespace(" a\u{a0}b\u{b}c  d "), vec!["a\u{a0}b\u{b}c", "d"]);
    assert_eq!(words::join(&vec!["a".to_string(), "".to_string()], ", "), "a, ");
}

#[test]
fn replacing_goes_from_left_to_right() {
    assert_eq!(replace::replace("aaa", "aa", "b"), "ba");
    assert_eq!(replace::replace("x", "y", "z"), "x");
    assert!(search::text_contains("abc", "bc") && !search::text_contains("abc", "cb"));
    assert!(search::text_starts_with("abc", "ab") && search::text_contains("", ""));
}

#[test]
fn cases_and_patterns() {
    assert_eq!(unicode::to_ascii_upper("a\u{e4}z"), "A\u{e4}Z");
    assert!(unicode::eq_ignoring_case("SoFt", "soft") && !unicode::eq_ignoring_case("a", "b"));
    assert!(is_match("^a+$", "aaa") && !is_match("^a+$", "aab") && !is_match("(", "("));
}

#[test]
fn the_last_member_counts() {
    let j = Json::Object(vec![
        ("a".to_string(), Json::Int(1)),
        ("a".to_string(), Json::Int(2)),
    ]);
    assert!(matches!(j.get("a"), Some(Json::Int(2))));
    assert!(matches!(j.copy().get("a"), Some(Json::Int(2))));
    assert!(Json::Null.get("a").is_none() && Json::Null.as_str().is_none());
}

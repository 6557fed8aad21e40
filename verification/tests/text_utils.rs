use resident_ai::json::{same_text, Json};
use resident_ai::text::{decimal, parse_u64, text_contains, trim_text};

#[test]
fn decimal_and_parse_round_trip() {
    for n in [0u64, 7, 10, 99, 100, 12345, u64::MAX] {
        assert_eq!(decimal(n), n.to_string());
        assert_eq!(parse_u64(&decimal(n)), Some(n));
    }
    assert_eq!(parse_u64(""), None);
    assert_eq!(parse_u64("12a"), None);
    assert_eq!(parse_u64("-1"), None);
    assert_eq!(parse_u64("18446744073709551616"), None);
    assert_eq!(parse_u64("007"), Some(7));
}

#[test]
fn trim_matches_std() {
    for s in ["", "  ", " a b ", "\u{3000}x\u{85}", "\t\n\u{2028}y\u{feff}", "z"] {
        assert_eq!(trim_text(s), s.trim());
    }
}

#[test]
fn json_member_lookup() {
    let j = Json::Object(vec![
        ("a".to_string(), Json::Number("1".to_string())),
        ("a".to_string(), Json::Number("2".to_string())),
        ("b".to_string(), Json::Text("t".to_string())),
    ]);
    assert!(matches!(j.get("a"), Some(Json::Number(n)) if n == "1"));
    assert_eq!(j.get("b").and_then(|v| v.as_str()), Some("t"));
    assert!(j.get("c").is_none());
    assert!(Json::Array(vec![]).get("a").is_none());
    assert_eq!(Json::Number("42".to_string()).as_u64(), Some(42));
    assert!(same_text("é", "é"));
    assert!(!same_text("e", "é"));
}

#[test]
fn text_contains_matches_std() {
    for (t, n) in [("abc", "b"), ("abc", "d"), ("", ""), ("日本語", "本"), ("aab", "ab"), ("a", "aa")] {
        assert_eq!(text_contains(t, n), t.contains(n));
    }
}

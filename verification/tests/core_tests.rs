use zeteo::level::{normalize_level, severity_level, Level, lower_ascii, eq_ignore_case};
use zeteo::text::{
    contains_str, i64_to_dec, parse_i64, parse_u64, split_words, str_eq, str_le, truncate_message,
    u64_to_dec, join_with,
};
use zeteo::time::{format_rfc3339_secs, now_epoch_seconds, parse_rfc3339_micros, parse_time, resolve_relative};
use zeteo::json::{append_json_string, parse_json, json_get, json_as_str};

#[test]
fn test_normalize_level_total_and_idempotent() {
    // total: arbitrary text maps to a level, defaulting to Info
    assert_eq!(normalize_level("nonsense"), Level::Info);
    assert_eq!(normalize_level(""), Level::Info);
    // aliases, case-insensitively
    assert_eq!(normalize_level("error"), Level::Error);
    assert_eq!(normalize_level("Err"), Level::Error);
    assert_eq!(normalize_level("WARNING"), Level::Warn);
    assert_eq!(normalize_level("critical"), Level::Fatal);
    assert_eq!(normalize_level("trace"), Level::Trace);
    // idempotent: normalizing a canonical name gives the same level back
    for l in [Level::Trace, Level::Debug, Level::Info, Level::Warn, Level::Error, Level::Fatal] {
        assert_eq!(normalize_level(l.name()), l);
    }
}

#[test]
fn test_severity_buckets() {
    assert_eq!(severity_level(1), Level::Trace);
    assert_eq!(severity_level(4), Level::Trace);
    assert_eq!(severity_level(5), Level::Debug);
    assert_eq!(severity_level(8), Level::Debug);
    assert_eq!(severity_level(9), Level::Info);
    assert_eq!(severity_level(12), Level::Info);
    assert_eq!(severity_level(13), Level::Warn);
    assert_eq!(severity_level(16), Level::Warn);
    assert_eq!(severity_level(17), Level::Error);
    assert_eq!(severity_level(20), Level::Error);
    assert_eq!(severity_level(21), Level::Fatal);
    assert_eq!(severity_level(24), Level::Fatal);
    assert_eq!(severity_level(99), Level::Fatal);
    assert_eq!(severity_level(0), Level::Info);
    assert_eq!(severity_level(-3), Level::Info);
}

#[test]
fn test_case_folding_helpers() {
    assert_eq!(lower_ascii("AbC-12"), "abc-12");
    assert!(eq_ignore_case("wArN", "WARN"));
    assert!(!eq_ignore_case("warnx", "WARN"));
}

#[test]
fn test_decimal_rendering() {
    assert_eq!(u64_to_dec(0), "0");
    assert_eq!(u64_to_dec(200), "200");
    assert_eq!(u64_to_dec(18446744073709551615), "18446744073709551615");
    assert_eq!(i64_to_dec(-42), "-42");
    assert_eq!(i64_to_dec(i64::MIN), "-9223372036854775808");
}

#[test]
fn test_parse_integers() {
    assert_eq!(parse_u64("123"), Some(123));
    assert_eq!(parse_u64(""), None);
    assert_eq!(parse_u64("12a"), None);
    assert_eq!(parse_u64("18446744073709551615"), Some(u64::MAX));
    assert_eq!(parse_u64("18446744073709551616"), None);
    assert_eq!(parse_i64("-7"), Some(-7));
    assert_eq!(parse_i64("+7"), Some(7));
    assert_eq!(parse_i64("-9223372036854775808"), Some(i64::MIN));
    assert_eq!(parse_i64("9223372036854775808"), None);
}

#[test]
fn test_string_utilities() {
    assert!(str_eq("abc", "abc"));
    assert!(!str_eq("abc", "abd"));
    assert!(contains_str("payment failed badly", "failed"));
    assert!(!contains_str("payment ok", "failed"));
    assert!(contains_str("anything", ""));
    assert!(str_le("2024-01-01", "2024-01-02"));
    assert!(!str_le("2024-01-02", "2024-01-01"));
    assert_eq!(truncate_message("hello", 10), "hello");
    assert_eq!(truncate_message("hello world", 5), "hello...");
    assert_eq!(join_with(&vec!["a".to_string(), "b".to_string()], " AND "), "a AND b");
    let words = split_words("  one two\tthree ");
    assert_eq!(words, vec!["one", "two", "three"]);
}

#[test]
fn test_json_escaping() {
    let mut s = String::new();
    append_json_string(&mut s, "a\"b\\c\nd");
    assert_eq!(s, "\"a\\\"b\\\\c\\nd\"");
    let mut t = String::new();
    append_json_string(&mut t, "plain");
    assert_eq!(t, "\"plain\"");
    // control character gets a \u escape
    let mut u = String::new();
    append_json_string(&mut u, "\u{1}");
    assert_eq!(u, "\"\\u0001\"");
    // everything we emit parses back with a JSON parser
    let doc = parse_json(&s).expect("escaped text must parse");
    assert_eq!(doc.as_str().unwrap(), "a\"b\\c\nd");
}

#[test]
fn test_json_field_probing() {
    let doc = parse_json("{\"a\":{\"b\":\"c\"}}").unwrap();
    let a = json_get(&doc, "a").unwrap();
    let b = json_get(a, "b").unwrap();
    assert_eq!(json_as_str(b), Some("c".to_string()));
    assert!(json_get(&doc, "missing").is_none());
}

#[test]
fn test_relative_time_resolution() {
    // "1h" resolves to (now - 1 hour) within one second of call time
    let now = now_epoch_seconds();
    assert_eq!(resolve_relative("1h", now), Some(now - 3600));
    assert_eq!(resolve_relative("30m", now), Some(now - 1800));
    assert_eq!(resolve_relative("2d", now), Some(now - 172800));
    // malformed units fail closed rather than silently defaulting
    assert_eq!(resolve_relative("1x", now), None);
    assert_eq!(resolve_relative("h", now), None);
    assert_eq!(resolve_relative("", now), None);

    let resolved = parse_time("1h", now).expect("1h must resolve");
    let micros = parse_rfc3339_micros(&resolved).expect("resolved text is RFC 3339");
    let wall = now_epoch_seconds();
    let diff = (micros / 1_000_000) - (wall - 3600);
    assert!(diff.abs() <= 1, "resolved instant must be within one second");
    assert_eq!(parse_time("1x", now), None);
    // absolute-looking text passes through unchanged
    assert_eq!(
        parse_time("2024-01-01T00:00:00Z", now),
        Some("2024-01-01T00:00:00Z".to_string())
    );
}

#[test]
fn test_rfc3339_formatting_round_trip() {
    let s = format_rfc3339_secs(0);
    assert_eq!(s, "1970-01-01T00:00:00+00:00");
    let micros = parse_rfc3339_micros(&s).unwrap();
    assert_eq!(micros, 0);
    let now = now_epoch_seconds();
    assert!(now > 1_600_000_000, "the clock reads after 2020");
}

#[test]
fn test_wrap_text_greedy() {
    let lines = zeteo::text::wrap_text("one two three four", 9);
    assert_eq!(lines, vec!["one two", "three", "four"]);
    assert_eq!(zeteo::text::wrap_text("", 10), vec![""]);
    assert_eq!(zeteo::text::wrap_text("abc", 0), vec!["abc"]);
    // a single over-long word stands on its own line
    assert_eq!(zeteo::text::wrap_text("extraordinarily", 5), vec!["extraordinarily"]);
}

#[test]
fn test_format_time_ago() {
    assert_eq!(zeteo::session::format_time_ago(1000, 1030), "just now");
    assert_eq!(zeteo::session::format_time_ago(1000, 1000 + 5 * 60), "5m ago");
    assert_eq!(zeteo::session::format_time_ago(1000, 1000 + 2 * 3600), "2h ago");
    assert_eq!(zeteo::session::format_time_ago(1000, 1000 + 3 * 86400), "3d ago");
}

#[test]
fn test_wrap_text_preserves_words() {
    for (text, width) in [
        ("one two three four", 9),
        ("  spaced   out  ", 4),
        ("a b c d e f", 1),
        ("justoneword", 3),
    ] {
        let rejoined: Vec<String> = zeteo::text::wrap_text(text, width)
            .iter()
            .flat_map(|line| line.split_whitespace().map(str::to_string))
            .collect();
        let expected: Vec<String> = text.split_whitespace().map(str::to_string).collect();
        assert_eq!(rejoined, expected, "words must survive wrapping of {:?}", text);
    }
}

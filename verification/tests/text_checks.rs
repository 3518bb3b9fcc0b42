use linear_cli::text::{is_uuid, parse_i64, truncate};

#[test]
fn test_truncate_none() {
    assert_eq!(truncate("hello world", None), "hello world");
}

#[test]
fn test_truncate_zero() {
    assert_eq!(truncate("hello", Some(0)), "");
}

#[test]
fn test_truncate_short_string() {
    assert_eq!(truncate("hi", Some(10)), "hi");
}

#[test]
fn test_truncate_exact_length() {
    assert_eq!(truncate("hello", Some(5)), "hello");
}

#[test]
fn test_truncate_with_ellipsis() {
    assert_eq!(truncate("hello world", Some(8)), "hello...");
}

#[test]
fn test_truncate_unicode() {
    // Unicode chars are counted correctly
    assert_eq!(truncate("こんにちは世界", Some(5)), "こん...");
    // "hello世界" is 7 chars, so max_len=8 doesn't truncate
    assert_eq!(truncate("hello世界", Some(8)), "hello世界");
    // But max_len=6 does truncate
    assert_eq!(truncate("hello世界", Some(6)), "hel...");
}

#[test]
fn test_is_uuid_valid() {
    assert!(is_uuid("550e8400-e29b-41d4-a716-446655440000"));
    assert!(is_uuid("00000000-0000-0000-0000-000000000000"));
}

#[test]
fn test_is_uuid_invalid() {
    assert!(!is_uuid("not-a-uuid"));
    assert!(!is_uuid("550e8400e29b41d4a716446655440000")); // no dashes
    assert!(!is_uuid("550e8400-e29b-41d4-a716")); // too short
    assert!(!is_uuid("")); // empty
}

#[test]
fn test_parse_i64_plain() {
    assert_eq!(parse_i64("42"), Some(42));
    assert_eq!(parse_i64("+7"), Some(7));
    assert_eq!(parse_i64("-13"), Some(-13));
    assert_eq!(parse_i64("0"), Some(0));
}

#[test]
fn test_parse_i64_rejects_junk() {
    assert_eq!(parse_i64(""), None);
    assert_eq!(parse_i64("+"), None);
    assert_eq!(parse_i64("-"), None);
    assert_eq!(parse_i64("12a"), None);
    assert_eq!(parse_i64("1.5"), None);
    assert_eq!(parse_i64(" 3"), None);
}

#[test]
fn test_parse_i64_limits() {
    assert_eq!(parse_i64("9223372036854775807"), Some(i64::MAX));
    assert_eq!(parse_i64("-9223372036854775808"), Some(i64::MIN));
    assert_eq!(parse_i64("9223372036854775808"), None);
    assert_eq!(parse_i64("-9223372036854775809"), None);
    assert_eq!(parse_i64("99999999999999999999999"), None);
}

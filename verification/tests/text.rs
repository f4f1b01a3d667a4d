use linkr::text::{decimal_string, has_prefix, i32_string, is_alphanumeric, parse_i32, same_text};

#[test]
fn same_text_compares_characters() {
    assert!(same_text("abc", "abc"));
    assert!(!same_text("abc", "abd"));
    assert!(!same_text("abc", "ab"));
    assert!(same_text("", ""));
}

#[test]
fn has_prefix_checks_the_start() {
    assert!(has_prefix("https://example.com", "https://"));
    assert!(!has_prefix("ftp://example.com", "http://"));
    assert!(!has_prefix("http:/", "http://"));
    assert!(has_prefix("anything", ""));
}

#[test]
fn is_alphanumeric_accepts_letters_and_digits() {
    assert!(is_alphanumeric("abc123"));
    assert!(is_alphanumeric(""));
    assert!(!is_alphanumeric("new_user"));
    assert!(!is_alphanumeric("a b"));
}

#[test]
fn parse_i32_reads_decimal() {
    assert_eq!(parse_i32("0"), Some(0));
    assert_eq!(parse_i32("42"), Some(42));
    assert_eq!(parse_i32("+7"), Some(7));
    assert_eq!(parse_i32("-7"), Some(-7));
    assert_eq!(parse_i32("007"), Some(7));
    assert_eq!(parse_i32("2147483647"), Some(2147483647));
    assert_eq!(parse_i32("-2147483648"), Some(-2147483648));
}

#[test]
fn parse_i32_rejects_what_is_no_number() {
    assert_eq!(parse_i32(""), None);
    assert_eq!(parse_i32("-"), None);
    assert_eq!(parse_i32("+"), None);
    assert_eq!(parse_i32("12a"), None);
    assert_eq!(parse_i32(" 1"), None);
    assert_eq!(parse_i32("2147483648"), None);
    assert_eq!(parse_i32("-2147483649"), None);
    assert_eq!(parse_i32("99999999999999999999999999"), None);
}

#[test]
fn parse_i32_agrees_with_std() {
    for s in ["1", "-1", "+0", "-0", "0010", "1_0", "١", "2147483647", "2147483648"] {
        assert_eq!(parse_i32(s), s.parse::<i32>().ok());
    }
}

#[test]
fn decimal_string_writes_digits() {
    assert_eq!(decimal_string(0), "0");
    assert_eq!(decimal_string(7), "7");
    assert_eq!(decimal_string(1234567890), "1234567890");
    assert_eq!(decimal_string(u64::MAX), "18446744073709551615");
}

#[test]
fn i32_string_reads_back() {
    for n in [0, 1, -1, 10, -10, 12345, i32::MAX, i32::MIN] {
        assert_eq!(i32_string(n), format!("{}", n));
        assert_eq!(parse_i32(&i32_string(n)), Some(n));
    }
}

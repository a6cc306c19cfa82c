use release_plz_core::text::{decimal_string, join_strings, parse_u64, str_contains};

#[test]
fn u64_parsing_follows_from_str() {
    assert_eq!(parse_u64("0"), Some(0));
    assert_eq!(parse_u64("+42"), Some(42));
    assert_eq!(parse_u64("18446744073709551615"), Some(u64::MAX));
    assert_eq!(parse_u64("18446744073709551616"), None);
    assert_eq!(parse_u64(""), None);
    assert_eq!(parse_u64("+"), None);
    assert_eq!(parse_u64("-1"), None);
    assert_eq!(parse_u64("12a"), None);
    for s in ["7", "007", "123456789"] {
        assert_eq!(parse_u64(s), s.parse::<u64>().ok());
    }
}

#[test]
fn joins_and_decimals() {
    assert_eq!(join_strings(&vec![], ", "), "");
    assert_eq!(join_strings(&vec!["a".to_string()], ", "), "a");
    assert_eq!(join_strings(&vec!["a".to_string(), "b".to_string()], "-"), "a-b");
    assert_eq!(decimal_string(1024), "1024");
    assert!(str_contains("hello", "ell"));
}

#[test]
fn decimal_then_parse_gives_the_number_back() {
    for n in [0u64, 9, 10, 99, 12345, u64::MAX] {
        assert_eq!(parse_u64(&decimal_string(n)), Some(n));
    }
}

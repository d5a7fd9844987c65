use rubic::text::{decimal_text, parse_i32, parse_i64, parse_u32, parse_u64, same_text, signed_decimal_text};

#[test]
fn numbers_read_back_as_written() {
    for n in [0u64, 7, 10, 99, 12345, u32::MAX as u64, u64::MAX] {
        assert_eq!(parse_u64(&decimal_text(n)), Some(n));
    }
    for n in [0u32, 1, 4_000_000_000, u32::MAX] {
        assert_eq!(parse_u32(&decimal_text(n as u64)), Some(n));
    }
    for n in [i64::MIN, -1, 0, 42, i64::MAX] {
        assert_eq!(parse_i64(&signed_decimal_text(n)), Some(n));
    }
}

#[test]
fn parsing_follows_the_standard_grammar() {
    assert_eq!(parse_u32("+12"), Some(12));
    assert_eq!(parse_u32("4294967296"), None);
    assert_eq!(parse_u32(""), None);
    assert_eq!(parse_u32("1 "), None);
    assert_eq!(parse_i64("-"), None);
    assert_eq!(parse_i64("-+1"), None);
    assert_eq!(parse_i32("-2147483648"), Some(i32::MIN));
    assert_eq!(parse_i32("2147483648"), None);
    assert_eq!(decimal_text(1200), "1200");
    assert_eq!(signed_decimal_text(-5), "-5");
}

#[test]
fn same_text_compares_whole_texts() {
    assert!(same_text("abc", "abc"));
    assert!(!same_text("abc", "abd"));
    assert!(!same_text("ab", "abc"));
}

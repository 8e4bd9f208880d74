use mini_cpu::text::{NatParse, parse_i32_token, parse_nat_capped, str_eq_str};

#[test]
fn reads_plain_decimal_values() {
    assert_eq!(parse_i32_token("0"), Some(0));
    assert_eq!(parse_i32_token("42"), Some(42));
    assert_eq!(parse_i32_token("007"), Some(7));
    assert_eq!(parse_i32_token("-5"), Some(-5));
    assert_eq!(parse_i32_token("-0"), Some(0));
}

#[test]
fn reads_the_32_bit_bounds_exactly() {
    assert_eq!(parse_i32_token("2147483647"), Some(i32::MAX));
    assert_eq!(parse_i32_token("-2147483648"), Some(i32::MIN));
    assert_eq!(parse_i32_token("2147483648"), None);
    assert_eq!(parse_i32_token("-2147483649"), None);
}

#[test]
fn rejects_malformed_integer_literals() {
    assert_eq!(parse_i32_token(""), None);
    assert_eq!(parse_i32_token("-"), None);
    assert_eq!(parse_i32_token("1x2"), None);
    assert_eq!(parse_i32_token(" 1"), None);
    assert_eq!(parse_i32_token("--3"), None);
}

#[test]
fn capped_reading_tells_form_from_size() {
    assert_eq!(parse_nat_capped("r11", 1, 11), NatParse::Value(11));
    assert_eq!(parse_nat_capped("r12", 1, 11), NatParse::TooBig);
    assert_eq!(parse_nat_capped("r", 1, 11), NatParse::BadDigit);
    assert_eq!(parse_nat_capped("rx", 1, 11), NatParse::BadDigit);
    assert_eq!(
        parse_nat_capped("99999999999999999999999999", 0, usize::MAX),
        NatParse::TooBig
    );
}

#[test]
fn text_equality_is_by_characters() {
    assert!(str_eq_str("add", "add"));
    assert!(!str_eq_str("add", "sub"));
    assert!(!str_eq_str("add", "addd"));
    assert!(!str_eq_str("", "a"));
    assert!(str_eq_str("", ""));
}

use hue::text::{decimal_string, parse_decimal, parse_fixed4, parse_unsigned};

#[test]
fn decimal_numerals() {
    assert_eq!(decimal_string(0), "0");
    assert_eq!(decimal_string(7), "7");
    assert_eq!(decimal_string(255), "255");
    assert_eq!(decimal_string(18446744073709551615), "18446744073709551615");
}

#[test]
fn decimal_parsing() {
    assert_eq!(parse_decimal("5", 255), Some(5));
    assert_eq!(parse_decimal("255", 255), Some(255));
    assert_eq!(parse_decimal("256", 255), None);
    assert_eq!(parse_decimal("", 255), None);
    assert_eq!(parse_decimal("1a", 255), None);
    assert_eq!(parse_decimal("-1", 255), None);
    assert_eq!(parse_decimal("007", 255), Some(7));
    assert_eq!(parse_decimal("99999999999999999999999", 255), None);
}

#[test]
fn fixed_point_parsing() {
    assert_eq!(parse_fixed4("0.3227"), Some(3227));
    assert_eq!(parse_fixed4("10.0"), Some(100000));
    assert_eq!(parse_fixed4("1"), Some(10000));
    assert_eq!(parse_fixed4("0.123456"), Some(1234));
    assert_eq!(parse_fixed4("1e-5"), None);
    assert_eq!(parse_fixed4("."), None);
    assert_eq!(parse_fixed4("1."), None);
    assert_eq!(parse_fixed4("429496.7295"), Some(4294967295));
    assert_eq!(parse_fixed4("429496.7296"), None);
}

#[test]
fn unsigned_parsing_allows_plus() {
    assert_eq!(parse_unsigned("+5", 255), Some(5));
    assert_eq!(parse_unsigned("5", 255), Some(5));
    assert_eq!(parse_unsigned("+", 255), None);
    assert_eq!(parse_unsigned("++5", 255), None);
    assert_eq!(parse_unsigned("-5", 255), None);
    assert_eq!(parse_unsigned("+256", 255), None);
}

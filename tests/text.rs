use yeelight_bridge::text::{chars_of, decimal_string, parse_bounded};

#[test]
fn decimal_numerals() {
    assert_eq!(decimal_string(0), "0");
    assert_eq!(decimal_string(7), "7");
    assert_eq!(decimal_string(55443), "55443");
    assert_eq!(decimal_string(u64::MAX), "18446744073709551615");
}

#[test]
fn bounded_parsing() {
    assert_eq!(parse_bounded(&chars_of("42"), 100), Some(42));
    assert_eq!(parse_bounded(&chars_of("100"), 100), Some(100));
    assert_eq!(parse_bounded(&chars_of("101"), 100), None);
    assert_eq!(parse_bounded(&chars_of(""), 100), None);
    assert_eq!(parse_bounded(&chars_of("4x"), 100), None);
    assert_eq!(parse_bounded(&chars_of("18446744073709551615"), u64::MAX), Some(u64::MAX));
    assert_eq!(parse_bounded(&chars_of("18446744073709551616"), u64::MAX), None);
}

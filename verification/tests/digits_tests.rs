use deadlock_cli::digits::{i64_to_dec_string, parse_i64, parse_u64, u64_to_dec_string};

#[test]
fn renders_decimal() {
    assert_eq!(u64_to_dec_string(0), "0");
    assert_eq!(u64_to_dec_string(7), "7");
    assert_eq!(u64_to_dec_string(1234567890), "1234567890");
    assert_eq!(u64_to_dec_string(u64::MAX), "18446744073709551615");
    assert_eq!(i64_to_dec_string(-1), "-1");
    assert_eq!(i64_to_dec_string(i64::MIN), "-9223372036854775808");
    assert_eq!(i64_to_dec_string(42), "42");
}

#[test]
fn parses_unsigned_decimal() {
    assert_eq!(parse_u64("123"), Some(123));
    assert_eq!(parse_u64("+7"), Some(7));
    assert_eq!(parse_u64("0"), Some(0));
    assert_eq!(parse_u64(""), None);
    assert_eq!(parse_u64("+"), None);
    assert_eq!(parse_u64("12a"), None);
    assert_eq!(parse_u64("-3"), None);
    assert_eq!(parse_u64("18446744073709551615"), Some(u64::MAX));
    assert_eq!(parse_u64("18446744073709551616"), None);
}

#[test]
fn parses_signed_decimal() {
    assert_eq!(parse_i64("-42"), Some(-42));
    assert_eq!(parse_i64("+5"), Some(5));
    assert_eq!(parse_i64("-9223372036854775808"), Some(i64::MIN));
    assert_eq!(parse_i64("9223372036854775807"), Some(i64::MAX));
    assert_eq!(parse_i64("9223372036854775808"), None);
    assert_eq!(parse_i64("-9223372036854775809"), None);
    assert_eq!(parse_i64("-+5"), None);
    assert_eq!(parse_i64("-"), None);
}

use wordbase::num::{parse_i64, parse_u64, push_decimal_i64, push_decimal_u64};

#[test]
fn parse_signed() {
    assert_eq!(parse_i64("42"), Some(42));
    assert_eq!(parse_i64("-7"), Some(-7));
    assert_eq!(parse_i64("+3"), Some(3));
    assert_eq!(parse_i64("007"), Some(7));
    assert_eq!(parse_i64("-9223372036854775808"), Some(i64::MIN));
    assert_eq!(parse_i64("9223372036854775807"), Some(i64::MAX));
    assert_eq!(parse_i64("9223372036854775808"), None);
    assert_eq!(parse_i64(""), None);
    assert_eq!(parse_i64("-"), None);
    assert_eq!(parse_i64("1.5"), None);
    assert_eq!(parse_i64(" 1"), None);
}

#[test]
fn parse_unsigned() {
    assert_eq!(parse_u64("0"), Some(0));
    assert_eq!(parse_u64("+12"), Some(12));
    assert_eq!(parse_u64("18446744073709551615"), Some(u64::MAX));
    assert_eq!(parse_u64("18446744073709551616"), None);
    assert_eq!(parse_u64("-1"), None);
    assert_eq!(parse_u64("x"), None);
}

#[test]
fn decimal_text() {
    let mut s = String::from("n=");
    push_decimal_u64(&mut s, 0);
    assert_eq!(s, "n=0");
    let mut s = String::new();
    push_decimal_u64(&mut s, u64::MAX);
    assert_eq!(s, "18446744073709551615");
    let mut s = String::new();
    push_decimal_i64(&mut s, -305);
    assert_eq!(s, "-305");
    let mut s = String::new();
    push_decimal_i64(&mut s, i64::MIN);
    assert_eq!(s, "-9223372036854775808");
    assert_eq!(parse_i64(&s), Some(i64::MIN));
}

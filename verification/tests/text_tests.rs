use mysql_udf_http::text::{decimal_text, push_decimal, push_signed_decimal};

#[test]
fn decimal_of_zero_is_single_digit() {
    assert_eq!(decimal_text(0), "0");
}

#[test]
fn decimal_of_several_digits() {
    assert_eq!(decimal_text(7), "7");
    assert_eq!(decimal_text(10), "10");
    assert_eq!(decimal_text(12345), "12345");
    assert_eq!(decimal_text(u64::MAX), "18446744073709551615");
}

#[test]
fn decimal_reads_back() {
    for n in [0u64, 1, 9, 10, 99, 100, 65535, 1_000_000_007, u64::MAX] {
        assert_eq!(decimal_text(n).parse::<u64>().unwrap(), n);
    }
}

#[test]
fn push_decimal_appends() {
    let mut s = String::from("fd=");
    push_decimal(&mut s, 42);
    assert_eq!(s, "fd=42");
}

#[test]
fn signed_decimal_renders_sign() {
    let mut s = String::new();
    push_signed_decimal(&mut s, -17);
    assert_eq!(s, "-17");
    let mut s = String::new();
    push_signed_decimal(&mut s, i64::MIN);
    assert_eq!(s, "-9223372036854775808");
    let mut s = String::new();
    push_signed_decimal(&mut s, i64::MAX);
    assert_eq!(s, "9223372036854775807");
    let mut s = String::new();
    push_signed_decimal(&mut s, 0);
    assert_eq!(s, "0");
}


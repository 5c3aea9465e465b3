use tileview::text::{decimal_string, push_bool, push_decimal, push_signed};

#[test]
fn decimal_of_zero_is_one_digit() {
    assert_eq!(decimal_string(0), "0");
}

#[test]
fn decimal_of_single_digits() {
    for n in 0..10u64 {
        assert_eq!(decimal_string(n), format!("{}", n));
    }
}

#[test]
fn decimal_has_no_leading_zero() {
    assert_eq!(decimal_string(10), "10");
    assert_eq!(decimal_string(1005), "1005");
    assert_eq!(decimal_string(12345678901234567890), "12345678901234567890");
}

#[test]
fn decimal_of_largest_value() {
    assert_eq!(decimal_string(u64::MAX), "18446744073709551615");
}

#[test]
fn push_decimal_keeps_what_was_there() {
    let mut buf = String::from("n=");
    push_decimal(&mut buf, 42);
    assert_eq!(buf, "n=42");
}

#[test]
fn push_signed_writes_a_minus_sign() {
    let mut buf = String::new();
    push_signed(&mut buf, -7);
    assert_eq!(buf, "-7");
    let mut buf = String::new();
    push_signed(&mut buf, 7);
    assert_eq!(buf, "7");
    let mut buf = String::new();
    push_signed(&mut buf, 0);
    assert_eq!(buf, "0");
}

#[test]
fn push_signed_at_the_ends_of_the_range() {
    let mut buf = String::new();
    push_signed(&mut buf, i64::MIN);
    assert_eq!(buf, "-9223372036854775808");
    let mut buf = String::new();
    push_signed(&mut buf, i64::MAX);
    assert_eq!(buf, "9223372036854775807");
    let mut buf = String::new();
    push_signed(&mut buf, i32::MIN as i64);
    assert_eq!(buf, "-2147483648");
}

#[test]
fn push_bool_writes_the_word() {
    let mut buf = String::from("[");
    push_bool(&mut buf, true);
    buf.push(',');
    push_bool(&mut buf, false);
    assert_eq!(buf, "[true,false");
}

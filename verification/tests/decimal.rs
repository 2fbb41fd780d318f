use bundler::bytes::{append_bytes, copy_range};
use bundler::decimal::{parse_decimal, push_decimal};
use bundler::quarantine::quarantine_path;
use bundler::text::{decimal_string, signed_string, two_digit_string};

#[test]
fn push_decimal_pads_with_zeros() {
    let mut out = b"x".to_vec();
    push_decimal(&mut out, 1234, 16);
    assert_eq!(out, b"x0000000000001234".to_vec());

    let mut out = Vec::new();
    push_decimal(&mut out, 0, 16);
    assert_eq!(out, b"0000000000000000".to_vec());

    let mut out = Vec::new();
    push_decimal(&mut out, 9_999_999_999_999_999, 16);
    assert_eq!(out, b"9999999999999999".to_vec());

    let mut out = Vec::new();
    push_decimal(&mut out, 7, 0);
    assert!(out.is_empty());
}

#[test]
fn push_decimal_keeps_the_lowest_digits() {
    let mut out = Vec::new();
    push_decimal(&mut out, 123456, 3);
    assert_eq!(out, b"456".to_vec());
    let mut out = Vec::new();
    push_decimal(&mut out, u64::MAX, 20);
    assert_eq!(out, format!("{:020}", u64::MAX).into_bytes());
}

#[test]
fn parse_decimal_reads_digits_only() {
    assert_eq!(parse_decimal(b"0000000000001234"), Some(1234));
    assert_eq!(parse_decimal(b"0"), Some(0));
    assert_eq!(parse_decimal(b""), Some(0));
    assert_eq!(parse_decimal(b"18446744073709551615"), Some(u64::MAX));
    assert_eq!(parse_decimal(b"00018446744073709551615"), Some(u64::MAX));
    assert_eq!(parse_decimal(b"18446744073709551616"), None);
    assert_eq!(parse_decimal(b"99999999999999999999"), None);
    assert_eq!(parse_decimal(b"12a4"), None);
    assert_eq!(parse_decimal(b" 12"), None);
    assert_eq!(parse_decimal(b"12 "), None);
    assert_eq!(parse_decimal(b"+12"), None);
    assert_eq!(parse_decimal(b"-12"), None);
    assert_eq!(parse_decimal(b"1.2"), None);
}

#[test]
fn footer_digits_round_trip() {
    for n in [0u64, 1, 9, 10, 1000, 123_456_789, 9_999_999_999_999_999] {
        let mut out = Vec::new();
        push_decimal(&mut out, n, 16);
        assert_eq!(out.len(), 16);
        assert_eq!(parse_decimal(&out), Some(n));
    }
}

#[test]
fn numbers_as_text() {
    assert_eq!(decimal_string(0), "0");
    assert_eq!(decimal_string(7), "7");
    assert_eq!(decimal_string(10), "10");
    assert_eq!(decimal_string(1234567890), "1234567890");
    assert_eq!(decimal_string(u64::MAX), "18446744073709551615");
    assert_eq!(two_digit_string(0), "00");
    assert_eq!(two_digit_string(9), "09");
    assert_eq!(two_digit_string(10), "10");
    assert_eq!(two_digit_string(123), "123");
    assert_eq!(signed_string(0), "0");
    assert_eq!(signed_string(-1), "-1");
    assert_eq!(signed_string(42), "42");
    assert_eq!(signed_string(i64::MIN), "-9223372036854775808");
    assert_eq!(signed_string(i64::MAX), "9223372036854775807");
}

#[test]
fn bytes_are_appended_and_copied() {
    let mut out = vec![1u8, 2];
    append_bytes(&mut out, &[3, 4, 5]);
    append_bytes(&mut out, &[]);
    assert_eq!(out, vec![1, 2, 3, 4, 5]);
    assert_eq!(copy_range(&out, 1, 4), vec![2, 3, 4]);
    assert_eq!(copy_range(&out, 5, 5), Vec::<u8>::new());
    assert_eq!(copy_range(&out, 0, 5), out);
}

#[test]
fn quarantine_path_is_path_underscore_suffix() {
    assert_eq!(quarantine_path("C:\\Apps\\demo", "a1B2c3D4"), "C:\\Apps\\demo_a1B2c3D4");
    assert_eq!(quarantine_path("", ""), "_");
}

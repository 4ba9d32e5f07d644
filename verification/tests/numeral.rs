use hexdec::classify::{decimal_test, hex_loose_test, hex_prefix_test, hex_strict_test};
use hexdec::numeral::{decimal_to_hex, format_dec, format_hex, hex_to_decimal, parse_dec, parse_hex};

#[test]
fn format_zero() {
    assert_eq!(format_dec(0), "0");
    assert_eq!(format_hex(0), "0x0");
}

#[test]
fn format_is_uppercase_and_minimal() {
    assert_eq!(format_hex(255), "0xFF");
    assert_eq!(format_hex(31), "0x1F");
    assert_eq!(format_hex(u64::MAX), "0xFFFFFFFFFFFFFFFF");
    assert_eq!(format_dec(31), "31");
    assert_eq!(format_dec(u64::MAX), "18446744073709551615");
}

#[test]
fn parse_accepts_leading_zeros() {
    assert_eq!(parse_dec("007"), Some(7));
    assert_eq!(parse_dec("00000000000000000000000000007"), Some(7));
    assert_eq!(parse_hex("000A"), Some(10));
}

#[test]
fn parse_hex_accepts_either_case() {
    assert_eq!(parse_hex("ff"), Some(255));
    assert_eq!(parse_hex("Ff"), Some(255));
    assert_eq!(parse_hex("FF"), Some(255));
}

#[test]
fn parse_rejects_sign_space_and_empty() {
    assert_eq!(parse_dec("+7"), None);
    assert_eq!(parse_dec(" 7"), None);
    assert_eq!(parse_dec("7 "), None);
    assert_eq!(parse_dec(""), None);
    assert_eq!(parse_hex(""), None);
}

#[test]
fn parse_overflow_boundary() {
    assert_eq!(parse_dec("18446744073709551615"), Some(u64::MAX));
    assert_eq!(parse_dec("18446744073709551616"), None);
    assert_eq!(parse_hex("FFFFFFFFFFFFFFFF"), Some(u64::MAX));
    assert_eq!(parse_hex("10000000000000000"), None);
}

#[test]
fn round_trip_samples() {
    for n in [0u64, 1, 9, 10, 15, 16, 255, 4096, 123456789, u64::MAX] {
        assert_eq!(parse_hex(&format_hex(n)[2..]), Some(n));
        assert_eq!(parse_dec(&format_dec(n)), Some(n));
    }
}

#[test]
fn conversion_operations() {
    assert_eq!(decimal_to_hex("255").unwrap(), "0xFF");
    assert_eq!(decimal_to_hex("0xFF"), None);
    assert_eq!(hex_to_decimal("1F").unwrap(), "31");
    // the caller strips the prefix: 'x' is not a hexadecimal digit
    assert_eq!(hex_to_decimal("0x1F"), None);
}

#[test]
fn classifier_shapes() {
    assert!(decimal_test("0123"));
    assert!(!decimal_test(""));
    assert!(!decimal_test("12a"));
    assert!(hex_strict_test("0xAb9"));
    assert!(!hex_strict_test("0x"));
    assert!(!hex_strict_test("a0xFF"));
    assert!(hex_loose_test("a0xFF"));
    assert!(!hex_prefix_test("a0xFF"));
    assert!(hex_prefix_test("0x1GG"));
    assert!(!hex_strict_test("0x1GG"));
    assert!(!hex_loose_test("0x"));
    assert!(!hex_loose_test("00x"));
}

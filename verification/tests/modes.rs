use hexdec::convert::{
    convert, convert_dec_mode, convert_hex_mode, convert_with_mode, ConvError, Mode,
};

#[test]
fn hex_mode_idempotent_on_hex() {
    assert_eq!(convert_hex_mode("0xFF").unwrap(), "0xFF");
    // pass-through is verbatim: lowercase and leading zeros are kept
    assert_eq!(convert_hex_mode("0x00ff").unwrap(), "0x00ff");
}

#[test]
fn dec_mode_idempotent_on_dec() {
    assert_eq!(convert_dec_mode("255").unwrap(), "255");
    assert_eq!(convert_dec_mode("007").unwrap(), "007");
}

#[test]
fn auto_hex_to_dec() {
    assert_eq!(convert("0x1F").unwrap(), "31");
}

#[test]
fn auto_dec_to_hex() {
    assert_eq!(convert("31").unwrap(), "0x1F");
}

#[test]
fn auto_rejects_garbage() {
    assert_eq!(convert("oo09"), Err(ConvError::InvalidDecimal));
}

#[test]
fn auto_rejects_bad_hex_digits() {
    assert_eq!(convert("0x01WE"), Err(ConvError::InvalidHexadecimal));
}

#[test]
fn auto_marker_not_at_start_falls_to_decimal() {
    assert_eq!(convert("foo0x1F"), Err(ConvError::InvalidDecimal));
}

#[test]
fn hex_mode_rejects_binary() {
    assert_eq!(convert_hex_mode("0b1010"), Err(ConvError::UnrecognizedHexMode));
}

#[test]
fn dec_mode_rejects_binary() {
    assert_eq!(convert_dec_mode("0b1010"), Err(ConvError::UnrecognizedDecMode));
}

#[test]
fn hex_mode_converts_decimal() {
    assert_eq!(convert_hex_mode("255").unwrap(), "0xFF");
}

#[test]
fn dec_mode_converts_hex() {
    assert_eq!(convert_dec_mode("0x1F").unwrap(), "31");
}

#[test]
fn max_value_succeeds_in_every_mode() {
    assert_eq!(convert("18446744073709551615").unwrap(), "0xFFFFFFFFFFFFFFFF");
    assert_eq!(convert("0xFFFFFFFFFFFFFFFF").unwrap(), "18446744073709551615");
    assert_eq!(convert_hex_mode("18446744073709551615").unwrap(), "0xFFFFFFFFFFFFFFFF");
    assert_eq!(convert_dec_mode("0xFFFFFFFFFFFFFFFF").unwrap(), "18446744073709551615");
}

#[test]
fn overflow_fails_conversion() {
    assert_eq!(convert("18446744073709551616"), Err(ConvError::InvalidDecimal));
    assert_eq!(convert("0x10000000000000000"), Err(ConvError::InvalidHexadecimal));
    assert_eq!(convert_hex_mode("18446744073709551616"), Err(ConvError::InvalidDecimal));
    assert_eq!(convert_dec_mode("0x10000000000000000"), Err(ConvError::InvalidHexadecimal));
    // forced decimal mode performs no conversion on decimal text
    assert_eq!(convert_dec_mode("18446744073709551616").unwrap(), "18446744073709551616");
}

#[test]
fn empty_fails_in_every_mode() {
    assert_eq!(convert(""), Err(ConvError::InvalidDecimal));
    assert_eq!(convert_hex_mode(""), Err(ConvError::UnrecognizedHexMode));
    assert_eq!(convert_dec_mode(""), Err(ConvError::UnrecognizedDecMode));
}

#[test]
fn mode_dispatch() {
    assert_eq!(convert_with_mode(Mode::Auto, "0x1F").unwrap(), "31");
    assert_eq!(convert_with_mode(Mode::ForceHex, "255").unwrap(), "0xFF");
    assert_eq!(convert_with_mode(Mode::ForceDecimal, "0xFF").unwrap(), "255");
}

#[test]
fn error_messages() {
    assert_eq!(ConvError::InvalidHexadecimal.message(), "Invalid hexadecimal number");
    assert_eq!(ConvError::InvalidDecimal.message(), "Invalid decimal number");
    assert_eq!(
        ConvError::UnrecognizedHexMode.message(),
        "Invalid input: only decimal or hexadecimal numbers are allowed in -x mode"
    );
    assert_eq!(
        ConvError::UnrecognizedDecMode.message(),
        "Invalid input: only decimal or hexadecimal numbers are allowed in -d mode"
    );
}

#[test]
fn non_ascii_input_is_rejected_without_panic() {
    // an Arabic-Indic digit is not an ASCII digit
    assert_eq!(convert("\u{0663}"), Err(ConvError::InvalidDecimal));
    assert_eq!(convert_hex_mode("\u{0663}"), Err(ConvError::UnrecognizedHexMode));
}

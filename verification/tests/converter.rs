use hexdec::convert::Converter;

#[test]
fn test_hex_to_dec() {
    let converter = Converter::new();
    assert_eq!(converter.convert("0x1F".to_string()), "31");
}

#[test]
fn test_dec_to_hex() {
    let converter = Converter::new();
    assert_eq!(converter.convert("31".to_string()), "0x1F");
}

#[test]
fn test_invalid_value() {
    let converter = Converter::new();
    assert_eq!(converter.convert("oo09".to_string()), "");
}

#[test]
fn test_invalid_value_hex() {
    let converter = Converter::new();
    assert_eq!(converter.convert("0x01WE".to_string()), "");
}

use cairo_trace::hex_str::{hex_to_string, HexTextError};

#[test]
fn decodes_prefixed_hex_into_text() {
    assert_eq!(hex_to_string("0x68656c6c6f"), Ok("hello".to_string()));
    assert_eq!(hex_to_string("0x"), Ok(String::new()));
    // Uppercase digits decode too.
    assert_eq!(hex_to_string("0x4849"), Ok("HI".to_string()));
}

#[test]
fn rejects_text_that_is_not_hex() {
    assert_eq!(hex_to_string("0xzz"), Err(HexTextError::InvalidHex));
    // An odd number of digits cannot form bytes.
    assert_eq!(hex_to_string("0x686"), Err(HexTextError::InvalidHex));
}

#[test]
fn rejects_bytes_that_are_not_utf8() {
    assert_eq!(hex_to_string("0xff"), Err(HexTextError::InvalidUtf8));
}

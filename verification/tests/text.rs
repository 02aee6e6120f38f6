use reqrep_gateway::error::EncodingError;
use reqrep_gateway::text::decode_text;

#[test]
fn ascii_bytes_are_text() {
    assert_eq!(decode_text(b"hello".to_vec()), Ok(String::from("hello")));
}

#[test]
fn no_bytes_are_the_empty_text() {
    assert_eq!(decode_text(Vec::new()), Ok(String::new()));
}

#[test]
fn multi_byte_sequences_are_text() {
    assert_eq!(
        decode_text(vec![0x67, 0x72, 0xc3, 0xbc, 0xc3, 0x9f, 0x20, 0xe2, 0x9c, 0x93]),
        Ok(String::from("grüß ✓"))
    );
    assert_eq!(decode_text(vec![0xf0, 0x9f, 0xa6, 0x80]), Ok(String::from("🦀")));
}

#[test]
fn a_stray_byte_is_no_text() {
    assert_eq!(decode_text(vec![0xff]), Err(EncodingError {}));
    assert_eq!(decode_text(vec![b'a', 0x80, b'b']), Err(EncodingError {}));
}

#[test]
fn a_cut_sequence_is_no_text() {
    assert_eq!(decode_text(vec![0xe2, 0x9c]), Err(EncodingError {}));
}

#[test]
fn an_overlong_encoding_is_no_text() {
    assert_eq!(decode_text(vec![0xc0, 0xaf]), Err(EncodingError {}));
}

#[test]
fn a_surrogate_is_no_text() {
    assert_eq!(decode_text(vec![0xed, 0xa0, 0x80]), Err(EncodingError {}));
}

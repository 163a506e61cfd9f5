use crypter::hexcodec;
use crypter::CrypterError;

#[test]
fn encode_hex_lowercase_pairs() {
    assert_eq!(hexcodec::encode_hex(&[]), b"");
    assert_eq!(hexcodec::encode_hex(&[0x00]), b"00");
    assert_eq!(hexcodec::encode_hex(&[0xab, 0x01, 0xff]), b"ab01ff");
}

#[test]
fn decode_key_accepts_both_cases() {
    assert_eq!(hexcodec::decode_key(b"00ff"), Ok(vec![0x00, 0xff]));
    assert_eq!(hexcodec::decode_key(b"00FF"), Ok(vec![0x00, 0xff]));
    assert_eq!(hexcodec::decode_key(b"DeadBeef"), Ok(vec![0xde, 0xad, 0xbe, 0xef]));
    assert_eq!(hexcodec::decode_key(b""), Ok(vec![]));
}

#[test]
fn decode_key_rejects_bad_encodings() {
    assert_eq!(
        hexcodec::decode_key(b"0g"),
        Err(CrypterError::InvalidKeyEncoding)
    );
    assert_eq!(
        hexcodec::decode_key(b"abc"),
        Err(CrypterError::InvalidKeyEncoding)
    );
    assert_eq!(
        hexcodec::decode_key(b"0x41"),
        Err(CrypterError::InvalidKeyEncoding)
    );
}

#[test]
fn decode_hex_input_ignores_other_bytes() {
    assert_eq!(hexcodec::decode_hex_input(b"4 1\n4!2"), vec![0x41, 0x42]);
    assert_eq!(hexcodec::decode_hex_input(b"FF"), vec![0xff]);
    assert_eq!(
        hexcodec::decode_hex_input(b"no hex in this sentence?!"),
        vec![0xee, 0xec]
    );
}

#[test]
fn decode_hex_input_drops_trailing_digit() {
    assert_eq!(hexcodec::decode_hex_input(b"0x41"), vec![0x04]);
    assert_eq!(hexcodec::decode_hex_input(b"a"), vec![]);
    assert_eq!(hexcodec::decode_hex_input(b""), vec![]);
}

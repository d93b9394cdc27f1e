use codec_engine::fixed_width::{decode_base64_to_bytes, decode_hex_to_bytes};
use codec_engine::sm4::{encode_bytes, sm4_decrypt_bytes, sm4_encrypt_bytes};
use codec_engine::{
    decode_cipher_input, parse_fixed_16, require_iv, EngineError, KeyField, MalformedReason,
    Sm4Format, Sm4KeyType, Sm4Mode, Sm4Padding,
};

#[test]
fn text_key_is_its_utf8_bytes() {
    assert_eq!(
        parse_fixed_16("1234567890123456", Sm4KeyType::Text, KeyField::Key).unwrap(),
        *b"1234567890123456"
    );
    // Eight two-byte characters are sixteen bytes.
    let key = parse_fixed_16("\u{e9}\u{e9}\u{e9}\u{e9}\u{e9}\u{e9}\u{e9}\u{e9}", Sm4KeyType::Text, KeyField::Key)
        .unwrap();
    assert_eq!(key, [0xc3, 0xa9, 0xc3, 0xa9, 0xc3, 0xa9, 0xc3, 0xa9, 0xc3, 0xa9, 0xc3, 0xa9, 0xc3, 0xa9, 0xc3, 0xa9]);
}

#[test]
fn hex_key_is_decoded() {
    let key = parse_fixed_16("0123456789abcdefFEDCBA9876543210", Sm4KeyType::Hex, KeyField::Key).unwrap();
    assert_eq!(
        key,
        [0x01, 0x23, 0x45, 0x67, 0x89, 0xab, 0xcd, 0xef, 0xfe, 0xdc, 0xba, 0x98, 0x76, 0x54, 0x32, 0x10]
    );
    let spaced = parse_fixed_16(" 01234567 89abcdef\nfedcba98 76543210\t", Sm4KeyType::Hex, KeyField::Iv).unwrap();
    assert_eq!(spaced, key);
}

#[test]
fn wrong_lengths_are_reported_with_the_count() {
    assert_eq!(
        parse_fixed_16("", Sm4KeyType::Text, KeyField::Key),
        Err(EngineError::WrongKeyOrIvLength { field: KeyField::Key, expected: 16, actual: 0 })
    );
    assert_eq!(
        parse_fixed_16("12345678901234567", Sm4KeyType::Text, KeyField::Iv),
        Err(EngineError::WrongKeyOrIvLength { field: KeyField::Iv, expected: 16, actual: 17 })
    );
    // Sixteen characters, seventeen bytes.
    assert_eq!(
        parse_fixed_16("123456789012345\u{e9}", Sm4KeyType::Text, KeyField::Key),
        Err(EngineError::WrongKeyOrIvLength { field: KeyField::Key, expected: 16, actual: 17 })
    );
    assert_eq!(
        parse_fixed_16("0123456789abcdef", Sm4KeyType::Hex, KeyField::Key),
        Err(EngineError::WrongKeyOrIvLength { field: KeyField::Key, expected: 16, actual: 8 })
    );
    assert_eq!(
        parse_fixed_16("", Sm4KeyType::Hex, KeyField::Iv),
        Err(EngineError::WrongKeyOrIvLength { field: KeyField::Iv, expected: 16, actual: 0 })
    );
}

#[test]
fn malformed_hex_secrets() {
    assert_eq!(
        parse_fixed_16("0123456789abcdefFEDCBA987654321", Sm4KeyType::Hex, KeyField::Key),
        Err(EngineError::MalformedInput(MalformedReason::Length))
    );
    assert_eq!(
        parse_fixed_16("0123456789abcdefFEDCBA987654321g", Sm4KeyType::Hex, KeyField::Key),
        Err(EngineError::MalformedInput(MalformedReason::Symbol))
    );
    // Three bytes: the length is odd, and that is seen first.
    assert_eq!(
        parse_fixed_16("\u{e9}g", Sm4KeyType::Hex, KeyField::Key),
        Err(EngineError::MalformedInput(MalformedReason::Length))
    );
}

#[test]
fn only_ecb_takes_no_iv() {
    assert!(!require_iv(Sm4Mode::Ecb));
    assert!(require_iv(Sm4Mode::Cbc));
    assert!(require_iv(Sm4Mode::Cfb));
    assert!(require_iv(Sm4Mode::Ofb));
    assert!(require_iv(Sm4Mode::Ctr));
}

#[test]
fn cipher_input_formats() {
    assert_eq!(decode_cipher_input("DE ad\nBE ef", Sm4Format::Hex).unwrap(), vec![0xde, 0xad, 0xbe, 0xef]);
    assert_eq!(decode_cipher_input("3q2+\n7w==", Sm4Format::Base64).unwrap(), vec![0xde, 0xad, 0xbe, 0xef]);
    assert_eq!(decode_cipher_input("", Sm4Format::Hex).unwrap(), Vec::<u8>::new());
    assert_eq!(decode_hex_to_bytes("00ff").unwrap(), vec![0x00, 0xff]);
    assert_eq!(decode_base64_to_bytes("AP8=").unwrap(), vec![0x00, 0xff]);
    assert_eq!(
        decode_cipher_input("3q2+7w=", Sm4Format::Base64),
        Err(EngineError::MalformedInput(MalformedReason::Length))
    );
    assert_eq!(
        decode_cipher_input("3q2+7===", Sm4Format::Base64),
        Err(EngineError::MalformedInput(MalformedReason::Padding))
    );
}

#[test]
fn ciphertext_formats() {
    assert_eq!(encode_bytes(&[0xde, 0xad, 0xbe, 0xef], Sm4Format::Hex).unwrap(), "deadbeef");
    assert_eq!(encode_bytes(&[0xde, 0xad, 0xbe, 0xef], Sm4Format::Base64).unwrap(), "3q2+7w==");
    assert_eq!(encode_bytes(&[], Sm4Format::Hex).unwrap(), "");
    assert_eq!(encode_bytes(&[0x0f, 0xf0, 0x00], Sm4Format::Hex).unwrap(), "0ff000");
}

#[test]
fn bytes_round_trip_in_every_mode_and_padding() {
    let key = *b"1234567890123456";
    let iv = Some(*b"6543210987654321");
    let plain = b"seventeen bytes!!".to_vec();
    for mode in [Sm4Mode::Ecb, Sm4Mode::Cbc, Sm4Mode::Cfb, Sm4Mode::Ofb, Sm4Mode::Ctr] {
        for padding in [Sm4Padding::Pkcs7, Sm4Padding::Zero] {
            let ct = sm4_encrypt_bytes(&plain, key, iv, mode, padding).unwrap();
            assert_eq!(ct.len(), 32);
            assert_ne!(&ct[..17], &plain[..]);
            assert_eq!(sm4_decrypt_bytes(&ct, key, iv, mode, padding).unwrap(), plain);
        }
        let aligned = b"exactly 16 bytes".to_vec();
        let ct = sm4_encrypt_bytes(&aligned, key, iv, mode, Sm4Padding::NoPadding).unwrap();
        assert_eq!(ct.len(), 16);
        assert_eq!(sm4_decrypt_bytes(&ct, key, iv, mode, Sm4Padding::NoPadding).unwrap(), aligned);
    }
}

#[test]
fn streaming_modes_decrypt_any_length() {
    let key = *b"1234567890123456";
    let iv = Some(*b"6543210987654321");
    for mode in [Sm4Mode::Cfb, Sm4Mode::Ofb, Sm4Mode::Ctr] {
        let out = sm4_decrypt_bytes(&[1, 2, 3], key, iv, mode, Sm4Padding::NoPadding).unwrap();
        assert_eq!(out.len(), 3);
    }
    for mode in [Sm4Mode::Ecb, Sm4Mode::Cbc] {
        assert_eq!(
            sm4_decrypt_bytes(&[1, 2, 3], key, iv, mode, Sm4Padding::NoPadding),
            Err(EngineError::DataNotBlockAligned)
        );
    }
}

#[test]
fn modes_differ_after_the_first_block() {
    let key = *b"1234567890123456";
    let iv = Some(*b"1234567890123456");
    let plain = b"0123456789abcdeffedcba9876543210".to_vec();
    let cfb = sm4_encrypt_bytes(&plain, key, iv, Sm4Mode::Cfb, Sm4Padding::NoPadding).unwrap();
    let ofb = sm4_encrypt_bytes(&plain, key, iv, Sm4Mode::Ofb, Sm4Padding::NoPadding).unwrap();
    let ctr = sm4_encrypt_bytes(&plain, key, iv, Sm4Mode::Ctr, Sm4Padding::NoPadding).unwrap();
    assert_eq!(&cfb[..16], &ofb[..16]);
    assert_eq!(&cfb[..16], &ctr[..16]);
    assert_ne!(&cfb[16..], &ofb[16..]);
    assert_ne!(&cfb[16..], &ctr[16..]);
    assert_ne!(&ofb[16..], &ctr[16..]);
}

#[test]
fn a_missing_iv_is_reported_by_the_byte_level_too() {
    let key = *b"1234567890123456";
    for mode in [Sm4Mode::Cbc, Sm4Mode::Cfb, Sm4Mode::Ofb, Sm4Mode::Ctr] {
        assert_eq!(
            sm4_encrypt_bytes(b"x", key, None, mode, Sm4Padding::Pkcs7),
            Err(EngineError::MissingIv(mode))
        );
        assert_eq!(
            sm4_decrypt_bytes(&[0u8; 16], key, None, mode, Sm4Padding::Pkcs7),
            Err(EngineError::MissingIv(mode))
        );
    }
    // Padding is looked at before the mode.
    assert_eq!(
        sm4_encrypt_bytes(b"x", key, None, Sm4Mode::Cbc, Sm4Padding::NoPadding),
        Err(EngineError::DataNotBlockAligned)
    );
}

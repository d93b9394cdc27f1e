use codec_engine::basex::parse_base;
use codec_engine::big_integer::{
    check_alphabet, decode_positional, encode_positional, BASE58_ALPHABET, BASE62_ALPHABET,
};
use codec_engine::fixed_width::{
    decode_base32_to_bytes, encode_base32, encode_base64, encode_hex, get_custom_encoding,
};
use codec_engine::static_table::{
    check_base85, decode_base85, decode_base91, encode_base85, encode_base91,
};
use codec_engine::text::str_equal;
use codec_engine::{Base, EngineError, MalformedReason};

#[test]
fn base_names_are_exact() {
    assert_eq!(parse_base("base16"), Some(Base::Base16));
    assert_eq!(parse_base("base32"), Some(Base::Base32));
    assert_eq!(parse_base("base58"), Some(Base::Base58));
    assert_eq!(parse_base("base62"), Some(Base::Base62));
    assert_eq!(parse_base("base64"), Some(Base::Base64));
    assert_eq!(parse_base("base85"), Some(Base::Base85));
    assert_eq!(parse_base("base91"), Some(Base::Base91));
    for other in ["", "base", "base16 ", " base16", "Base16", "base160", "16", "base36"] {
        assert_eq!(parse_base(other), None, "{other:?}");
    }
}

#[test]
fn symbol_counts() {
    let counts: Vec<usize> = [
        Base::Base16,
        Base::Base32,
        Base::Base58,
        Base::Base62,
        Base::Base64,
        Base::Base85,
        Base::Base91,
    ]
    .iter()
    .map(|b| b.symbol_count())
    .collect();
    assert_eq!(counts, vec![16, 32, 58, 62, 64, 85, 91]);
    assert_eq!(BASE58_ALPHABET.chars().count(), 58);
    assert_eq!(BASE62_ALPHABET.chars().count(), 62);
}

#[test]
fn text_comparison() {
    assert!(str_equal("", ""));
    assert!(str_equal("abc", "abc"));
    assert!(str_equal("\u{e9}\u{4e2d}", "\u{e9}\u{4e2d}"));
    assert!(!str_equal("abc", "abd"));
    assert!(!str_equal("abc", "ab"));
    assert!(!str_equal("", "a"));
    assert!(!str_equal("e\u{301}", "\u{e9}"));
}

#[test]
fn hex_of_every_byte() {
    let all: Vec<u8> = (0u8..=255).collect();
    let text = encode_hex(&all).unwrap();
    assert_eq!(text.len(), 512);
    assert_eq!(&text[..8], "00010203");
    assert_eq!(&text[18..30], "090a0b0c0d0e");
    assert_eq!(&text[504..], "fcfdfeff");
    assert!(text.bytes().all(|b| b.is_ascii_digit() || (b'a'..=b'f').contains(&b)));
}

#[test]
fn base32_and_base64_lengths_and_padding() {
    let expect32 = ["", "ME======", "MFRA====", "MFRGG===", "MFRGGZA=", "MFRGGZDF", "MFRGGZDFMY======"];
    let expect64 = ["", "YQ==", "YWI=", "YWJj", "YWJjZA==", "YWJjZGU=", "YWJjZGVm"];
    let input = b"abcdef";
    for n in 0..=6 {
        assert_eq!(encode_base32(&input[..n]).unwrap(), expect32[n]);
        assert_eq!(encode_base64(&input[..n]).unwrap(), expect64[n]);
        assert_eq!(decode_base32_to_bytes(expect32[n]).unwrap(), &input[..n]);
    }
}

#[test]
fn custom_encoding_holds_alphabet_and_padding() {
    let e16 = get_custom_encoding(16, "0123456789ABCDEF");
    assert_eq!(e16.symbols, "0123456789ABCDEF");
    assert_eq!(e16.padding, None);
    assert_eq!(get_custom_encoding(32, "x").padding, Some('='));
    assert_eq!(get_custom_encoding(64, "x").padding, Some('='));
    assert_eq!(get_custom_encoding(8, "01234567").padding, None);

    assert_eq!(e16.encode(&[0xde, 0xad]).unwrap(), "DEAD");
    assert_eq!(e16.decode("DE AD").unwrap(), vec![0xde, 0xad]);
    assert_eq!(e16.decode("dead"), Err(EngineError::MalformedInput(MalformedReason::Symbol)));
    assert_eq!(e16.decode("DEA"), Err(EngineError::MalformedInput(MalformedReason::Length)));

    // Octal and binary are alphabets of a power of two as well.
    let octal = get_custom_encoding(8, "01234567");
    assert_eq!(octal.encode(b"Bit").unwrap(), "20464564");
    let binary = get_custom_encoding(2, "01");
    assert_eq!(binary.encode(b"B").unwrap(), "01000010");
    // Ten symbols are no power of two.
    let decimal = get_custom_encoding(10, "0123456789");
    assert_eq!(decimal.encode(b"B"), Err(EngineError::MalformedInput(MalformedReason::Alphabet)));
    assert_eq!(decimal.decode("66"), Err(EngineError::MalformedInput(MalformedReason::Alphabet)));
}

#[test]
fn usable_alphabets() {
    assert!(check_alphabet("01"));
    assert!(check_alphabet("aab"));
    assert!(check_alphabet(BASE58_ALPHABET));
    assert!(check_alphabet(BASE62_ALPHABET));
    assert!(check_alphabet("\u{1f610}\u{1f600}"));
    assert!(!check_alphabet(""));
    assert!(!check_alphabet("0"));
    assert!(!check_alphabet("00"));
    assert!(!check_alphabet("\u{1f610}\u{1f610}\u{1f610}"));
}

#[test]
fn positional_codec_in_radix_two_and_ten() {
    assert_eq!(encode_positional("01", &[0xff, 0x00]).unwrap(), "1111111100000000");
    assert_eq!(decode_positional("01", "1111111100000000").unwrap(), vec![0xff, 0x00]);
    assert_eq!(encode_positional("0123456789", &[0x01, 0x00]).unwrap(), "256");
    assert_eq!(decode_positional("0123456789", "256").unwrap(), vec![0x01, 0x00]);
    assert_eq!(encode_positional("0123456789", &[0, 0, 0xff]).unwrap(), "00255");
    assert_eq!(decode_positional("0123456789", "00255").unwrap(), vec![0, 0, 0xff]);
    assert_eq!(encode_positional("0123456789", &[]).unwrap(), "");
    assert_eq!(encode_positional("0123456789", &[0, 0]).unwrap(), "00");
    assert_eq!(decode_positional("0123456789", "000").unwrap(), vec![0, 0, 0]);
    assert_eq!(
        decode_positional("0123456789", "12a"),
        Err(EngineError::MalformedInput(MalformedReason::Symbol))
    );
}

#[test]
fn base85_obstacles() {
    assert_eq!(check_base85(b""), None);
    assert_eq!(check_base85(b"VE"), None);
    assert_eq!(check_base85(b"VPRom"), None);
    assert_eq!(check_base85(b"|NsC0"), None);
    assert_eq!(check_base85(b"|NsC1"), Some(MalformedReason::Range));
    assert_eq!(check_base85(b"|NsC"), Some(MalformedReason::Range));
    // A short last group is filled up before it is weighed.
    assert_eq!(check_base85(b"|Ns9"), None);
    assert_eq!(check_base85(b"|NsB"), Some(MalformedReason::Range));
    assert_eq!(check_base85(b"{"), Some(MalformedReason::Length));
    assert_eq!(check_base85(b"}"), Some(MalformedReason::Range));
    assert_eq!(check_base85(b"V"), Some(MalformedReason::Length));
    assert_eq!(check_base85(b"VPRomVPRomV"), Some(MalformedReason::Length));
    assert_eq!(check_base85(b"VPRo m"), Some(MalformedReason::Symbol));
    assert_eq!(check_base85(b"VPRom,"), Some(MalformedReason::Symbol));
    assert_eq!(check_base85(&[0x56, 0xc3, 0xa9]), Some(MalformedReason::Symbol));
    assert_eq!(check_base85(b"00000~~~~~"), Some(MalformedReason::Range));
}

#[test]
fn base85_covers_its_alphabet() {
    let alphabet = "0123456789ABCDEFGHIJKLMNOPQRSTUVWXYZabcdefghijklmnopqrstuvwxyz!#$%&()*+-;<=>?@^_`{|}~";
    assert_eq!(alphabet.len(), 85);
    for (value, symbol) in alphabet.chars().enumerate() {
        // The last digit of a group counts once: 0000x is the number of x.
        let text = format!("0000{symbol}");
        let bytes = decode_base85(&text).unwrap();
        assert_eq!(bytes, vec![0, 0, 0, value as u8], "symbol {symbol:?}");
    }
    for b in 0u8..=255 {
        let is_symbol = b.is_ascii() && alphabet.contains(b as char);
        let text = [b'0', b'0', b'0', b'0', b];
        assert_eq!(check_base85(&text).is_none(), is_symbol, "byte {b:#x}");
    }
}

#[test]
fn base85_tails() {
    for n in 0usize..=9 {
        let input: Vec<u8> = (0..n).map(|i| (i * 37 + 200) as u8).collect();
        let text = encode_base85(&input).unwrap();
        let expected_len = n / 4 * 5 + if n % 4 == 0 { 0 } else { n % 4 + 1 };
        assert_eq!(text.len(), expected_len);
        assert_eq!(decode_base85(&text).unwrap(), input);
    }
    assert_eq!(encode_base85(&[0xff, 0xff, 0xff, 0xff]).unwrap(), "|NsC0");
    assert_eq!(decode_base85("|NsC0").unwrap(), vec![0xff, 0xff, 0xff, 0xff]);
    assert_eq!(encode_base85(&[0xff]).unwrap(), "{{");
    assert_eq!(decode_base85("{{").unwrap(), vec![0xff]);
}

#[test]
fn base91_bytes() {
    assert_eq!(encode_base91(b"test").unwrap(), "fPNKd");
    assert_eq!(decode_base91(b"fPNKd"), b"test");
    assert_eq!(decode_base91(b""), Vec::<u8>::new());
    let all: Vec<u8> = (0u8..=255).collect();
    let text = encode_base91(&all).unwrap();
    assert!(text.is_ascii());
    assert_eq!(decode_base91(text.as_bytes()), all);
}

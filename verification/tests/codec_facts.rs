use codec_engine::big_integer::{decode_positional, encode_positional, BASE58_ALPHABET, BASE62_ALPHABET};
use codec_engine::fixed_width::{
    decode_base32_to_bytes, decode_base64_to_bytes, decode_hex_to_bytes, encode_base32,
    encode_base64, encode_hex, get_custom_encoding,
};
use codec_engine::modes::{decrypt_with_mode, encrypt_with_mode};
use codec_engine::static_table::{check_base85, decode_base85, encode_base85};
use codec_engine::{EngineError, MalformedReason, Sm4Mode};

struct Rng(u64);

impl Rng {
    fn next(&mut self) -> u64 {
        self.0 ^= self.0 << 13;
        self.0 ^= self.0 >> 7;
        self.0 ^= self.0 << 17;
        self.0
    }

    fn bytes(&mut self, len: usize) -> Vec<u8> {
        (0..len).map(|_| (self.next() >> 24) as u8).collect()
    }
}

fn hex_value(b: u8) -> Option<u8> {
    match b {
        b'0'..=b'9' => Some(b - b'0'),
        b'a'..=b'f' => Some(b - b'a' + 10),
        b'A'..=b'F' => Some(b - b'A' + 10),
        _ => None,
    }
}

#[test]
fn every_pair_of_ascii_characters_as_hexadecimal() {
    for hi in 0u8..128 {
        for lo in 0u8..128 {
            if (hi as char).is_whitespace() || (lo as char).is_whitespace() {
                continue;
            }
            let text = String::from_utf8(vec![hi, lo]).unwrap();
            let expected = match (hex_value(hi), hex_value(lo)) {
                (Some(h), Some(l)) => Ok(vec![h * 16 + l]),
                _ => Err(EngineError::MalformedInput(MalformedReason::Symbol)),
            };
            assert_eq!(decode_hex_to_bytes(&text), expected, "{text:?}");
        }
    }
}

#[test]
fn hexadecimal_of_odd_length_is_refused_for_its_length() {
    for text in ["0", "abc", "zzz", "0g0", "\u{e9}0", "0\u{e9}0\u{e9}0"] {
        assert_eq!(
            decode_hex_to_bytes(text),
            Err(EngineError::MalformedInput(MalformedReason::Length)),
            "{text:?}"
        );
    }
    // An even number of bytes with a character beyond ASCII.
    assert_eq!(
        decode_hex_to_bytes("\u{e9}"),
        Err(EngineError::MalformedInput(MalformedReason::Symbol))
    );
}

#[test]
fn hexadecimal_text_is_two_lowercase_digits_a_byte() {
    let digits = b"0123456789abcdef";
    let mut rng = Rng(0x9e3779b97f4a7c15);
    for len in 0usize..40 {
        let input = rng.bytes(len);
        let text = encode_hex(&input).unwrap();
        let expected: Vec<u8> = input
            .iter()
            .flat_map(|b| [digits[(b / 16) as usize], digits[(b % 16) as usize]])
            .collect();
        assert_eq!(text.as_bytes(), &expected[..]);
        assert_eq!(decode_hex_to_bytes(&text).unwrap(), input);
        assert_eq!(decode_hex_to_bytes(&text.to_ascii_uppercase()).unwrap(), input);
    }
}

#[test]
fn base32_and_base64_text_has_its_length_and_alphabet_and_decodes() {
    let mut rng = Rng(0x2545f4914f6cdd1d);
    for len in 0usize..80 {
        let input = rng.bytes(len);

        let text = encode_base32(&input).unwrap();
        assert_eq!(text.len(), 8 * ((len + 4) / 5));
        assert!(text.chars().all(|c| c.is_ascii_uppercase() || ('2'..='7').contains(&c) || c == '='));
        assert_eq!(decode_base32_to_bytes(&text).unwrap(), input);

        let text = encode_base64(&input).unwrap();
        assert_eq!(text.len(), 4 * ((len + 2) / 3));
        assert!(text.chars().all(|c| c.is_ascii_alphanumeric() || c == '+' || c == '/' || c == '='));
        assert_eq!(decode_base64_to_bytes(&text).unwrap(), input);
    }
}

fn accepted(symbols: &str, padding: Option<char>) -> bool {
    let chars: Vec<char> = symbols.chars().collect();
    let n = chars.len();
    let size_ok = [2, 4, 8, 16, 32, 64].contains(&n);
    let ascii = chars.iter().all(|c| c.is_ascii());
    let unique = (0..n).all(|i| (0..i).all(|j| chars[i] != chars[j]));
    let pad_ok = match padding {
        None => true,
        Some(p) => [8, 32, 64].contains(&n) && p.is_ascii() && !chars.contains(&p),
    };
    size_ok && ascii && unique && pad_ok
}

#[test]
fn alphabets_are_accepted_exactly_when_well_formed() {
    let pool = "ABCDEFGHIJKLMNOPQRSTUVWXYZabcdefghijklmnopqrstuvwxyz0123456789+/";
    let mut alphabets: Vec<String> = Vec::new();
    for n in 0..=66usize {
        alphabets.push(pool.chars().cycle().take(n).collect());
    }
    for n in [2usize, 4, 8, 16, 32, 64] {
        let base: String = pool.chars().take(n).collect();
        // A repeated symbol, a character beyond ASCII, the padding among the symbols.
        alphabets.push(format!("{}{}", &base[..n - 1], &base[..1]));
        alphabets.push(format!("{}\u{e9}", &base[..n - 1]));
        alphabets.push(format!("{}=", &base[..n - 1]));
        alphabets.push(format!("{}\u{e9}", &base[..n - 2]));
        alphabets.push(format!(" {}", &base[..n - 1]));
    }
    for symbols in &alphabets {
        let count = symbols.chars().count();
        let encoding = get_custom_encoding(count, symbols);
        let expected = accepted(symbols, encoding.padding);
        let encoded = encoding.encode(b"some bytes");
        let decoded = encoding.decode("");
        if expected {
            let text = encoded.unwrap();
            assert_eq!(decoded.unwrap(), Vec::<u8>::new());
            // Where no symbol is whitespace, the text decodes to what was encoded.
            if !symbols.contains(' ') {
                assert_eq!(encoding.decode(&text).unwrap(), b"some bytes", "{symbols:?}");
            }
        } else {
            assert_eq!(encoded, Err(EngineError::MalformedInput(MalformedReason::Alphabet)), "{symbols:?}");
            assert_eq!(decoded, Err(EngineError::MalformedInput(MalformedReason::Alphabet)), "{symbols:?}");
        }
    }
}

fn leading(bytes: &[u8], x: u8) -> usize {
    bytes.iter().take_while(|b| **b == x).count()
}

fn leading_chars(text: &str, x: char) -> usize {
    text.chars().take_while(|c| *c == x).count()
}

#[test]
fn leading_zero_bytes_and_leading_first_symbols_correspond() {
    let alphabets = [BASE58_ALPHABET, BASE62_ALPHABET, "01", "ab", "aab", "0123456789", "\u{1f610}\u{1f600}x"];
    let mut rng = Rng(0xdeadbeefcafef00d);
    for alphabet in alphabets {
        let first = alphabet.chars().next().unwrap();
        for zeros in 0usize..5 {
            for len in 0usize..12 {
                let mut input = vec![0u8; zeros];
                input.extend(rng.bytes(len));
                let text = encode_positional(alphabet, &input).unwrap();
                assert!(
                    leading_chars(&text, first) >= leading(&input, 0),
                    "{alphabet:?} {input:?} {text:?}"
                );
                let back = decode_positional(alphabet, &text).unwrap();
                assert!(leading(&back, 0) >= leading_chars(&text, first));
                if alphabet != "aab" {
                    assert_eq!(back, input, "{alphabet:?}");
                }
            }
        }
    }
}

#[test]
fn base85_text_that_passes_the_check_decodes() {
    let alphabet: Vec<u8> =
        b"0123456789ABCDEFGHIJKLMNOPQRSTUVWXYZabcdefghijklmnopqrstuvwxyz!#$%&()*+-;<=>?@^_`{|}~".to_vec();
    let mut rng = Rng(0x0123456789abcdef);
    let mut passed = 0;
    let mut refused = 0;
    for round in 0..20000 {
        let len = (rng.next() % 12) as usize;
        let mut text: Vec<u8> = (0..len).map(|_| alphabet[(rng.next() % 85) as usize]).collect();
        // Lean towards the largest leading digits, where the groups run over.
        if round % 2 == 0 {
            for start in (0..len).step_by(5) {
                text[start] = alphabet[80 + (rng.next() % 5) as usize];
            }
        }
        let text = String::from_utf8(text).unwrap();
        match check_base85(text.as_bytes()) {
            None => {
                passed += 1;
                let bytes = decode_base85(&text).unwrap();
                assert_eq!(bytes.len(), len / 5 * 4 + (len % 5).saturating_sub(1));
            }
            Some(reason) => {
                refused += 1;
                assert_ne!(reason, MalformedReason::Symbol);
                assert_eq!(decode_base85(&text), Err(EngineError::MalformedInput(reason)));
            }
        }
    }
    assert!(passed > 1000 && refused > 1000);
}

#[test]
fn base85_of_any_bytes_passes_the_check() {
    let mut rng = Rng(0xfeedface12345678);
    for len in 0usize..40 {
        for _ in 0..50 {
            let mut input = rng.bytes(len);
            // The largest values are the ones that come close to the limit.
            for i in 0..len {
                if rng.next() % 3 == 0 {
                    input[i] = 0xff;
                }
            }
            let text = encode_base85(&input).unwrap();
            assert_eq!(check_base85(text.as_bytes()), None, "{input:x?}");
            assert_eq!(decode_base85(&text).unwrap(), input);
        }
    }
}

#[test]
fn modes_keep_the_length_and_block_modes_need_whole_blocks() {
    let key = *b"0123456789abcdef";
    let iv = Some(*b"fedcba9876543210");
    let mut rng = Rng(0x1357924680abcdef);
    for mode in [Sm4Mode::Ecb, Sm4Mode::Cbc, Sm4Mode::Cfb, Sm4Mode::Ofb, Sm4Mode::Ctr] {
        let block_mode = matches!(mode, Sm4Mode::Ecb | Sm4Mode::Cbc);
        for len in 0usize..50 {
            let data = rng.bytes(len);
            let enc = encrypt_with_mode(mode, &key, iv, data.clone());
            let dec = decrypt_with_mode(mode, &key, iv, data.clone());
            if block_mode && len % 16 != 0 {
                assert_eq!(enc, Err(EngineError::DataNotBlockAligned));
                assert_eq!(dec, Err(EngineError::DataNotBlockAligned));
            } else {
                let enc = enc.unwrap();
                assert_eq!(enc.len(), len);
                assert_eq!(dec.unwrap().len(), len);
                assert_eq!(decrypt_with_mode(mode, &key, iv, enc).unwrap(), data);
            }
        }
    }
}

#[test]
fn ecb_works_block_by_block_and_cbc_chains() {
    let key = *b"0123456789abcdef";
    let iv = Some(*b"fedcba9876543210");
    let twice = [b"sixteen byte blk".as_slice(), b"sixteen byte blk".as_slice()].concat();
    let ecb = encrypt_with_mode(Sm4Mode::Ecb, &key, None, twice.clone()).unwrap();
    assert_eq!(&ecb[..16], &ecb[16..]);
    let cbc = encrypt_with_mode(Sm4Mode::Cbc, &key, iv, twice).unwrap();
    assert_ne!(&cbc[..16], &cbc[16..]);
    assert_ne!(&cbc[..16], &ecb[..16]);
}

#[test]
fn stream_modes_are_their_own_inverse() {
    let key = *b"0123456789abcdef";
    let iv = Some(*b"fedcba9876543210");
    let data = b"any length of data will do here".to_vec();
    for mode in [Sm4Mode::Ofb, Sm4Mode::Ctr] {
        let once = encrypt_with_mode(mode, &key, iv, data.clone()).unwrap();
        assert_eq!(encrypt_with_mode(mode, &key, iv, once.clone()).unwrap(), data);
        assert_eq!(decrypt_with_mode(mode, &key, iv, data.clone()).unwrap(), once);
    }
    let cfb = encrypt_with_mode(Sm4Mode::Cfb, &key, iv, data.clone()).unwrap();
    assert_ne!(encrypt_with_mode(Sm4Mode::Cfb, &key, iv, cfb).unwrap(), data);
}

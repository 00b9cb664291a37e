use crypto_wasm::crypto::{find_sole_colon, CryptoWasm, EncryptorType};
use crypto_wasm::error::CryptoError;

const KEY: &str = "thisisasecretkey";
const IV: [u8; 16] = [0, 1, 2, 3, 4, 5, 6, 7, 8, 9, 10, 11, 12, 13, 14, 15];

fn build(key: &str, kind: EncryptorType) -> CryptoWasm {
    CryptoWasm::new(key.to_string(), kind).expect("valid key material")
}

fn all_five() -> Vec<CryptoWasm> {
    vec![
        build(KEY, EncryptorType::Aes128),
        build("", EncryptorType::Base64),
        build("", EncryptorType::Rot13),
        build("secret", EncryptorType::Xor),
        build("7", EncryptorType::Caesar),
    ]
}

#[test]
fn round_trip_holds_for_all_five_algorithms() {
    let texts = ["testToken", "Hello, World!", "a", "h\u{e9}llo w\u{f6}rld \u{1f600}", "x:y:z"];
    for crypto in all_five() {
        for text in texts {
            let encrypted = crypto.cypher(text);
            assert_eq!(crypto.decypher(&encrypted), Ok(text.to_string()));
        }
    }
}

#[test]
fn empty_text_round_trips_except_under_aes() {
    for (i, crypto) in all_five().into_iter().enumerate() {
        let encrypted = crypto.cypher("");
        if i == 0 {
            assert_eq!(crypto.decypher(&encrypted), Err(CryptoError::DecryptionFailure));
        } else {
            assert_eq!(crypto.decypher(&encrypted), Ok(String::new()));
        }
    }
}

#[test]
fn aes_construction_needs_sixteen_bytes() {
    let short = CryptoWasm::new("fifteen_bytes!!".to_string(), EncryptorType::Aes128);
    assert_eq!(short.err(), Some(CryptoError::InvalidKeyLength));
    let long = CryptoWasm::new("seventeen_bytes!!".to_string(), EncryptorType::Aes128);
    assert_eq!(long.err(), Some(CryptoError::InvalidKeyLength));
    let none = CryptoWasm::new(String::new(), EncryptorType::Aes128);
    assert_eq!(none.err(), Some(CryptoError::InvalidKeyLength));
    // Sixteen characters that take more than sixteen bytes.
    let wide = CryptoWasm::new("\u{e9}234567890123456".to_string(), EncryptorType::Aes128);
    assert_eq!(wide.err(), Some(CryptoError::InvalidKeyLength));
    assert!(CryptoWasm::new(KEY.to_string(), EncryptorType::Aes128).is_ok());
}

#[test]
fn xor_construction_needs_a_key() {
    let none = CryptoWasm::new(String::new(), EncryptorType::Xor);
    assert_eq!(none.err(), Some(CryptoError::EmptyKey));
    assert!(CryptoWasm::new("k".to_string(), EncryptorType::Xor).is_ok());
}

#[test]
fn keyless_algorithms_take_any_key() {
    assert!(CryptoWasm::new(String::new(), EncryptorType::Base64).is_ok());
    assert!(CryptoWasm::new("ignored".to_string(), EncryptorType::Rot13).is_ok());
    assert!(CryptoWasm::new(String::new(), EncryptorType::Caesar).is_ok());
}

#[test]
fn caesar_concrete_vectors() {
    let crypto = build("3", EncryptorType::Caesar);
    assert_eq!(crypto.cypher("abc"), "def");
    assert_eq!(crypto.decypher("def"), Ok("abc".to_string()));
    assert_eq!(crypto.cypher("xyz XYZ 123!"), "abc ABC 123!");
    assert_eq!(crypto.decypher("abc ABC 123!"), Ok("xyz XYZ 123!".to_string()));
}

#[test]
fn caesar_shift_comes_from_the_key() {
    assert_eq!(build("1", EncryptorType::Caesar).cypher("az"), "ba");
    assert_eq!(build("+1", EncryptorType::Caesar).cypher("az"), "ba");
    assert_eq!(build("25", EncryptorType::Caesar).cypher("az"), "zy");
    assert_eq!(build("26", EncryptorType::Caesar).cypher("az"), "az");
    assert_eq!(build("0", EncryptorType::Caesar).cypher("az"), "az");
    assert_eq!(build("29", EncryptorType::Caesar).cypher("abc"), "def");
    assert_eq!(build("255", EncryptorType::Caesar).cypher("a"), "v");
}

#[test]
fn caesar_shift_defaults_to_three() {
    for key in ["", "abc", "256", "-1", "1.5", " 4", "4 ", "+", "++4", "\u{664}"] {
        assert_eq!(build(key, EncryptorType::Caesar).cypher("abc"), "def", "key {:?}", key);
    }
}

#[test]
fn caesar_leaves_other_characters_alone() {
    let crypto = build("5", EncryptorType::Caesar);
    assert_eq!(crypto.cypher("\u{e9}t\u{e9} 2024 @[`{"), "\u{e9}y\u{e9} 2024 @[`{");
    assert_eq!(crypto.decypher("\u{e9}y\u{e9} 2024 @[`{"), Ok("\u{e9}t\u{e9} 2024 @[`{".to_string()));
}

#[test]
fn rot13_concrete_vectors() {
    let crypto = build("", EncryptorType::Rot13);
    assert_eq!(crypto.cypher("Hello, World!"), "Uryyb, Jbeyq!");
    assert_eq!(crypto.decypher("Uryyb, Jbeyq!"), Ok("Hello, World!".to_string()));
    assert_eq!(crypto.cypher("AMNZ amnz"), "NZAM nzam");
    assert_eq!(crypto.cypher("h\u{e9}llo"), "u\u{e9}yyb");
}

#[test]
fn rot13_applied_twice_is_the_identity() {
    let crypto = build("", EncryptorType::Rot13);
    let text = "The Quick Brown Fox, 42 times \u{2713}";
    assert_eq!(crypto.cypher(&crypto.cypher(text)), text);
}

#[test]
fn base64_concrete_vectors() {
    let crypto = build("", EncryptorType::Base64);
    assert_eq!(crypto.cypher("testToken"), "dGVzdFRva2Vu");
    assert_eq!(crypto.cypher("knownValue"), "a25vd25WYWx1ZQ==");
    assert_eq!(crypto.cypher("h\u{e9}llo"), "aMOpbGxv");
    assert_eq!(crypto.cypher(""), "");
    assert_eq!(crypto.decypher("dGVzdFRva2Vu"), Ok("testToken".to_string()));
    assert_eq!(crypto.decypher("a25vd25WYWx1ZQ=="), Ok("knownValue".to_string()));
}

#[test]
fn base64_malformed_input_reads_as_empty_text() {
    let crypto = build("", EncryptorType::Base64);
    assert_eq!(crypto.decypher("not base64!"), Ok(String::new()));
    assert_eq!(crypto.decypher("a"), Ok(String::new()));
}

#[test]
fn base64_of_bytes_that_are_no_text_fails() {
    let crypto = build("", EncryptorType::Base64);
    assert_eq!(crypto.decypher("/w=="), Err(CryptoError::DecryptionFailure));
}

#[test]
fn xor_concrete_vectors() {
    let crypto = build("key", EncryptorType::Xor);
    assert_eq!(crypto.cypher("hello"), "030015070a");
    assert_eq!(crypto.decypher("030015070a"), Ok("hello".to_string()));
    assert_eq!(crypto.decypher("030015070A"), Ok("hello".to_string()));
    assert_eq!(crypto.cypher(""), "");
}

#[test]
fn xor_refuses_what_is_not_hexadecimal() {
    let crypto = build("key", EncryptorType::Xor);
    assert_eq!(crypto.decypher("03001"), Err(CryptoError::InvalidHexEncoding));
    assert_eq!(crypto.decypher("zz"), Err(CryptoError::InvalidHexEncoding));
    assert_eq!(crypto.decypher("03 0"), Err(CryptoError::InvalidHexEncoding));
    assert_eq!(crypto.decypher("\u{e9}"), Err(CryptoError::InvalidHexEncoding));
}

#[test]
fn xor_of_bytes_that_are_no_text_fails() {
    // 0x9e ^ 'a' is 0xff, which no text holds.
    let crypto = build("a", EncryptorType::Xor);
    assert_eq!(crypto.decypher("9e"), Err(CryptoError::DecryptionFailure));
}

#[test]
fn aes_known_answer() {
    let crypto = build(KEY, EncryptorType::Aes128);
    assert_eq!(
        crypto.cypher_with_iv("testToken", &IV),
        "000102030405060708090a0b0c0d0e0f:eea38b5a47ebb9892022a5ce37c2de31"
    );
    assert_eq!(
        crypto.cypher_with_iv("", &IV),
        "000102030405060708090a0b0c0d0e0f:4efe6324891e68598d382b1179a41424"
    );
    assert_eq!(
        crypto.decypher("000102030405060708090a0b0c0d0e0f:eea38b5a47ebb9892022a5ce37c2de31"),
        Ok("testToken".to_string())
    );
    assert_eq!(
        crypto.decypher("000102030405060708090A0B0C0D0E0F:EEA38B5A47EBB9892022A5CE37C2DE31"),
        Ok("testToken".to_string())
    );
}

#[test]
fn aes_output_has_the_written_form() {
    let crypto = build(KEY, EncryptorType::Aes128);
    let encrypted = crypto.cypher("sixteen byte msg");
    let parts: Vec<&str> = encrypted.split(':').collect();
    assert_eq!(parts.len(), 2);
    assert_eq!(parts[0].len(), 32);
    // Sixteen bytes of text and one block of padding.
    assert_eq!(parts[1].len(), 64);
    for part in parts {
        assert!(part.bytes().all(|b| b.is_ascii_digit() || (b'a'..=b'f').contains(&b)));
    }
}

#[test]
fn aes_encrypts_differently_each_time() {
    let crypto = build(KEY, EncryptorType::Aes128);
    let first = crypto.cypher("secureData");
    let second = crypto.cypher("secureData");
    assert_ne!(first, second);
    assert_eq!(crypto.decypher(&first), Ok("secureData".to_string()));
    assert_eq!(crypto.decypher(&second), Ok("secureData".to_string()));
}

#[test]
fn aes_ciphertexts_differ_with_the_iv() {
    let crypto = build(KEY, EncryptorType::Aes128);
    let other_iv = [1u8; 16];
    let first = crypto.cypher_with_iv("secureData", &IV);
    let second = crypto.cypher_with_iv("secureData", &other_iv);
    assert_ne!(first, second);
    assert_eq!(crypto.decypher(&first), Ok("secureData".to_string()));
    assert_eq!(crypto.decypher(&second), Ok("secureData".to_string()));
}

#[test]
fn aes_wrong_key_is_a_decryption_failure() {
    let crypto1 = build(KEY, EncryptorType::Aes128);
    let crypto2 = build("wrongsecretkey!!", EncryptorType::Aes128);
    let encrypted = crypto1.cypher_with_iv("secureData", &IV);
    assert_eq!(crypto2.decypher(&encrypted), Err(CryptoError::DecryptionFailure));
}

#[test]
fn aes_input_without_one_colon_is_an_invalid_format() {
    let crypto = build(KEY, EncryptorType::Aes128);
    assert_eq!(crypto.decypher("invalidFormatWithoutColon"), Err(CryptoError::InvalidFormat));
    assert_eq!(crypto.decypher(""), Err(CryptoError::InvalidFormat));
    assert_eq!(crypto.decypher("00:11:22"), Err(CryptoError::InvalidFormat));
    assert_eq!(crypto.decypher("::"), Err(CryptoError::InvalidFormat));
}

#[test]
fn aes_parts_must_be_hexadecimal() {
    let crypto = build(KEY, EncryptorType::Aes128);
    assert_eq!(
        crypto.decypher("zz0102030405060708090a0b0c0d0e0f:eea38b5a47ebb9892022a5ce37c2de31"),
        Err(CryptoError::InvalidHexEncoding)
    );
    assert_eq!(
        crypto.decypher("000102030405060708090a0b0c0d0e0f:eea38b5a47ebb9892022a5ce37c2de3"),
        Err(CryptoError::InvalidHexEncoding)
    );
    assert_eq!(
        crypto.decypher("000102030405060708090a0b0c0d0e0f:not hex"),
        Err(CryptoError::InvalidHexEncoding)
    );
    assert_eq!(crypto.decypher("0:00"), Err(CryptoError::InvalidHexEncoding));
}

#[test]
fn aes_damaged_input_is_a_decryption_failure() {
    let crypto = build(KEY, EncryptorType::Aes128);
    // No ciphertext at all.
    assert_eq!(
        crypto.decypher("000102030405060708090a0b0c0d0e0f:"),
        Err(CryptoError::DecryptionFailure)
    );
    // Half a block.
    assert_eq!(
        crypto.decypher("000102030405060708090a0b0c0d0e0f:eea38b5a47ebb989"),
        Err(CryptoError::DecryptionFailure)
    );
    // An initialization vector that is too short, or missing.
    assert_eq!(
        crypto.decypher("0001:eea38b5a47ebb9892022a5ce37c2de31"),
        Err(CryptoError::DecryptionFailure)
    );
    assert_eq!(crypto.decypher(":"), Err(CryptoError::DecryptionFailure));
    // The last byte changed, and with it the padding.
    assert_eq!(
        crypto.decypher("000102030405060708090a0b0c0d0e0f:eea38b5a47ebb9892022a5ce37c2de30"),
        Err(CryptoError::DecryptionFailure)
    );
}

#[test]
fn other_algorithms_ignore_the_iv() {
    let other_iv = [9u8; 16];
    for crypto in all_five().into_iter().skip(1) {
        assert_eq!(
            crypto.cypher_with_iv("testToken", &IV),
            crypto.cypher_with_iv("testToken", &other_iv)
        );
        assert_eq!(crypto.cypher_with_iv("testToken", &IV), crypto.cypher("testToken"));
    }
}

#[test]
fn sole_colon_is_found() {
    assert_eq!(find_sole_colon(b"ab:cd"), Some(2));
    assert_eq!(find_sole_colon(b":"), Some(0));
    assert_eq!(find_sole_colon(b"abcd:"), Some(4));
    assert_eq!(find_sole_colon(b""), None);
    assert_eq!(find_sole_colon(b"abcd"), None);
    assert_eq!(find_sole_colon(b"a:b:c"), None);
}

#[test]
fn every_error_has_its_message() {
    assert_eq!(
        CryptoError::InvalidFormat.message(),
        "Invalid format: expected IV:encrypted_data"
    );
    assert_eq!(CryptoError::InvalidHexEncoding.message(), "Invalid hex format");
    assert_eq!(
        CryptoError::InvalidKeyLength.message(),
        "Secret key must be exactly 16 bytes long"
    );
    assert_eq!(CryptoError::EmptyKey.message(), "Cipher requires a non-empty key");
    assert_eq!(
        CryptoError::DecryptionFailure.message(),
        "Decryption failed: invalid key or corrupted data"
    );
}

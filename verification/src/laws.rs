//! What holds of the ciphers whatever the key and the text.

use vstd::prelude::*;
use vstd::utf8::*;
use crate::aes_cbc::{aes128_plaintext, AES_BLOCK_LEN};
use crate::caesar::lemma_caesar_round_trip;
use crate::crypto::{
    aes_token, aes_token_plaintext, has_sole_colon, sole_colon_at, text_result, CipherModel,
    COLON,
};
use crate::error::CryptoError;
use crate::hex_codec::{
    hex_codes, hex_text, lemma_hex_codes_are_digits, lemma_hex_round_trip,
    lemma_hex_text_injective,
};
use crate::rot13::lemma_rot13_involution;
use crate::text::{
    lemma_rotate_text_full_turns, lemma_rotate_text_twice, lemma_text_bytes_empty,
    lemma_text_bytes_round_trip,
};
use crate::xor::lemma_xor_involution;

verus! {

/// ROT13, XOR and Caesar undo on bytes what they did, whatever the bytes.
/// (AES and Base64 do so too, on the word of the crates that implement
/// them: see `Encryptor::encrypt`.)
pub proof fn lemma_transform_round_trip(cipher: CipherModel, data: Seq<u8>, iv: Seq<u8>)
    requires
        cipher.wf(),
        cipher is Rot13 || cipher is Xor || cipher is Caesar,
    ensures
        cipher.decrypted(cipher.encrypted(data, iv), iv) == data,
{
    match cipher {
        CipherModel::Rot13 => lemma_rot13_involution(data),
        CipherModel::Xor { key } => lemma_xor_involution(key, data),
        CipherModel::Caesar { shift } => lemma_caesar_round_trip(data, shift),
        _ => {},
    }
}

/// ROT13 and XOR are their own inverses: the transform applied twice gives
/// the input back.
pub proof fn lemma_involution(cipher: CipherModel, data: Seq<u8>, iv: Seq<u8>)
    requires
        cipher.wf(),
        cipher is Rot13 || cipher is Xor,
    ensures
        cipher.decrypted(data, iv) == cipher.encrypted(data, iv),
        cipher.encrypted(cipher.encrypted(data, iv), iv) == data,
{
    lemma_transform_round_trip(cipher, data, iv);
}

/// The bytes of a written AES ciphertext: the digits of the initialization
/// vector, one colon, the digits of the ciphertext.
pub proof fn lemma_aes_token_bytes(iv: Seq<u8>, ciphertext: Seq<u8>)
    ensures
        encode_utf8(aes_token(iv, ciphertext)) == hex_codes(iv) + seq![COLON] + hex_codes(
            ciphertext,
        ),
        sole_colon_at(encode_utf8(aes_token(iv, ciphertext)), 2 * iv.len() as int),
{
    let token = aes_token(iv, ciphertext);
    let codes = hex_codes(iv) + seq![COLON] + hex_codes(ciphertext);
    let n: int = 2 * iv.len() as int;
    assert(token.len() == codes.len());
    assert forall|i: int| 0 <= i < token.len() implies token[i] == (#[trigger] codes[i]) as char
        && codes[i] < 0x80 && (codes[i] == COLON <==> i == n) by {
        if i < n {
            lemma_hex_codes_are_digits(iv, i);
            assert(token[i] == hex_text(iv)[i]);
        } else if i == n {
            assert(token[i] == ':');
        } else {
            lemma_hex_codes_are_digits(ciphertext, i - n - 1);
            assert(token[i] == hex_text(ciphertext)[i - n - 1]);
        }
    }
    assert forall|i: int| 0 <= i < token.len() implies '\0' <= #[trigger] token[i] <= '\u{7f}' by {
        assert(token[i] == codes[i] as char);
    }
    is_ascii_chars_encode_utf8(token);
    assert forall|i: int| 0 <= i < token.len() implies encode_utf8(token)[i] == codes[i] by {
        assert(token[i] == codes[i] as char);
        assert(token[i] as u8 == codes[i]);
    }
    assert(encode_utf8(token) =~= codes);
    assert forall|j: int| 0 <= j < codes.len() implies ((#[trigger] codes[j]) == COLON <==> j
        == n) by {}
}

/// Reading a written AES ciphertext finds the initialization vector and the
/// ciphertext that were written, and decrypts with them.
pub proof fn lemma_aes_token_read(key: Seq<u8>, iv: Seq<u8>, ciphertext: Seq<u8>)
    ensures
        aes_token_plaintext(key, encode_utf8(aes_token(iv, ciphertext))) == {
            let plaintext = aes128_plaintext(key, iv, ciphertext);
            if plaintext.len() == 0 {
                Err::<Seq<char>, CryptoError>(CryptoError::DecryptionFailure)
            } else {
                text_result(plaintext)
            }
        },
{
    let bytes = encode_utf8(aes_token(iv, ciphertext));
    let n: int = 2 * iv.len() as int;
    lemma_aes_token_bytes(iv, ciphertext);
    assert(has_sole_colon(bytes));
    let at = choose|at: int| sole_colon_at(bytes, at);
    assert(at == n) by {
        assert(bytes[at] == COLON);
        assert(bytes[n] == COLON);
    }
    assert(bytes.subrange(0, at) =~= hex_codes(iv));
    assert(bytes.subrange(at + 1, bytes.len() as int) =~= hex_codes(ciphertext));
    lemma_hex_round_trip(iv);
    lemma_hex_round_trip(ciphertext);
}

/// Decrypting what was encrypted gives the text back, for every cipher,
/// key and text, given that the cipher undoes on bytes what it did.
///
/// ROT13, XOR and Caesar do so by `lemma_transform_round_trip`; for AES and
/// Base64 it is what `Encryptor::encrypt` says of each of its results. The
/// one exception is the empty text under AES: there the facade takes the
/// empty plaintext for a failure.
pub proof fn lemma_round_trip(cipher: CipherModel, text: Seq<char>, iv: Seq<u8>)
    requires
        cipher.wf(),
        iv.len() == AES_BLOCK_LEN,
        cipher is Aes128 || cipher is Base64 ==> cipher.decrypted(
            cipher.encrypted(encode_utf8(text), iv),
            iv,
        ) == encode_utf8(text),
    ensures
        !(cipher is Aes128 && text.len() == 0) ==> cipher.decypher_text(
            cipher.cypher_text(text, iv),
        ) == Ok::<Seq<char>, CryptoError>(text),
        cipher is Aes128 && text.len() == 0 ==> cipher.decypher_text(cipher.cypher_text(text, iv))
            == Err::<Seq<char>, CryptoError>(CryptoError::DecryptionFailure),
{
    let bytes = encode_utf8(text);
    lemma_text_bytes_round_trip(text);
    lemma_text_bytes_empty(text);
    match cipher {
        CipherModel::Aes128 { key } => {
            lemma_aes_token_read(key, iv, cipher.encrypted(bytes, iv));
        },
        CipherModel::Base64 => {},
        CipherModel::Rot13 => {
            lemma_rotate_text_twice(text, 13, 13);
            lemma_rotate_text_full_turns(text, 26);
        },
        CipherModel::Xor { key } => {
            lemma_hex_round_trip(cipher.encrypted(bytes, iv));
            lemma_xor_involution(key, bytes);
        },
        CipherModel::Caesar { shift } => {
            lemma_rotate_text_twice(text, shift, -shift);
            lemma_rotate_text_full_turns(text, 0);
        },
    }
}

/// Under AES, two initialization vectors never give the same ciphertext
/// text, whatever the key and the plaintext.
pub proof fn lemma_aes_iv_shows(cipher: CipherModel, text: Seq<char>, iv1: Seq<u8>, iv2: Seq<u8>)
    requires
        cipher is Aes128,
        iv1.len() == AES_BLOCK_LEN,
        iv2.len() == AES_BLOCK_LEN,
        iv1 != iv2,
    ensures
        cipher.cypher_text(text, iv1) != cipher.cypher_text(text, iv2),
{
    let key = cipher->Aes128_key;
    let t1 = cipher.cypher_text(text, iv1);
    let t2 = cipher.cypher_text(text, iv2);
    if t1 == t2 {
        assert forall|i: int| 0 <= i < 2 * AES_BLOCK_LEN implies hex_text(iv1)[i] == hex_text(
            iv2,
        )[i] by {
            assert(t1[i] == hex_text(iv1)[i]);
            assert(t2[i] == hex_text(iv2)[i]);
        }
        assert(hex_text(iv1) =~= hex_text(iv2));
        lemma_hex_text_injective(iv1, iv2);
    }
}

} // verus!

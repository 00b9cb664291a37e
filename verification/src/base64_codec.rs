//! Base64 in the standard alphabet with padding, as the `base64` crate
//! writes and reads it.

use base64::DecodeError;
use vstd::prelude::*;
use vstd::string::*;
use vstd::utf8::*;
use crate::crypto::{Encryptor, EncryptorType};

verus! {

#[verifier::external_type_specification]
#[verifier::external_body]
pub struct ExDecodeError(DecodeError);

/// The ASCII code of `=`, which fills the last group of four characters.
pub const PAD: u8 = 0x3d;

/// The character of the standard alphabet for the six-bit value `v`: the
/// capital letters, the small letters, the digits, `+` and `/`.
pub open spec fn base64_symbol(v: int) -> char {
    if v < 26 {
        ((0x41 + v) as u8) as char
    } else if v < 52 {
        ((0x61 + v - 26) as u8) as char
    } else if v < 62 {
        ((0x30 + v - 52) as u8) as char
    } else if v == 62 {
        '+'
    } else {
        '/'
    }
}

/// The Base64 form of `data`: four characters for every three bytes, six
/// bits to a character from the highest bit down, and a last group that is
/// filled with `=` where one or two bytes are left over.
pub open spec fn base64_text(data: Seq<u8>) -> Seq<char>
    decreases data.len(),
{
    if data.len() == 0 {
        Seq::empty()
    } else if data.len() == 1 {
        seq![
            base64_symbol(data[0] as int / 4),
            base64_symbol(data[0] as int % 4 * 16),
            PAD as char,
            PAD as char,
        ]
    } else if data.len() == 2 {
        seq![
            base64_symbol(data[0] as int / 4),
            base64_symbol(data[0] as int % 4 * 16 + data[1] as int / 16),
            base64_symbol(data[1] as int % 16 * 4),
            PAD as char,
        ]
    } else {
        seq![
            base64_symbol(data[0] as int / 4),
            base64_symbol(data[0] as int % 4 * 16 + data[1] as int / 16),
            base64_symbol(data[1] as int % 16 * 4 + data[2] as int / 64),
            base64_symbol(data[2] as int % 64),
        ] + base64_text(data.skip(3))
    }
}

/// The bytes that `base64::decode` finds in `text`, or `None` where it
/// refuses `text`.
pub uninterp spec fn base64_decoded(text: Seq<u8>) -> Option<Seq<u8>>;

/// Calls `base64::encode`, which writes `data` in the standard alphabet
/// with padding. `base64::decode` reads `data` out of the result again. The
/// one panic in `base64::encode` needs a buffer size beyond `usize`, which
/// no slice in memory asks for.
#[verifier::external_body]
pub(crate) fn base64_encode(data: &[u8]) -> (out: String)
    ensures
        out@ == base64_text(data@),
        base64_decoded(encode_utf8(out@)) == Some(data@),
{
    base64::encode(data)
}

/// Calls `base64::decode`. The result is a function of `text`.
#[verifier::external_body]
pub(crate) fn base64_decode(text: &[u8]) -> (out: Result<Vec<u8>, DecodeError>)
    ensures
        match out {
            Ok(data) => base64_decoded(text@) == Some(data@),
            Err(_) => base64_decoded(text@) is None,
        },
{
    base64::decode(text)
}

/// What decoding gives as bytes: the data, or nothing at all where `text`
/// is refused.
pub open spec fn base64_plain(text: Seq<u8>) -> Seq<u8> {
    match base64_decoded(text) {
        Some(data) => data,
        None => Seq::empty(),
    }
}

/// The Base64 coding. It has no key.
#[derive(Clone, Copy, Debug)]
pub struct Base64Encryptor;

impl Encryptor for Base64Encryptor {
    open spec fn accepts_iv(&self, iv: Seq<u8>) -> bool {
        true
    }

    open spec fn encrypted(&self, data: Seq<u8>, iv: Seq<u8>) -> Seq<u8> {
        encode_utf8(base64_text(data))
    }

    open spec fn decrypted(&self, data: Seq<u8>, iv: Seq<u8>) -> Seq<u8> {
        base64_plain(data)
    }

    open spec fn kind(&self) -> EncryptorType {
        EncryptorType::Base64
    }

    fn encrypt(&self, data: &[u8], _iv: &[u8]) -> (out: Vec<u8>) {
        base64_encode(data).as_str().as_bytes_vec()
    }

    fn decrypt(&self, encrypted_data: &[u8], _iv: &[u8]) -> (out: Vec<u8>) {
        match base64_decode(encrypted_data) {
            Ok(data) => data,
            Err(_) => Vec::new(),
        }
    }

    fn encryptor_type(&self) -> (kind: EncryptorType) {
        EncryptorType::Base64
    }
}

} // verus!

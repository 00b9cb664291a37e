//! The shared contract of the ciphers, and the facade that picks one of them
//! and turns text into ciphertext text and back.

use vstd::prelude::*;
use vstd::slice::slice_subrange;
use vstd::string::*;
use vstd::utf8::*;
use crate::aes_cbc::{
    aes128_cbc_encrypted, aes128_plaintext, random_iv, Aes128Encryptor, AES_BLOCK_LEN,
};
use crate::base64_codec::{base64_plain, base64_text, Base64Encryptor};
use crate::caesar::{parse_u8, shift_of_key, CaesarEncryptor, DEFAULT_SHIFT};
use crate::error::CryptoError;
use crate::hex_codec::{hex_decode, hex_decoded, hex_encode, hex_text};
use crate::laws::lemma_round_trip;
use crate::letters::rotate_bytes;
use crate::rot13::Rot13Encryptor;
use crate::text::{
    lemma_rotated_bytes_are_text, lemma_text_bytes_round_trip, rotate_text, text_from_bytes,
    text_of,
};
use crate::xor::{xor_bytes, XorEncryptor};

verus! {

/// The five algorithms.
#[derive(Clone, Copy, Debug, PartialEq, Eq, Structural)]
pub enum EncryptorType {
    Aes128,
    Base64,
    Rot13,
    Xor,
    Caesar,
}

/// What every cipher offers: a transform on bytes, its inverse, and its name.
///
/// The initialization vector matters to AES alone; the other ciphers take
/// any and ignore it.
pub trait Encryptor {
    /// The initialization vectors that `encrypt` works with.
    spec fn accepts_iv(&self, iv: Seq<u8>) -> bool;

    /// The ciphertext of `data`.
    spec fn encrypted(&self, data: Seq<u8>, iv: Seq<u8>) -> Seq<u8>;

    /// The plaintext of `data`; empty where `data` is no ciphertext of this cipher.
    spec fn decrypted(&self, data: Seq<u8>, iv: Seq<u8>) -> Seq<u8>;

    /// Which of the five algorithms this is.
    spec fn kind(&self) -> EncryptorType;

    /// Encrypts `data`. What comes out decrypts to `data` again.
    fn encrypt(&self, data: &[u8], iv: &[u8]) -> (out: Vec<u8>)
        requires
            self.accepts_iv(iv@),
        ensures
            out@ == self.encrypted(data@, iv@),
            self.decrypted(out@, iv@) == data@,
    ;

    /// Decrypts `encrypted_data`.
    fn decrypt(&self, encrypted_data: &[u8], iv: &[u8]) -> (out: Vec<u8>)
        ensures
            out@ == self.decrypted(encrypted_data@, iv@),
    ;

    /// Names the algorithm.
    fn encryptor_type(&self) -> (kind: EncryptorType)
        ensures
            kind == self.kind(),
    ;
}

/// The ASCII code of `:`, which stands between the two parts of an AES ciphertext.
pub const COLON: u8 = 0x3a;

/// A cipher as a value of mathematics: the algorithm and its key material.
pub ghost enum CipherModel {
    Aes128 { key: Seq<u8> },
    Base64,
    Rot13,
    Xor { key: Seq<u8> },
    Caesar { shift: int },
}

/// `at` is the place of a colon in `bytes`, and `bytes` holds no other.
pub open spec fn sole_colon_at(bytes: Seq<u8>, at: int) -> bool {
    &&& 0 <= at < bytes.len()
    &&& forall|j: int| 0 <= j < bytes.len() ==> ((#[trigger] bytes[j]) == COLON <==> j == at)
}

/// `bytes` holds exactly one colon.
pub open spec fn has_sole_colon(bytes: Seq<u8>) -> bool {
    exists|at: int| sole_colon_at(bytes, at)
}

/// The text that bytes give when read back, as the result of decrypting.
pub open spec fn text_result(bytes: Seq<u8>) -> Result<Seq<char>, CryptoError> {
    match text_of(bytes) {
        Some(text) => Ok(text),
        None => Err(CryptoError::DecryptionFailure),
    }
}

/// The written form of an AES ciphertext: the initialization vector and the
/// ciphertext, each in hexadecimal, with a colon between them.
pub open spec fn aes_token(iv: Seq<u8>, ciphertext: Seq<u8>) -> Seq<char> {
    hex_text(iv) + seq![':'] + hex_text(ciphertext)
}

/// What reading and decrypting the AES ciphertext `input` gives under `key`.
pub open spec fn aes_token_plaintext(key: Seq<u8>, input: Seq<u8>) -> Result<
    Seq<char>,
    CryptoError,
> {
    if !has_sole_colon(input) {
        Err(CryptoError::InvalidFormat)
    } else {
        let at = choose|at: int| sole_colon_at(input, at);
        match (
            hex_decoded(input.subrange(0, at)),
            hex_decoded(input.subrange(at + 1, input.len() as int)),
        ) {
            (Some(iv), Some(ciphertext)) => {
                let plaintext = aes128_plaintext(key, iv, ciphertext);
                if plaintext.len() == 0 {
                    Err(CryptoError::DecryptionFailure)
                } else {
                    text_result(plaintext)
                }
            },
            _ => Err(CryptoError::InvalidHexEncoding),
        }
    }
}

impl CipherModel {
    /// The key material fits the algorithm.
    pub open spec fn wf(self) -> bool {
        match self {
            CipherModel::Aes128 { key } => key.len() == AES_BLOCK_LEN,
            CipherModel::Xor { key } => key.len() > 0,
            CipherModel::Caesar { shift } => 0 <= shift < 26,
            _ => true,
        }
    }

    /// The cipher that is built for `kind` from the key string `key`, or
    /// the reason why none is.
    pub open spec fn from_key(key: Seq<char>, kind: EncryptorType) -> Result<
        CipherModel,
        CryptoError,
    > {
        let bytes = encode_utf8(key);
        match kind {
            EncryptorType::Aes128 => if bytes.len() == AES_BLOCK_LEN {
                Ok(CipherModel::Aes128 { key: bytes })
            } else {
                Err(CryptoError::InvalidKeyLength)
            },
            EncryptorType::Base64 => Ok(CipherModel::Base64),
            EncryptorType::Rot13 => Ok(CipherModel::Rot13),
            EncryptorType::Xor => if bytes.len() > 0 {
                Ok(CipherModel::Xor { key: bytes })
            } else {
                Err(CryptoError::EmptyKey)
            },
            EncryptorType::Caesar => Ok(CipherModel::Caesar { shift: shift_of_key(key) }),
        }
    }

    /// Which of the five algorithms this is.
    pub open spec fn kind(self) -> EncryptorType {
        match self {
            CipherModel::Aes128 { .. } => EncryptorType::Aes128,
            CipherModel::Base64 => EncryptorType::Base64,
            CipherModel::Rot13 => EncryptorType::Rot13,
            CipherModel::Xor { .. } => EncryptorType::Xor,
            CipherModel::Caesar { .. } => EncryptorType::Caesar,
        }
    }

    /// The initialization vectors that encrypting works with.
    pub open spec fn accepts_iv(self, iv: Seq<u8>) -> bool {
        self is Aes128 ==> iv.len() == AES_BLOCK_LEN
    }

    /// The ciphertext bytes of the plaintext bytes `data`.
    pub open spec fn encrypted(self, data: Seq<u8>, iv: Seq<u8>) -> Seq<u8> {
        match self {
            CipherModel::Aes128 { key } => aes128_cbc_encrypted(key, iv, data),
            CipherModel::Base64 => encode_utf8(base64_text(data)),
            CipherModel::Rot13 => rotate_bytes(data, 13),
            CipherModel::Xor { key } => xor_bytes(key, data),
            CipherModel::Caesar { shift } => rotate_bytes(data, shift),
        }
    }

    /// The plaintext bytes of the ciphertext bytes `data`; none at all where
    /// AES or Base64 refuses `data`.
    pub open spec fn decrypted(self, data: Seq<u8>, iv: Seq<u8>) -> Seq<u8> {
        match self {
            CipherModel::Aes128 { key } => aes128_plaintext(key, iv, data),
            CipherModel::Base64 => base64_plain(data),
            CipherModel::Rot13 => rotate_bytes(data, 13),
            CipherModel::Xor { key } => xor_bytes(key, data),
            CipherModel::Caesar { shift } => rotate_bytes(data, -shift),
        }
    }

    /// The ciphertext of the text `input`, as text.
    ///
    /// AES and XOR give bytes that are no text and are written in
    /// hexadecimal, AES with the initialization vector `iv` in front. The
    /// other three give text as it is, and do not look at `iv`.
    pub open spec fn cypher_text(self, input: Seq<char>, iv: Seq<u8>) -> Seq<char> {
        match self {
            CipherModel::Aes128 { key } => aes_token(
                iv,
                aes128_cbc_encrypted(key, iv, encode_utf8(input)),
            ),
            CipherModel::Base64 => base64_text(encode_utf8(input)),
            CipherModel::Rot13 => rotate_text(input, 13),
            CipherModel::Xor { key } => hex_text(xor_bytes(key, encode_utf8(input))),
            CipherModel::Caesar { shift } => rotate_text(input, shift),
        }
    }

    /// The plaintext of the ciphertext `input`, or the reason why there is none.
    ///
    /// ROT13 and Caesar rotate any text back. XOR wants hexadecimal, and
    /// AES two hexadecimal parts with one colon between them, the first of
    /// them an initialization vector of 16 bytes. Whatever bytes come out
    /// must be text, and under AES not empty. Base64 input that is refused
    /// counts as the empty text.
    pub open spec fn decypher_text(self, input: Seq<char>) -> Result<Seq<char>, CryptoError> {
        match self {
            CipherModel::Aes128 { key } => aes_token_plaintext(key, encode_utf8(input)),
            CipherModel::Base64 => text_result(base64_plain(encode_utf8(input))),
            CipherModel::Rot13 => Ok(rotate_text(input, 13)),
            CipherModel::Xor { key } => match hex_decoded(encode_utf8(input)) {
                Some(ciphertext) => text_result(xor_bytes(key, ciphertext)),
                None => Err(CryptoError::InvalidHexEncoding),
            },
            CipherModel::Caesar { shift } => Ok(rotate_text(input, -shift)),
        }
    }
}

/// One of the five ciphers with its key material.
pub enum Cipher {
    Aes128(Aes128Encryptor),
    Base64(Base64Encryptor),
    Rot13(Rot13Encryptor),
    Xor(XorEncryptor),
    Caesar(CaesarEncryptor),
}

impl View for Cipher {
    type V = CipherModel;

    open spec fn view(&self) -> CipherModel {
        match self {
            Cipher::Aes128(cipher) => CipherModel::Aes128 { key: cipher@ },
            Cipher::Base64(_) => CipherModel::Base64,
            Cipher::Rot13(_) => CipherModel::Rot13,
            Cipher::Xor(cipher) => CipherModel::Xor { key: cipher@ },
            Cipher::Caesar(cipher) => CipherModel::Caesar { shift: cipher@ },
        }
    }
}

impl Encryptor for Cipher {
    open spec fn accepts_iv(&self, iv: Seq<u8>) -> bool {
        self@.accepts_iv(iv)
    }

    open spec fn encrypted(&self, data: Seq<u8>, iv: Seq<u8>) -> Seq<u8> {
        self@.encrypted(data, iv)
    }

    open spec fn decrypted(&self, data: Seq<u8>, iv: Seq<u8>) -> Seq<u8> {
        self@.decrypted(data, iv)
    }

    open spec fn kind(&self) -> EncryptorType {
        self@.kind()
    }

    fn encrypt(&self, data: &[u8], iv: &[u8]) -> (out: Vec<u8>) {
        match self {
            Cipher::Aes128(cipher) => cipher.encrypt(data, iv),
            Cipher::Base64(cipher) => cipher.encrypt(data, iv),
            Cipher::Rot13(cipher) => cipher.encrypt(data, iv),
            Cipher::Xor(cipher) => cipher.encrypt(data, iv),
            Cipher::Caesar(cipher) => cipher.encrypt(data, iv),
        }
    }

    fn decrypt(&self, encrypted_data: &[u8], iv: &[u8]) -> (out: Vec<u8>) {
        match self {
            Cipher::Aes128(cipher) => cipher.decrypt(encrypted_data, iv),
            Cipher::Base64(cipher) => cipher.decrypt(encrypted_data, iv),
            Cipher::Rot13(cipher) => cipher.decrypt(encrypted_data, iv),
            Cipher::Xor(cipher) => cipher.decrypt(encrypted_data, iv),
            Cipher::Caesar(cipher) => cipher.decrypt(encrypted_data, iv),
        }
    }

    fn encryptor_type(&self) -> (kind: EncryptorType)
        ensures
            self@.wf(),
    {
        match self {
            Cipher::Aes128(cipher) => cipher.encryptor_type(),
            Cipher::Base64(cipher) => cipher.encryptor_type(),
            Cipher::Rot13(cipher) => cipher.encryptor_type(),
            Cipher::Xor(cipher) => cipher.encryptor_type(),
            Cipher::Caesar(cipher) => cipher.encryptor_type(),
        }
    }
}

/// Looks for the colon of an AES ciphertext. There must be exactly one.
pub fn find_sole_colon(bytes: &[u8]) -> (out: Option<usize>)
    ensures
        match out {
            Some(at) => sole_colon_at(bytes@, at as int),
            None => !has_sole_colon(bytes@),
        },
{
    let mut found: Option<usize> = None;
    let mut i: usize = 0;
    while i < bytes.len()
        invariant
            i <= bytes.len(),
            match found {
                Some(at) => at < i && bytes@[at as int] == COLON && forall|j: int|
                    0 <= j < i && j != at ==> bytes@[j] != COLON,
                None => forall|j: int| 0 <= j < i ==> bytes@[j] != COLON,
            },
        decreases bytes.len() - i,
    {
        if bytes[i] == COLON {
            match found {
                Some(first) => {
                    assert forall|at: int| !sole_colon_at(bytes@, at) by {
                        if sole_colon_at(bytes@, at) {
                            assert(bytes@[first as int] == COLON);
                            assert(bytes@[i as int] == COLON);
                        }
                    }
                    return None;
                },
                None => {
                    found = Some(i);
                },
            }
        }
        i += 1;
    }
    proof {
        if found is None {
            assert forall|at: int| !sole_colon_at(bytes@, at) by {
                if sole_colon_at(bytes@, at) {
                    assert(bytes@[at] == COLON);
                }
            }
        }
    }
    found
}

/// The facade: one cipher, chosen when it is built, and the two operations
/// from text to text.
pub struct CryptoWasm {
    encryptor: Cipher,
}

impl View for CryptoWasm {
    type V = CipherModel;

    /// The cipher that the facade holds.
    closed spec fn view(&self) -> CipherModel {
        self.encryptor@
    }
}

impl CryptoWasm {
    /// Builds the cipher of `encryptor_type` with the key `secret_key`.
    ///
    /// AES takes a key of exactly 16 bytes and XOR any key but the empty
    /// one. Caesar reads the key as its shift and shifts by 3 where the key
    /// is no number. Base64 and ROT13 ignore the key.
    pub fn new(secret_key: String, encryptor_type: EncryptorType) -> (out: Result<
        CryptoWasm,
        CryptoError,
    >)
        ensures
            match out {
                Ok(crypto) => CipherModel::from_key(secret_key@, encryptor_type) == Ok::<
                    CipherModel,
                    CryptoError,
                >(crypto@) && crypto@.wf(),
                Err(e) => CipherModel::from_key(secret_key@, encryptor_type) == Err::<
                    CipherModel,
                    CryptoError,
                >(e),
            },
    {
        let key_bytes = secret_key.as_str().as_bytes();
        let encryptor = match encryptor_type {
            EncryptorType::Aes128 => match Aes128Encryptor::new(key_bytes) {
                Ok(cipher) => Cipher::Aes128(cipher),
                Err(e) => {
                    return Err(e);
                },
            },
            EncryptorType::Base64 => Cipher::Base64(Base64Encryptor),
            EncryptorType::Rot13 => Cipher::Rot13(Rot13Encryptor),
            EncryptorType::Xor => match XorEncryptor::new(key_bytes) {
                Ok(cipher) => Cipher::Xor(cipher),
                Err(e) => {
                    return Err(e);
                },
            },
            EncryptorType::Caesar => {
                let shift: u8 = match parse_u8(key_bytes) {
                    Some(n) => n,
                    None => DEFAULT_SHIFT,
                };
                Cipher::Caesar(CaesarEncryptor::new(shift))
            },
        };
        Ok(CryptoWasm { encryptor })
    }

    /// Encrypts `input` with the initialization vector `iv`, which only AES
    /// looks at. The result decrypts to `input` again, but for the empty
    /// text under AES, which decrypts to a failure.
    pub fn cypher_with_iv(&self, input: &str, iv: &[u8; 16]) -> (out: String)
        ensures
            self@.wf(),
            out@ == self@.cypher_text(input@, iv@),
            !(self@ is Aes128 && input@.len() == 0) ==> self@.decypher_text(out@) == Ok::<
                Seq<char>,
                CryptoError,
            >(input@),
            self@ is Aes128 && input@.len() == 0 ==> self@.decypher_text(out@) == Err::<
                Seq<char>,
                CryptoError,
            >(CryptoError::DecryptionFailure),
    {
        let kind = self.encryptor.encryptor_type();
        let encrypted = self.encryptor.encrypt(input.as_bytes(), iv.as_slice());
        proof {
            lemma_round_trip(self@, input@, iv@);
        }
        match kind {
            EncryptorType::Aes128 => {
                let mut out = hex_encode(iv.as_slice());
                out.append(":");
                out.append(hex_encode(encrypted.as_slice()).as_str());
                proof {
                    reveal_strlit(":");
                    assert(":"@ =~= seq![':']);
                    assert(out@ =~= self@.cypher_text(input@, iv@));
                }
                out
            },
            EncryptorType::Xor => hex_encode(encrypted.as_slice()),
            _ => {
                proof {
                    match self@ {
                        CipherModel::Rot13 => lemma_rotated_bytes_are_text(input@, 13),
                        CipherModel::Caesar { shift } => lemma_rotated_bytes_are_text(
                            input@,
                            shift,
                        ),
                        _ => lemma_text_bytes_round_trip(base64_text(encode_utf8(input@))),
                    }
                }
                text_from_bytes(encrypted).unwrap()
            },
        }
    }

    /// Encrypts `input`, under AES with an initialization vector drawn
    /// afresh. The result decrypts to `input` again, but for the empty
    /// text under AES, which decrypts to a failure.
    pub fn cypher(&self, input: &str) -> (out: String)
        ensures
            self@.wf(),
            exists|iv: Seq<u8>| iv.len() == AES_BLOCK_LEN && out@ == self@.cypher_text(input@, iv),
            !(self@ is Aes128 && input@.len() == 0) ==> self@.decypher_text(out@) == Ok::<
                Seq<char>,
                CryptoError,
            >(input@),
            self@ is Aes128 && input@.len() == 0 ==> self@.decypher_text(out@) == Err::<
                Seq<char>,
                CryptoError,
            >(CryptoError::DecryptionFailure),
    {
        let iv = random_iv();
        let out = self.cypher_with_iv(input, &iv);
        assert(iv@.len() == AES_BLOCK_LEN && out@ == self@.cypher_text(input@, iv@));
        out
    }

    /// Decrypts `encrypted_input`, as `CipherModel::decypher_text` describes.
    pub fn decypher(&self, encrypted_input: &str) -> (out: Result<String, CryptoError>)
        ensures
            self@.wf(),
            match out {
                Ok(text) => self@.decypher_text(encrypted_input@) == Ok::<Seq<char>, CryptoError>(
                    text@,
                ),
                Err(e) => self@.decypher_text(encrypted_input@) == Err::<Seq<char>, CryptoError>(
                    e,
                ),
            },
    {
        let bytes = encrypted_input.as_bytes();
        let no_iv: Vec<u8> = Vec::new();
        let decrypted = match self.encryptor.encryptor_type() {
            EncryptorType::Aes128 => {
                let at: usize = match find_sole_colon(bytes) {
                    Some(at) => at,
                    None => {
                        return Err(CryptoError::InvalidFormat);
                    },
                };
                proof {
                    let chosen = choose|at: int| sole_colon_at(bytes@, at);
                    assert(bytes@[chosen] == COLON);
                    assert(bytes@[at as int] == COLON);
                    assert(chosen == at);
                }
                let iv = match hex_decode(slice_subrange(bytes, 0, at)) {
                    Ok(iv) => iv,
                    Err(_) => {
                        return Err(CryptoError::InvalidHexEncoding);
                    },
                };
                let encrypted_bytes = match hex_decode(
                    slice_subrange(bytes, at + 1, bytes.len()),
                ) {
                    Ok(encrypted_bytes) => encrypted_bytes,
                    Err(_) => {
                        return Err(CryptoError::InvalidHexEncoding);
                    },
                };
                let decrypted_bytes = self.encryptor.decrypt(
                    encrypted_bytes.as_slice(),
                    iv.as_slice(),
                );
                if decrypted_bytes.len() == 0 {
                    return Err(CryptoError::DecryptionFailure);
                }
                decrypted_bytes
            },
            EncryptorType::Xor => {
                let encrypted_bytes = match hex_decode(bytes) {
                    Ok(encrypted_bytes) => encrypted_bytes,
                    Err(_) => {
                        return Err(CryptoError::InvalidHexEncoding);
                    },
                };
                self.encryptor.decrypt(encrypted_bytes.as_slice(), no_iv.as_slice())
            },
            _ => {
                proof {
                    match self@ {
                        CipherModel::Rot13 => lemma_rotated_bytes_are_text(encrypted_input@, 13),
                        CipherModel::Caesar { shift } => lemma_rotated_bytes_are_text(
                            encrypted_input@,
                            -shift,
                        ),
                        _ => {},
                    }
                }
                self.encryptor.decrypt(bytes, no_iv.as_slice())
            },
        };
        match text_from_bytes(decrypted) {
            Some(text) => Ok(text),
            None => Err(CryptoError::DecryptionFailure),
        }
    }
}

} // verus!

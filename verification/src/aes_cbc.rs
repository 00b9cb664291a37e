//! AES-128 in CBC mode with PKCS7 padding. The block cipher itself is the
//! `aes` crate's, the chaining and the padding are the `block-modes` crate's.

use aes::Aes128;
use block_modes::block_padding::Pkcs7;
use block_modes::{BlockMode, BlockModeError, Cbc};
use vstd::prelude::*;
use crate::crypto::{Encryptor, EncryptorType};
use crate::error::CryptoError;

verus! {

/// The number of bytes of an AES-128 key, and of one block and so of an
/// initialization vector.
pub const AES_BLOCK_LEN: usize = 16;

#[verifier::external_type_specification]
#[verifier::external_body]
pub struct ExBlockModeError(BlockModeError);

/// The ciphertext that `Cbc<Aes128, Pkcs7>` makes of `plaintext` under a key
/// and an initialization vector of 16 bytes each.
pub uninterp spec fn aes128_cbc_encrypted(key: Seq<u8>, iv: Seq<u8>, plaintext: Seq<u8>) -> Seq<u8>;

/// The plaintext that `Cbc<Aes128, Pkcs7>` finds in `ciphertext` under a key
/// and an initialization vector of 16 bytes each, or `None` where the
/// ciphertext is no whole number of blocks or the padding that comes out is
/// malformed.
pub uninterp spec fn aes128_cbc_decrypted(key: Seq<u8>, iv: Seq<u8>, ciphertext: Seq<u8>) -> Option<
    Seq<u8>,
>;

/// Calls `Cbc::<Aes128, Pkcs7>::new_from_slices` and then `encrypt_vec`.
/// The result is a function of key, initialization vector and plaintext;
/// decrypting it with the same key and vector gives the plaintext back,
/// since the block cipher is a permutation and the padding can be taken off
/// again.
#[verifier::external_body]
pub(crate) fn aes128_cbc_encrypt(key: &[u8; 16], iv: &[u8], data: &[u8]) -> (out: Vec<u8>)
    requires
        iv@.len() == AES_BLOCK_LEN,
    ensures
        out@ == aes128_cbc_encrypted(key@, iv@, data@),
        aes128_cbc_decrypted(key@, iv@, out@) == Some(data@),
{
    Cbc::<Aes128, Pkcs7>::new_from_slices(key, iv).unwrap().encrypt_vec(data)
}

/// Calls `Cbc::<Aes128, Pkcs7>::new_from_slices` and then `decrypt_vec`.
/// The result is a function of key, initialization vector and ciphertext.
#[verifier::external_body]
pub(crate) fn aes128_cbc_decrypt(key: &[u8; 16], iv: &[u8], data: &[u8]) -> (out: Result<
    Vec<u8>,
    BlockModeError,
>)
    requires
        iv@.len() == AES_BLOCK_LEN,
    ensures
        match out {
            Ok(plaintext) => aes128_cbc_decrypted(key@, iv@, data@) == Some(plaintext@),
            Err(_) => aes128_cbc_decrypted(key@, iv@, data@) is None,
        },
{
    Cbc::<Aes128, Pkcs7>::new_from_slices(key, iv).unwrap().decrypt_vec(data)
}

/// Calls `rand::thread_rng` and fills 16 bytes from it with `Rng::fill`.
/// Nothing is known of the bytes. The generator panics only where the
/// system gives it no entropy to start from.
#[verifier::external_body]
pub(crate) fn random_iv() -> (iv: [u8; 16]) {
    let mut iv = [0u8; 16];
    rand::Rng::fill(&mut rand::thread_rng(), &mut iv);
    iv
}

/// What decrypting gives as bytes: the plaintext, or nothing at all where
/// the initialization vector has the wrong length or the ciphertext does
/// not decrypt.
pub open spec fn aes128_plaintext(key: Seq<u8>, iv: Seq<u8>, ciphertext: Seq<u8>) -> Seq<u8> {
    if iv.len() == AES_BLOCK_LEN {
        match aes128_cbc_decrypted(key, iv, ciphertext) {
            Some(plaintext) => plaintext,
            None => Seq::empty(),
        }
    } else {
        Seq::empty()
    }
}

/// The AES-128 cipher with its key.
pub struct Aes128Encryptor {
    key: [u8; 16],
}

impl View for Aes128Encryptor {
    type V = Seq<u8>;

    /// The key.
    closed spec fn view(&self) -> Seq<u8> {
        self.key@
    }
}

impl Aes128Encryptor {
    /// Takes `secret_key` as the cipher's key, if it has 16 bytes.
    pub fn new(secret_key: &[u8]) -> (out: Result<Self, CryptoError>)
        ensures
            match out {
                Ok(cipher) => secret_key@.len() == AES_BLOCK_LEN && cipher@ == secret_key@,
                Err(e) => secret_key@.len() != AES_BLOCK_LEN && e == CryptoError::InvalidKeyLength,
            },
    {
        if secret_key.len() != AES_BLOCK_LEN {
            return Err(CryptoError::InvalidKeyLength);
        }
        let mut key: [u8; 16] = [0u8; 16];
        let mut i: usize = 0;
        while i < AES_BLOCK_LEN
            invariant
                i <= AES_BLOCK_LEN,
                secret_key@.len() == AES_BLOCK_LEN,
                forall|j: int| 0 <= j < i ==> key@[j] == secret_key@[j],
            decreases AES_BLOCK_LEN - i,
        {
            key[i] = secret_key[i];
            i += 1;
        }
        assert(key@ =~= secret_key@);
        Ok(Self { key })
    }
}

impl Encryptor for Aes128Encryptor {
    open spec fn accepts_iv(&self, iv: Seq<u8>) -> bool {
        iv.len() == AES_BLOCK_LEN
    }

    open spec fn encrypted(&self, data: Seq<u8>, iv: Seq<u8>) -> Seq<u8> {
        aes128_cbc_encrypted(self@, iv, data)
    }

    open spec fn decrypted(&self, data: Seq<u8>, iv: Seq<u8>) -> Seq<u8> {
        aes128_plaintext(self@, iv, data)
    }

    open spec fn kind(&self) -> EncryptorType {
        EncryptorType::Aes128
    }

    fn encrypt(&self, data: &[u8], iv: &[u8]) -> (out: Vec<u8>) {
        aes128_cbc_encrypt(&self.key, iv, data)
    }

    fn decrypt(&self, encrypted_data: &[u8], iv: &[u8]) -> (out: Vec<u8>) {
        if iv.len() != AES_BLOCK_LEN {
            return Vec::new();
        }
        match aes128_cbc_decrypt(&self.key, iv, encrypted_data) {
            Ok(plaintext) => plaintext,
            Err(_) => Vec::new(),
        }
    }

    fn encryptor_type(&self) -> (kind: EncryptorType)
        ensures
            self@.len() == AES_BLOCK_LEN,
    {
        EncryptorType::Aes128
    }
}

} // verus!

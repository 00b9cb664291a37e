//! The repeating-key XOR cipher.

use vstd::prelude::*;
use vstd::slice::slice_to_vec;
use crate::crypto::{Encryptor, EncryptorType};
use crate::error::CryptoError;

verus! {

/// `data` with each byte XORed with the key byte at its position, the key
/// being repeated as often as needed.
pub open spec fn xor_bytes(key: Seq<u8>, data: Seq<u8>) -> Seq<u8> {
    Seq::new(data.len(), |i: int| data[i] ^ key[i % key.len() as int])
}

/// XOR with the same key undoes itself.
pub proof fn lemma_xor_involution(key: Seq<u8>, data: Seq<u8>)
    requires
        key.len() > 0,
    ensures
        xor_bytes(key, xor_bytes(key, data)) == data,
{
    assert forall|i: int| 0 <= i < data.len() implies xor_bytes(key, xor_bytes(key, data))[i]
        == data[i] by {
        let d: u8 = data[i];
        let k: u8 = key[i % key.len() as int];
        assert((d ^ k) ^ k == d) by (bit_vector);
    }
    assert(xor_bytes(key, xor_bytes(key, data)) =~= data);
}

/// The XOR cipher with its key, which is never empty.
pub struct XorEncryptor {
    key: Vec<u8>,
}

impl View for XorEncryptor {
    type V = Seq<u8>;

    /// The key.
    closed spec fn view(&self) -> Seq<u8> {
        self.key@
    }
}

impl XorEncryptor {
    #[verifier::type_invariant]
    spec fn has_key(self) -> bool {
        self.key@.len() > 0
    }

    /// Takes a copy of `key` as the cipher's key. An empty key is refused.
    pub fn new(key: &[u8]) -> (out: Result<Self, CryptoError>)
        ensures
            match out {
                Ok(cipher) => key@.len() > 0 && cipher@ == key@,
                Err(e) => key@.len() == 0 && e == CryptoError::EmptyKey,
            },
    {
        if key.len() == 0 {
            Err(CryptoError::EmptyKey)
        } else {
            Ok(Self { key: slice_to_vec(key) })
        }
    }

    /// XORs `data` with the repeated key.
    pub fn xor_transform(&self, data: &[u8]) -> (out: Vec<u8>)
        ensures
            out@ == xor_bytes(self@, data@),
            self@.len() > 0,
    {
        proof {
            use_type_invariant(self);
        }
        let mut out: Vec<u8> = Vec::with_capacity(data.len());
        let mut i: usize = 0;
        while i < data.len()
            invariant
                i <= data.len(),
                self.key@.len() > 0,
                out@.len() == i,
                forall|j: int|
                    0 <= j < i ==> out@[j] == data@[j] ^ self.key@[j % self.key@.len() as int],
            decreases data.len() - i,
        {
            out.push(data[i] ^ self.key[i % self.key.len()]);
            i += 1;
        }
        assert(out@ =~= xor_bytes(self@, data@));
        out
    }
}

impl Encryptor for XorEncryptor {
    open spec fn accepts_iv(&self, iv: Seq<u8>) -> bool {
        true
    }

    open spec fn encrypted(&self, data: Seq<u8>, iv: Seq<u8>) -> Seq<u8> {
        xor_bytes(self@, data)
    }

    open spec fn decrypted(&self, data: Seq<u8>, iv: Seq<u8>) -> Seq<u8> {
        xor_bytes(self@, data)
    }

    open spec fn kind(&self) -> EncryptorType {
        EncryptorType::Xor
    }

    fn encrypt(&self, data: &[u8], _iv: &[u8]) -> (out: Vec<u8>) {
        let out = self.xor_transform(data);
        proof {
            lemma_xor_involution(self@, data@);
        }
        out
    }

    fn decrypt(&self, encrypted_data: &[u8], _iv: &[u8]) -> (out: Vec<u8>) {
        self.xor_transform(encrypted_data)
    }

    fn encryptor_type(&self) -> (kind: EncryptorType)
        ensures
            self@.len() > 0,
    {
        proof {
            use_type_invariant(self);
        }
        EncryptorType::Xor
    }
}

} // verus!

//! ROT13: every ASCII letter moves 13 places in its alphabet, so that
//! applying the cipher twice gives the input back.

use vstd::prelude::*;
use crate::crypto::{Encryptor, EncryptorType};
use crate::letters::{
    lemma_rotate_full_turns, lemma_rotate_twice, rotate, rotate_bytes, LOWER_A, LOWER_Z, UPPER_A,
    UPPER_Z,
};

verus! {

/// The ROT13 cipher. It has no key.
#[derive(Clone, Copy, Debug)]
pub struct Rot13Encryptor;

/// ROT13 undoes itself.
pub proof fn lemma_rot13_involution(data: Seq<u8>)
    ensures
        rotate_bytes(rotate_bytes(data, 13), 13) == data,
{
    assert forall|i: int| 0 <= i < data.len() implies rotate(rotate(data[i], 13), 13)
        == data[i] by {
        lemma_rotate_twice(data[i], 13, 13);
        lemma_rotate_full_turns(data[i], 26);
    }
    assert(rotate_bytes(rotate_bytes(data, 13), 13) =~= data);
}

impl Rot13Encryptor {
    /// Moves a letter of the first half of its alphabet 13 places forward and
    /// one of the second half 13 places back.
    pub fn rot13_byte(byte: u8) -> (out: u8)
        ensures
            out == rotate(byte, 13),
    {
        if (UPPER_A <= byte && byte < UPPER_A + 13) || (LOWER_A <= byte && byte < LOWER_A + 13) {
            byte + 13
        } else if (UPPER_A + 13 <= byte && byte <= UPPER_Z) || (LOWER_A + 13 <= byte && byte
            <= LOWER_Z) {
            byte - 13
        } else {
            byte
        }
    }

    /// Applies `rot13_byte` to every byte.
    pub fn rot13_transform(data: &[u8]) -> (out: Vec<u8>)
        ensures
            out@ == rotate_bytes(data@, 13),
    {
        let mut out: Vec<u8> = Vec::with_capacity(data.len());
        let mut i: usize = 0;
        while i < data.len()
            invariant
                i <= data.len(),
                out@.len() == i,
                forall|j: int| 0 <= j < i ==> out@[j] == rotate(data@[j], 13),
            decreases data.len() - i,
        {
            out.push(Self::rot13_byte(data[i]));
            i += 1;
        }
        assert(out@ =~= rotate_bytes(data@, 13));
        out
    }
}

impl Encryptor for Rot13Encryptor {
    open spec fn accepts_iv(&self, iv: Seq<u8>) -> bool {
        true
    }

    open spec fn encrypted(&self, data: Seq<u8>, iv: Seq<u8>) -> Seq<u8> {
        rotate_bytes(data, 13)
    }

    open spec fn decrypted(&self, data: Seq<u8>, iv: Seq<u8>) -> Seq<u8> {
        rotate_bytes(data, 13)
    }

    open spec fn kind(&self) -> EncryptorType {
        EncryptorType::Rot13
    }

    fn encrypt(&self, data: &[u8], _iv: &[u8]) -> (out: Vec<u8>) {
        proof {
            lemma_rot13_involution(data@);
        }
        Rot13Encryptor::rot13_transform(data)
    }

    fn decrypt(&self, encrypted_data: &[u8], _iv: &[u8]) -> (out: Vec<u8>) {
        Rot13Encryptor::rot13_transform(encrypted_data)
    }

    fn encryptor_type(&self) -> (kind: EncryptorType) {
        EncryptorType::Rot13
    }
}

} // verus!

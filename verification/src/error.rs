use vstd::prelude::*;
use vstd::string::*;

verus! {

/// Why a cipher could not be built, or why a ciphertext could not be turned back into text.
#[derive(Clone, Copy, Debug, PartialEq, Eq, Structural)]
pub enum CryptoError {
    /// The ciphertext does not consist of the parts that its algorithm writes.
    InvalidFormat,
    /// A part that should be hexadecimal has an odd length or holds another character.
    InvalidHexEncoding,
    /// The key of a block cipher has the wrong number of bytes.
    InvalidKeyLength,
    /// A cipher that needs key material was given none.
    EmptyKey,
    /// The key does not fit the ciphertext, or what came out is not text.
    DecryptionFailure,
}

impl CryptoError {
    /// The sentence that `message` returns for this error.
    pub open spec fn message_text(self) -> Seq<char> {
        match self {
            CryptoError::InvalidFormat => "Invalid format: expected IV:encrypted_data"@,
            CryptoError::InvalidHexEncoding => "Invalid hex format"@,
            CryptoError::InvalidKeyLength => "Secret key must be exactly 16 bytes long"@,
            CryptoError::EmptyKey => "Cipher requires a non-empty key"@,
            CryptoError::DecryptionFailure => "Decryption failed: invalid key or corrupted data"@,
        }
    }

    /// A sentence for people, one per kind of error.
    pub fn message(&self) -> (text: String)
        ensures
            text@ == self.message_text(),
    {
        match self {
            CryptoError::InvalidFormat => "Invalid format: expected IV:encrypted_data".to_owned(),
            CryptoError::InvalidHexEncoding => "Invalid hex format".to_owned(),
            CryptoError::InvalidKeyLength => "Secret key must be exactly 16 bytes long".to_owned(),
            CryptoError::EmptyKey => "Cipher requires a non-empty key".to_owned(),
            CryptoError::DecryptionFailure => "Decryption failed: invalid key or corrupted data".to_owned(),
        }
    }
}

} // verus!

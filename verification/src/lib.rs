//! Text encryption and decryption over five interchangeable algorithms:
//! AES-128 in CBC mode, Base64, ROT13, repeating-key XOR and the Caesar shift.

pub mod aes_cbc;
pub mod base64_codec;
pub mod caesar;
pub mod crypto;
pub mod error;
pub mod hex_codec;
pub mod laws;
pub mod letters;
pub mod rot13;
pub mod text;
pub mod xor;

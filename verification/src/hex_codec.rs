//! Hexadecimal text: the form in which ciphertext that is no text is written.

use vstd::prelude::*;
use vstd::utf8::*;

verus! {

#[verifier::external_type_specification]
#[verifier::external_body]
pub struct ExFromHexError(hex::FromHexError);

/// The ASCII code of the lower-case hexadecimal digit for `n`, which is below 16.
pub open spec fn hex_digit(n: int) -> u8 {
    if n < 10 {
        (0x30 + n) as u8
    } else {
        (0x61 + n - 10) as u8
    }
}

/// The ASCII codes of the hexadecimal form of `bytes`: two digits for each
/// byte, the high half first.
pub open spec fn hex_codes(bytes: Seq<u8>) -> Seq<u8> {
    Seq::new(
        2 * bytes.len(),
        |i: int|
            if i % 2 == 0 {
                hex_digit(bytes[i / 2] as int / 16)
            } else {
                hex_digit(bytes[i / 2] as int % 16)
            },
    )
}

/// The hexadecimal form of `bytes` as text.
pub open spec fn hex_text(bytes: Seq<u8>) -> Seq<char> {
    Seq::new(2 * bytes.len(), |i: int| hex_codes(bytes)[i] as char)
}

/// What the hexadecimal digit with ASCII code `c` stands for, in either case.
pub open spec fn hex_value(c: u8) -> Option<int> {
    if 0x30 <= c <= 0x39 {
        Some(c - 0x30)
    } else if 0x61 <= c <= 0x66 {
        Some(c - 0x61 + 10)
    } else if 0x41 <= c <= 0x46 {
        Some(c - 0x41 + 10)
    } else {
        None
    }
}

/// `text` is an even number of hexadecimal digits.
pub open spec fn is_hex(text: Seq<u8>) -> bool {
    &&& text.len() % 2 == 0
    &&& forall|i: int| 0 <= i < text.len() ==> (#[trigger] hex_value(text[i])) is Some
}

/// The bytes that the digit pairs of `text` stand for.
pub open spec fn hex_bytes(text: Seq<u8>) -> Seq<u8> {
    Seq::new(
        text.len() / 2,
        |i: int| (16 * hex_value(text[2 * i]).unwrap() + hex_value(text[2 * i + 1]).unwrap()) as u8,
    )
}

/// The bytes that `text` stands for, if it is hexadecimal.
pub open spec fn hex_decoded(text: Seq<u8>) -> Option<Seq<u8>> {
    if is_hex(text) {
        Some(hex_bytes(text))
    } else {
        None
    }
}

/// Calls `hex::encode`, which writes each byte as two lower-case hexadecimal
/// digits, the high half first.
#[verifier::external_body]
pub(crate) fn hex_encode(data: &[u8]) -> (out: String)
    ensures
        out@ == hex_text(data@),
{
    hex::encode(data)
}

/// Calls `hex::decode`, which fails on an odd length and on any byte that is
/// no hexadecimal digit of either case, and otherwise returns one byte for
/// each pair of digits, the first digit being the high half.
#[verifier::external_body]
pub(crate) fn hex_decode(text: &[u8]) -> (out: Result<Vec<u8>, hex::FromHexError>)
    ensures
        match out {
            Ok(bytes) => hex_decoded(text@) == Some(bytes@),
            Err(_) => hex_decoded(text@) is None,
        },
{
    hex::decode(text)
}

/// Hexadecimal text is ASCII, so its UTF-8 bytes are its digits' codes.
pub proof fn lemma_hex_text_bytes(bytes: Seq<u8>)
    ensures
        is_ascii_chars(hex_text(bytes)),
        encode_utf8(hex_text(bytes)) == hex_codes(bytes),
{
    let text = hex_text(bytes);
    assert forall|i: int| 0 <= i < text.len() implies '\0' <= #[trigger] text[i] <= '\u{7f}' by {
        let c: u8 = hex_codes(bytes)[i];
        assert(c < 0x80);
    }
    is_ascii_chars_encode_utf8(text);
    assert forall|i: int| 0 <= i < text.len() implies encode_utf8(text)[i] == hex_codes(bytes)[i] by {
        let c: u8 = hex_codes(bytes)[i];
        assert(c < 0x80);
        assert(text[i] == c as char);
        assert(text[i] as u8 == c);
    }
    assert(encode_utf8(text) =~= hex_codes(bytes));
}

/// Reading back what was written as hexadecimal gives the bytes that were written.
pub proof fn lemma_hex_round_trip(bytes: Seq<u8>)
    ensures
        hex_decoded(hex_codes(bytes)) == Some(bytes),
        hex_decoded(encode_utf8(hex_text(bytes))) == Some(bytes),
{
    lemma_hex_text_bytes(bytes);
    let codes = hex_codes(bytes);
    assert forall|i: int| 0 <= i < codes.len() implies (#[trigger] hex_value(codes[i])) is Some by {
        let b: int = bytes[i / 2] as int;
        assert(0 <= b / 16 < 16 && 0 <= b % 16 < 16);
    }
    assert(is_hex(codes));
    assert forall|i: int| 0 <= i < bytes.len() implies hex_bytes(codes)[i] == bytes[i] by {
        let b: int = bytes[i] as int;
        assert((2 * i) / 2 == i && (2 * i + 1) / 2 == i);
        assert((2 * i) % 2 == 0 && (2 * i + 1) % 2 == 1);
        assert(0 <= b / 16 < 16 && 0 <= b % 16 < 16);
        assert(hex_value(codes[2 * i]) == Some(b / 16));
        assert(hex_value(codes[2 * i + 1]) == Some(b % 16));
        assert(16 * (b / 16) + b % 16 == b);
    }
    assert(hex_bytes(codes) =~= bytes);
}

/// Every code of hexadecimal text is that of a digit or of a letter from
/// `a` to `f`.
pub proof fn lemma_hex_codes_are_digits(bytes: Seq<u8>, i: int)
    requires
        0 <= i < 2 * bytes.len(),
    ensures
        0x30 <= hex_codes(bytes)[i] <= 0x39 || 0x61 <= hex_codes(bytes)[i] <= 0x66,
{
    let b: int = bytes[i / 2] as int;
    assert(0 <= b / 16 < 16 && 0 <= b % 16 < 16);
}

/// Different bytes are written as different hexadecimal text.
pub proof fn lemma_hex_text_injective(a: Seq<u8>, b: Seq<u8>)
    requires
        hex_text(a) == hex_text(b),
    ensures
        a == b,
{
    lemma_hex_round_trip(a);
    lemma_hex_round_trip(b);
}

} // verus!

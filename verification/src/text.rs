//! Text as bytes: what it means for bytes to be text, and how rotating the
//! ASCII letters of a text shows in its UTF-8 bytes.

use vstd::prelude::*;
use vstd::utf8::*;
use crate::letters::{
    lemma_rotate_full_turns, lemma_rotate_keeps_class, lemma_rotate_twice, rotate, rotate_bytes,
};

verus! {

#[verifier::external_type_specification]
#[verifier::external_body]
pub struct ExFromUtf8Error(std::string::FromUtf8Error);

/// `String::from_utf8` succeeds exactly on well-formed UTF-8, and the string
/// it then returns holds the characters that those bytes encode.
pub assume_specification[ String::from_utf8 ](vec: Vec<u8>) -> (r: Result<
    String,
    std::string::FromUtf8Error,
>)
    ensures
        r is Ok <==> valid_utf8(vec@),
        r is Ok ==> r->Ok_0@ == decode_utf8(vec@),
;

/// The text that `bytes` encode, if they are well-formed UTF-8.
pub open spec fn text_of(bytes: Seq<u8>) -> Option<Seq<char>> {
    if valid_utf8(bytes) {
        Some(decode_utf8(bytes))
    } else {
        None
    }
}

/// Reads bytes as text.
pub fn text_from_bytes(bytes: Vec<u8>) -> (out: Option<String>)
    ensures
        match out {
            Some(s) => text_of(bytes@) == Some(s@),
            None => text_of(bytes@) is None,
        },
{
    match String::from_utf8(bytes) {
        Ok(s) => Some(s),
        Err(_) => None,
    }
}

/// The character `k` places after `c` in its alphabet, if `c` is an ASCII
/// letter; any other character stays as it is.
pub open spec fn rotate_char(c: char, k: int) -> char {
    if (c as u32) < 0x80 {
        rotate(c as u8, k) as char
    } else {
        c
    }
}

/// Every character of `text` rotated by `k`.
pub open spec fn rotate_text(text: Seq<char>, k: int) -> Seq<char> {
    Seq::new(text.len(), |i: int| rotate_char(text[i], k))
}

proof fn lemma_multibyte_scalar_is_not_ascii(s: u32)
    by (bit_vector)
    requires
        s >= 0x80,
    ensures
        leading_byte_width_2(s) >= 0x80,
        leading_byte_width_3(s) >= 0x80,
        leading_byte_width_4(s) >= 0x80,
        last_continuation_byte(s) >= 0x80,
        second_last_continuation_byte(s) >= 0x80,
        third_last_continuation_byte(s) >= 0x80,
{
}

proof fn lemma_ascii_scalar_is_its_byte(s: u32)
    by (bit_vector)
    requires
        s < 0x80,
    ensures
        leading_byte_width_1(s) == s as u8,
        (s as u8) as u32 == s,
{
}

/// The UTF-8 bytes of one rotated character are the rotated bytes of the character.
proof fn lemma_rotate_scalar(c: char, k: int)
    ensures
        encode_scalar(rotate_char(c, k) as u32) == rotate_bytes(encode_scalar(c as u32), k),
{
    let s: u32 = c as u32;
    char_is_scalar(c);
    if s < 0x80 {
        lemma_ascii_scalar_is_its_byte(s);
        let b: u8 = c as u8;
        let r: u8 = rotate(b, k);
        lemma_rotate_keeps_class(b, k);
        let rs: u32 = (r as char) as u32;
        assert(rs == r as u32);
        lemma_ascii_scalar_is_its_byte(rs);
        assert(encode_scalar(rs) =~= seq![r]);
        assert(rotate_bytes(encode_scalar(s), k) =~= seq![r]);
    } else {
        lemma_multibyte_scalar_is_not_ascii(s);
        assert(rotate_bytes(encode_scalar(s), k) =~= encode_scalar(s));
    }
}

/// Rotating goes through concatenation.
proof fn lemma_rotate_bytes_concat(a: Seq<u8>, b: Seq<u8>, k: int)
    ensures
        rotate_bytes(a + b, k) == rotate_bytes(a, k) + rotate_bytes(b, k),
{
    assert(rotate_bytes(a + b, k) =~= rotate_bytes(a, k) + rotate_bytes(b, k));
}

/// Rotating the letters of a text and rotating the letter bytes of its UTF-8
/// encoding come to the same bytes: a byte of a character beyond ASCII is
/// never a letter.
pub proof fn lemma_rotate_text_bytes(text: Seq<char>, k: int)
    ensures
        encode_utf8(rotate_text(text, k)) == rotate_bytes(encode_utf8(text), k),
    decreases text.len(),
{
    if text.len() == 0 {
        assert(rotate_text(text, k) =~= text);
        assert(rotate_bytes(encode_utf8(text), k) =~= encode_utf8(text));
    } else {
        let rotated = rotate_text(text, k);
        assert(rotated.drop_first() =~= rotate_text(text.drop_first(), k));
        lemma_rotate_text_bytes(text.drop_first(), k);
        lemma_rotate_scalar(text[0], k);
        lemma_rotate_bytes_concat(
            encode_scalar(text[0] as u32),
            encode_utf8(text.drop_first()),
            k,
        );
    }
}

/// Rotated text bytes are text again, namely the rotated text.
pub proof fn lemma_rotated_bytes_are_text(text: Seq<char>, k: int)
    ensures
        text_of(rotate_bytes(encode_utf8(text), k)) == Some(rotate_text(text, k)),
{
    lemma_rotate_text_bytes(text, k);
    encode_utf8_valid_utf8(rotate_text(text, k));
    encode_utf8_decode_utf8(rotate_text(text, k));
}

/// Text that is written as bytes reads back as the same text.
pub proof fn lemma_text_bytes_round_trip(text: Seq<char>)
    ensures
        text_of(encode_utf8(text)) == Some(text),
{
    encode_utf8_valid_utf8(text);
    encode_utf8_decode_utf8(text);
}

/// Only the empty text is written as no bytes.
pub proof fn lemma_text_bytes_empty(text: Seq<char>)
    ensures
        encode_utf8(text).len() == 0 <==> text.len() == 0,
{
    if text.len() > 0 {
        char_is_scalar(text[0]);
        assert(encode_scalar(text[0] as u32).len() > 0);
    }
}

/// Rotating a character by `j` and then by `k` is rotating it by `j + k`.
pub proof fn lemma_rotate_char_twice(c: char, j: int, k: int)
    ensures
        rotate_char(rotate_char(c, j), k) == rotate_char(c, j + k),
{
    if (c as u32) < 0x80 {
        let b: u8 = c as u8;
        lemma_rotate_keeps_class(b, j);
        lemma_rotate_twice(b, j, k);
        let r: u8 = rotate(b, j);
        assert((r as char) as u32 == r as u32);
        assert((r as char) as u8 == r);
    }
}

/// Rotating a text by a multiple of 26 changes nothing.
pub proof fn lemma_rotate_text_full_turns(text: Seq<char>, k: int)
    requires
        k % 26 == 0,
    ensures
        rotate_text(text, k) == text,
{
    assert forall|i: int| 0 <= i < text.len() implies rotate_char(text[i], k) == text[i] by {
        let c: char = text[i];
        if (c as u32) < 0x80 {
            lemma_rotate_full_turns(c as u8, k);
            lemma_ascii_scalar_is_its_byte(c as u32);
            char_u32_cast(c, c as u32);
            assert((c as u8) as char == c);
        }
    }
    assert(rotate_text(text, k) =~= text);
}

/// Rotating a text by `j` and then by `k` is rotating it by `j + k`.
pub proof fn lemma_rotate_text_twice(text: Seq<char>, j: int, k: int)
    ensures
        rotate_text(rotate_text(text, j), k) == rotate_text(text, j + k),
{
    assert forall|i: int| 0 <= i < text.len() implies rotate_char(rotate_char(text[i], j), k)
        == rotate_char(text[i], j + k) by {
        lemma_rotate_char_twice(text[i], j, k);
    }
    assert(rotate_text(rotate_text(text, j), k) =~= rotate_text(text, j + k));
}

} // verus!

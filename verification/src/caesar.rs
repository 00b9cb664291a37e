//! The Caesar cipher: every ASCII letter moves a fixed number of places in
//! its alphabet. The number comes from the key, read as a decimal number.

use vstd::prelude::*;
use vstd::utf8::*;
use crate::crypto::{Encryptor, EncryptorType};
use crate::letters::{
    lemma_rotate_congruent, lemma_rotate_full_turns, lemma_rotate_twice, rotate, rotate_bytes,
    LOWER_A, LOWER_Z, UPPER_A, UPPER_Z,
};

verus! {

/// The shift that a key stands for when it is no number.
pub const DEFAULT_SHIFT: u8 = 3;

/// The ASCII code of `0`.
pub const DIGIT_0: u8 = 0x30;

/// The ASCII code of `9`.
pub const DIGIT_9: u8 = 0x39;

/// The ASCII code of `+`.
pub const PLUS: u8 = 0x2b;

/// `digits` consists of the characters `0` to `9`.
pub open spec fn all_digits(digits: Seq<u8>) -> bool {
    forall|i: int| 0 <= i < digits.len() ==> DIGIT_0 <= #[trigger] digits[i] <= DIGIT_9
}

/// The number that the decimal digits `digits` write.
pub open spec fn decimal_value(digits: Seq<u8>) -> int
    decreases digits.len(),
{
    if digits.len() == 0 {
        0
    } else {
        10 * decimal_value(digits.drop_last()) + (digits.last() - DIGIT_0)
    }
}

/// The digits of `text`: all of it, but for a plus sign at its start.
pub open spec fn digits_of(text: Seq<u8>) -> Seq<u8> {
    if text.len() > 0 && text[0] == PLUS {
        text.skip(1)
    } else {
        text
    }
}

/// The number that `text` writes, where `text` is one or more decimal
/// digits, with one plus sign before them or without, and the number is
/// below 256.
pub open spec fn parsed_u8(text: Seq<u8>) -> Option<u8> {
    let digits = digits_of(text);
    if digits.len() > 0 && all_digits(digits) && decimal_value(digits) <= u8::MAX {
        Some(decimal_value(digits) as u8)
    } else {
        None
    }
}

/// The shift that the key `key` asks for: the number it writes, brought into
/// the range of the alphabet, or 3 if it writes none.
pub open spec fn shift_of_key(key: Seq<char>) -> int {
    match parsed_u8(encode_utf8(key)) {
        Some(n) => n as int % 26,
        None => DEFAULT_SHIFT as int % 26,
    }
}

/// More digits never write a smaller number.
proof fn lemma_decimal_value_grows(digits: Seq<u8>, n: int)
    requires
        all_digits(digits),
        0 <= n <= digits.len(),
    ensures
        0 <= decimal_value(digits.take(n)) <= decimal_value(digits),
    decreases digits.len(),
{
    if digits.len() == 0 {
        assert(digits.take(n) =~= digits);
    } else {
        let shorter = digits.drop_last();
        assert(all_digits(shorter));
        lemma_decimal_value_grows(shorter, shorter.len() as int);
        assert(shorter.take(shorter.len() as int) =~= shorter);
        if n == digits.len() {
            assert(digits.take(n) =~= digits);
        } else {
            lemma_decimal_value_grows(shorter, n);
            assert(shorter.take(n) =~= digits.take(n));
        }
    }
}

/// Reads a decimal number below 256, as `parsed_u8` describes it.
pub fn parse_u8(text: &[u8]) -> (out: Option<u8>)
    ensures
        out == parsed_u8(text@),
{
    let start: usize = if text.len() > 0 && text[0] == PLUS {
        1
    } else {
        0
    };
    let ghost digits = digits_of(text@);
    if start == text.len() {
        return None;
    }
    let mut value: u8 = 0;
    let mut i: usize = start;
    while i < text.len()
        invariant
            start <= i <= text.len(),
            digits == digits_of(text@),
            digits == text@.skip(start as int),
            digits.len() > 0,
            all_digits(digits.take(i - start)),
            value == decimal_value(digits.take(i - start)),
        decreases text.len() - i,
    {
        let b: u8 = text[i];
        let ghost longer = digits.take(i - start + 1);
        proof {
            assert(longer.drop_last() =~= digits.take(i - start));
            assert(longer.last() == b);
            assert(digits[i - start] == b);
        }
        if b < DIGIT_0 || b > DIGIT_9 {
            return None;
        }
        let d: u8 = b - DIGIT_0;
        assert(decimal_value(longer) == 10 * value + d);
        if value > 25 || (value == 25 && d > 5) {
            proof {
                if all_digits(digits) {
                    lemma_decimal_value_grows(digits, i - start + 1);
                }
            }
            return None;
        }
        value = value * 10 + d;
        i += 1;
    }
    assert(digits.take(i - start) =~= digits);
    Some(value)
}

/// The Caesar cipher with its shift, which is below 26.
#[derive(Clone, Copy, Debug)]
pub struct CaesarEncryptor {
    shift: u8,
}

impl View for CaesarEncryptor {
    type V = int;

    /// The shift.
    closed spec fn view(&self) -> int {
        self.shift as int
    }
}

impl CaesarEncryptor {
    #[verifier::type_invariant]
    spec fn normalized(self) -> bool {
        self.shift < 26
    }

    /// A cipher that shifts by `shift`, brought into the range of the alphabet.
    pub fn new(shift: u8) -> (out: Self)
        ensures
            out@ == shift as int % 26,
    {
        Self { shift: shift % 26 }
    }

    /// The shift, which is below 26.
    pub fn shift(&self) -> (out: u8)
        ensures
            out == self@,
            0 <= self@ < 26,
    {
        proof {
            use_type_invariant(self);
        }
        self.shift
    }

    /// Moves a letter `shift` places forward in its alphabet.
    pub fn caesar_encrypt_byte(byte: u8, shift: u8) -> (out: u8)
        ensures
            out == rotate(byte, shift as int),
    {
        let places: u8 = shift % 26;
        if UPPER_A <= byte && byte <= UPPER_Z {
            UPPER_A + (byte - UPPER_A + places) % 26
        } else if LOWER_A <= byte && byte <= LOWER_Z {
            LOWER_A + (byte - LOWER_A + places) % 26
        } else {
            byte
        }
    }

    /// Moves a letter `shift` places back in its alphabet.
    pub fn caesar_decrypt_byte(byte: u8, shift: u8) -> (out: u8)
        ensures
            out == rotate(byte, -(shift as int)),
    {
        let places: u8 = shift % 26;
        if UPPER_A <= byte && byte <= UPPER_Z {
            UPPER_A + (byte - UPPER_A + 26 - places) % 26
        } else if LOWER_A <= byte && byte <= LOWER_Z {
            LOWER_A + (byte - LOWER_A + 26 - places) % 26
        } else {
            byte
        }
    }
}

/// Shifting back undoes shifting forward.
pub proof fn lemma_caesar_round_trip(data: Seq<u8>, shift: int)
    ensures
        rotate_bytes(rotate_bytes(data, shift), -shift) == data,
{
    assert forall|i: int| 0 <= i < data.len() implies rotate(rotate(data[i], shift), -shift)
        == data[i] by {
        lemma_rotate_twice(data[i], shift, -shift);
        lemma_rotate_full_turns(data[i], 0);
    }
    assert(rotate_bytes(rotate_bytes(data, shift), -shift) =~= data);
}

/// Shifting back by `shift` places is shifting forward by `26 - shift`.
pub proof fn lemma_caesar_back_is_forward(data: Seq<u8>, shift: int)
    ensures
        rotate_bytes(data, -shift) == rotate_bytes(data, 26 - shift),
{
    assert forall|i: int| 0 <= i < data.len() implies rotate(data[i], -shift) == rotate(
        data[i],
        26 - shift,
    ) by {
        lemma_rotate_congruent(data[i], 26 - shift, -shift);
    }
    assert(rotate_bytes(data, -shift) =~= rotate_bytes(data, 26 - shift));
}

impl Encryptor for CaesarEncryptor {
    open spec fn accepts_iv(&self, iv: Seq<u8>) -> bool {
        true
    }

    open spec fn encrypted(&self, data: Seq<u8>, iv: Seq<u8>) -> Seq<u8> {
        rotate_bytes(data, self@)
    }

    open spec fn decrypted(&self, data: Seq<u8>, iv: Seq<u8>) -> Seq<u8> {
        rotate_bytes(data, -self@)
    }

    open spec fn kind(&self) -> EncryptorType {
        EncryptorType::Caesar
    }

    fn encrypt(&self, data: &[u8], _iv: &[u8]) -> (out: Vec<u8>) {
        let mut out: Vec<u8> = Vec::with_capacity(data.len());
        let mut i: usize = 0;
        while i < data.len()
            invariant
                i <= data.len(),
                out@.len() == i,
                forall|j: int| 0 <= j < i ==> out@[j] == rotate(data@[j], self@),
            decreases data.len() - i,
        {
            out.push(CaesarEncryptor::caesar_encrypt_byte(data[i], self.shift));
            i += 1;
        }
        proof {
            assert(out@ =~= rotate_bytes(data@, self@));
            lemma_caesar_round_trip(data@, self@);
        }
        out
    }

    fn decrypt(&self, encrypted_data: &[u8], _iv: &[u8]) -> (out: Vec<u8>) {
        let mut out: Vec<u8> = Vec::with_capacity(encrypted_data.len());
        let mut i: usize = 0;
        while i < encrypted_data.len()
            invariant
                i <= encrypted_data.len(),
                out@.len() == i,
                forall|j: int| 0 <= j < i ==> out@[j] == rotate(encrypted_data@[j], -self@),
            decreases encrypted_data.len() - i,
        {
            out.push(CaesarEncryptor::caesar_decrypt_byte(encrypted_data[i], self.shift));
            i += 1;
        }
        assert(out@ =~= rotate_bytes(encrypted_data@, -self@));
        out
    }

    fn encryptor_type(&self) -> (kind: EncryptorType)
        ensures
            0 <= self@ < 26,
    {
        proof {
            use_type_invariant(self);
        }
        EncryptorType::Caesar
    }
}

} // verus!

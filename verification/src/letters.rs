//! Rotation of the ASCII letters within their alphabet, the arithmetic that
//! ROT13 and the Caesar shift have in common.

use vstd::prelude::*;

verus! {

/// The ASCII code of `A`.
pub const UPPER_A: u8 = 0x41;

/// The ASCII code of `Z`.
pub const UPPER_Z: u8 = 0x5a;

/// The ASCII code of `a`.
pub const LOWER_A: u8 = 0x61;

/// The ASCII code of `z`.
pub const LOWER_Z: u8 = 0x7a;

/// `b` is one of `A` to `Z`.
pub open spec fn is_upper(b: u8) -> bool {
    UPPER_A <= b <= UPPER_Z
}

/// `b` is one of `a` to `z`.
pub open spec fn is_lower(b: u8) -> bool {
    LOWER_A <= b <= LOWER_Z
}

/// The letter `k` places after `b` in the alphabet of the same case, going
/// round from the last letter to the first (backwards for a negative `k`).
/// A byte that is no ASCII letter stays as it is.
pub open spec fn rotate(b: u8, k: int) -> u8 {
    if is_upper(b) {
        (UPPER_A + (b - UPPER_A + k) % 26) as u8
    } else if is_lower(b) {
        (LOWER_A + (b - LOWER_A + k) % 26) as u8
    } else {
        b
    }
}

/// Every byte of `data` rotated by `k`.
pub open spec fn rotate_bytes(data: Seq<u8>, k: int) -> Seq<u8> {
    Seq::new(data.len(), |i: int| rotate(data[i], k))
}

/// Rotation keeps a letter a letter of the same case and touches nothing else,
/// so a byte stays on its side of the ASCII boundary.
pub proof fn lemma_rotate_keeps_class(b: u8, k: int)
    ensures
        is_upper(rotate(b, k)) == is_upper(b),
        is_lower(rotate(b, k)) == is_lower(b),
        rotate(b, k) < 0x80 <==> b < 0x80,
        b >= 0x80 ==> rotate(b, k) == b,
{
}

/// Rotating by `j` and then by `k` is rotating by `j + k`.
pub proof fn lemma_rotate_twice(b: u8, j: int, k: int)
    ensures
        rotate(rotate(b, j), k) == rotate(b, j + k),
{
    if is_upper(b) {
        let x: int = b - 0x41;
        assert(((x + j) % 26 + k) % 26 == (x + j + k) % 26) by (nonlinear_arith);
    } else if is_lower(b) {
        let x: int = b - 0x61;
        assert(((x + j) % 26 + k) % 26 == (x + j + k) % 26) by (nonlinear_arith);
    }
}

/// Rotating by a multiple of 26 changes nothing.
pub proof fn lemma_rotate_full_turns(b: u8, k: int)
    requires
        k % 26 == 0,
    ensures
        rotate(b, k) == b,
{
    if is_upper(b) {
        let x: int = b - 0x41;
        assert((x + k) % 26 == x) by (nonlinear_arith)
            requires
                0 <= x < 26,
                k % 26 == 0,
        ;
    } else if is_lower(b) {
        let x: int = b - 0x61;
        assert((x + k) % 26 == x) by (nonlinear_arith)
            requires
                0 <= x < 26,
                k % 26 == 0,
        ;
    }
}

/// Rotations whose distances differ by a multiple of 26 are the same.
pub proof fn lemma_rotate_congruent(b: u8, j: int, k: int)
    requires
        (j - k) % 26 == 0,
    ensures
        rotate(b, j) == rotate(b, k),
{
    lemma_rotate_twice(b, k, j - k);
    lemma_rotate_keeps_class(b, k);
    lemma_rotate_full_turns(rotate(b, k), j - k);
    assert(k + (j - k) == j);
}

} // verus!

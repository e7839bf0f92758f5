//! The alphabet of the language: the bytes of the letters `a`, `b` and `c`.

use vstd::prelude::*;

verus! {

/// The byte of the letter `a`.
pub const LETTER_A: u8 = 0x61;

/// The byte of the letter `b`.
pub const LETTER_B: u8 = 0x62;

/// The byte of the letter `c`.
pub const LETTER_C: u8 = 0x63;

/// Whether `b` is one of the three letters.
pub open spec fn is_letter(b: u8) -> bool {
    b == LETTER_A || b == LETTER_B || b == LETTER_C
}

/// Whether every byte of `w` is a letter.
pub open spec fn is_letter_word(w: Seq<u8>) -> bool {
    forall|i: int| 0 <= i < w.len() ==> is_letter(#[trigger] w[i])
}

} // verus!

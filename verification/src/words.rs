//! The words over the alphabet, listed by length and, within a length, by the
//! number whose base-3 digits, least significant first, spell them.

use vstd::prelude::*;
use crate::alphabet::{LETTER_A, LETTER_B, LETTER_C, is_letter, is_letter_word};

verus! {

/// The letters in the order of their digits: `a` is 0, `b` is 1, `c` is 2.
pub const ALPHABET: [u8; 3] = [LETTER_A, LETTER_B, LETTER_C];

/// Three to the power `n`: the number of words of length `n`.
pub open spec fn pow3(n: nat) -> nat
    decreases n,
{
    if n == 0 {
        1
    } else {
        3 * pow3((n - 1) as nat)
    }
}

/// The letter of the digit `d`.
pub open spec fn letter_for(d: nat) -> u8 {
    if d == 0 {
        LETTER_A
    } else if d == 1 {
        LETTER_B
    } else {
        LETTER_C
    }
}

/// The digit of the letter `b`.
pub open spec fn digit_of(b: u8) -> nat {
    if b == LETTER_A {
        0
    } else if b == LETTER_B {
        1
    } else {
        2
    }
}

/// The word of length `len` whose letters are the base-3 digits of `num`,
/// least significant first.
pub open spec fn spelled_word(num: nat, len: nat) -> Seq<u8>
    decreases len,
{
    if len == 0 {
        Seq::empty()
    } else {
        seq![letter_for(num % 3)] + spelled_word(num / 3, (len - 1) as nat)
    }
}

/// The number whose base-3 digits, least significant first, spell `w`.
pub open spec fn word_number(w: Seq<u8>) -> nat
    decreases w.len(),
{
    if w.len() == 0 {
        0
    } else {
        digit_of(w[0]) + 3 * word_number(w.drop_first())
    }
}

/// Whether the word `u` comes before the word `w` in the listing: shorter
/// words first, and words of one length by their numbers.
pub open spec fn listed_before(u: Seq<u8>, w: Seq<u8>) -> bool {
    u.len() < w.len() || (u.len() == w.len() && word_number(u) < word_number(w))
}

/// Every word spelled from a number is made of letters and has the length asked.
pub proof fn lemma_spelled_word_letters(num: nat, len: nat)
    ensures
        spelled_word(num, len).len() == len,
        is_letter_word(spelled_word(num, len)),
    decreases len,
{
    if len > 0 {
        lemma_spelled_word_letters(num / 3, (len - 1) as nat);
        let rest = spelled_word(num / 3, (len - 1) as nat);
        let w = spelled_word(num, len);
        assert forall|i: int| 0 <= i < w.len() implies is_letter(#[trigger] w[i]) by {
            if i > 0 {
                assert(w[i] == rest[i - 1]);
            }
        }
    }
}

/// Each word of letters is spelled by its number, which is less than three to
/// the power of its length: listing the numbers below that power lists every
/// word of the length.
pub proof fn lemma_every_word_is_spelled(w: Seq<u8>)
    requires
        is_letter_word(w),
    ensures
        word_number(w) < pow3(w.len()),
        spelled_word(word_number(w), w.len()) == w,
    decreases w.len(),
{
    if w.len() > 0 {
        let rest = w.drop_first();
        assert forall|i: int| 0 <= i < rest.len() implies is_letter(#[trigger] rest[i]) by {
            assert(rest[i] == w[i + 1]);
        }
        lemma_every_word_is_spelled(rest);
        let d: nat = digit_of(w[0]);
        let k: nat = word_number(rest);
        assert(is_letter(w[0]));
        assert((d + 3 * k) % 3 == d && (d + 3 * k) / 3 == k) by (nonlinear_arith)
            requires
                d < 3,
        ;
        assert(spelled_word(word_number(w), w.len()) =~= w);
    }
}

/// Distinct numbers below three to the power `len` spell distinct words.
pub proof fn lemma_spelled_number(num: nat, len: nat)
    requires
        num < pow3(len),
    ensures
        word_number(spelled_word(num, len)) == num,
    decreases len,
{
    if len > 0 {
        let w = spelled_word(num, len);
        assert(num / 3 < pow3((len - 1) as nat)) by (nonlinear_arith)
            requires
                num < 3 * pow3((len - 1) as nat),
        ;
        lemma_spelled_number(num / 3, (len - 1) as nat);
        assert(w.drop_first() =~= spelled_word(num / 3, (len - 1) as nat));
        assert(num == num % 3 + 3 * (num / 3)) by (nonlinear_arith);
    }
}

/// The word whose letters are those of the digits `digits`, in order.
pub open spec fn letters_of_digits(digits: Seq<usize>) -> Seq<u8> {
    digits.map_values(|d: usize| letter_for(d as nat))
}

/// The letters of digits form a word of letters of the same length.
pub proof fn lemma_letters_of_digits(digits: Seq<usize>)
    ensures
        letters_of_digits(digits).len() == digits.len(),
        is_letter_word(letters_of_digits(digits)),
{
    let w = letters_of_digits(digits);
    assert forall|i: int| 0 <= i < w.len() implies is_letter(#[trigger] w[i]) by {
        assert(w[i] == letter_for(digits[i] as nat));
    }
}

/// The word whose letters are those of the digits `digits`, each below 3.
pub fn word_of_digits(digits: &Vec<usize>) -> (w: Vec<u8>)
    requires
        forall|i: int| 0 <= i < digits.len() ==> #[trigger] digits[i] < 3,
    ensures
        w@ == letters_of_digits(digits@),
{
    let mut w: Vec<u8> = Vec::new();
    for i in 0..digits.len()
        invariant
            forall|j: int| 0 <= j < digits.len() ==> #[trigger] digits[j] < 3,
            w@ == letters_of_digits(digits@.take(i as int)),
    {
        let d: usize = digits[i];
        proof {
            assert(ALPHABET@[d as int] == letter_for(d as nat));
            assert(letters_of_digits(digits@.take(i + 1)) =~= letters_of_digits(
                digits@.take(i as int),
            ).push(letter_for(d as nat)));
        }
        w.push(ALPHABET[d]);
    }
    proof {
        assert(digits@.take(digits.len() as int) =~= digits@);
    }
    w
}

/// Writes into `buf` the word of its length spelled by `num`.
pub fn spell(buf: &mut Vec<u8>, num: usize)
    ensures
        final(buf)@ == spelled_word(num as nat, old(buf).len() as nat),
{
    let len: usize = buf.len();
    let mut rest: usize = num;
    let ghost whole = spelled_word(num as nat, len as nat);
    for i in 0..len
        invariant
            buf.len() == len,
            whole == spelled_word(num as nat, old(buf).len() as nat),
            len == old(buf).len(),
            whole == buf@.take(i as int) + spelled_word(rest as nat, (len - i) as nat),
    {
        let digit: usize = rest % 3;
        proof {
            assert(ALPHABET@[digit as int] == letter_for(digit as nat));
            assert(buf@.take(i as int).push(letter_for(digit as nat)) + spelled_word(
                (rest / 3) as nat,
                (len - i - 1) as nat,
            ) =~= buf@.take(i as int) + spelled_word(rest as nat, (len - i) as nat));
        }
        buf[i] = ALPHABET[digit];
        rest /= 3;
    }
    proof {
        assert(buf@.take(len as int) =~= buf@);
    }
}

} // verus!

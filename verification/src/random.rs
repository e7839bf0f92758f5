//! Random words over the alphabet, drawn with the `rand` crate, and the
//! record of the values drawn for them.

use vstd::prelude::*;
use rand::Rng;
use rand::rngs::ThreadRng;
use crate::alphabet::is_letter_word;
use crate::words::{digit_of, letter_for, letters_of_digits, lemma_letters_of_digits, word_of_digits};

verus! {

#[verifier::external_type_specification]
#[verifier::external_body]
pub struct ExThreadRng(rand::rngs::ThreadRng);

/// Calls `rand::thread_rng`: a handle to the generator of the current thread.
#[verifier::external_body]
pub(crate) fn thread_rng() -> ThreadRng {
    rand::thread_rng()
}

/// One value drawn from a generator: the bounds of the range `low..=high`
/// that it was drawn from, and the value.
pub struct Draw {
    pub low: usize,
    pub high: usize,
    pub value: usize,
}

/// The generator of the current thread, with the record of the values drawn
/// from it so far.
pub struct Generator {
    rng: ThreadRng,
    drawn: Ghost<Seq<Draw>>,
}

impl Generator {
    /// The values drawn from this generator so far, in order.
    pub closed spec fn draws(&self) -> Seq<Draw> {
        self.drawn@
    }

    /// The generator of the current thread, with nothing drawn yet.
    pub fn new() -> (g: Generator)
        ensures
            g.draws() == Seq::<Draw>::empty(),
    {
        Generator { rng: thread_rng(), drawn: Ghost(Seq::empty()) }
    }
}

/// Calls `Rng::gen_range` on the range `low..=high` of the generator. Trusted:
/// the value lies in the range, which is not empty (`gen_range` panics on an
/// empty range), and the draw, with its range and value, is added to the
/// record. Which value comes is left open: it is drawn at random.
#[verifier::external_body]
fn random_between(g: &mut Generator, low: usize, high: usize) -> (r: usize)
    requires
        low <= high,
    ensures
        low <= r <= high,
        final(g).draws() == old(g).draws().push(Draw { low, high, value: r }),
{
    g.rng.gen_range(low..=high)
}

/// The draws of the letters of the digits `digits`: each from `0..=2`.
pub open spec fn digit_draws(digits: Seq<usize>) -> Seq<Draw> {
    digits.map_values(|d: usize| Draw { low: 0, high: 2, value: d })
}

/// The draws that give the random word `w` of length at most `max_len`: its
/// length, drawn from `0..=max_len`, then the digit of each letter in turn,
/// drawn from `0..=2`.
pub open spec fn word_draws(max_len: usize, w: Seq<u8>) -> Seq<Draw> {
    seq![Draw { low: 0, high: max_len, value: w.len() as usize }] + w.map_values(
        |b: u8| Draw { low: 0, high: 2, value: digit_of(b) as usize },
    )
}

/// The draws that give the random words `ws`, one after the other.
pub open spec fn run_draws(max_len: usize, ws: Seq<Seq<u8>>) -> Seq<Draw>
    decreases ws.len(),
{
    if ws.len() == 0 {
        Seq::empty()
    } else {
        run_draws(max_len, ws.drop_last()) + word_draws(max_len, ws.last())
    }
}

/// Fills `buf` with a random word: its length is drawn from `0..=max_len`,
/// then each letter is the letter of a digit drawn from `0..=2`.
pub fn random_word(g: &mut Generator, max_len: usize, buf: &mut Vec<u8>)
    ensures
        final(buf)@.len() <= max_len,
        is_letter_word(final(buf)@),
        final(g).draws() == old(g).draws() + word_draws(max_len, final(buf)@),
{
    let ghost start = g.draws();
    let len: usize = random_between(g, 0, max_len);
    let mut digits: Vec<usize> = Vec::new();
    for i in 0..len
        invariant
            digits@.len() == i,
            len <= max_len,
            forall|j: int| 0 <= j < digits.len() ==> #[trigger] digits[j] < 3,
            g.draws() == start.push(Draw { low: 0, high: max_len, value: len }) + digit_draws(digits@),
    {
        let d: usize = random_between(g, 0, 2);
        proof {
            assert(digit_draws(digits@.push(d)) =~= digit_draws(digits@).push(
                Draw { low: 0, high: 2, value: d },
            ));
        }
        digits.push(d);
        proof {
            assert(g.draws() =~= start.push(Draw { low: 0, high: max_len, value: len })
                + digit_draws(digits@));
        }
    }
    *buf = word_of_digits(&digits);
    proof {
        lemma_letters_of_digits(digits@);
        let w = buf@;
        assert(w == letters_of_digits(digits@));
        assert forall|k: int| 0 <= k < digits.len() implies digit_of(#[trigger] w[k]) == digits@[k] by {
            assert(w[k] == letter_for(digits@[k] as nat));
        }
        assert(digit_draws(digits@) =~= w.map_values(
            |b: u8| Draw { low: 0, high: 2, value: digit_of(b) as usize },
        ));
        assert(g.draws() =~= start + word_draws(max_len, w));
    }
}

} // verus!

//! What each property automaton checks, stated over the word itself: the
//! state it reaches on a word, and the words it accepts.

use vstd::prelude::*;
use crate::alphabet::{LETTER_A, LETTER_B, LETTER_C, is_letter, is_letter_word};
use crate::guards::{
    NoBcaState, NoSingleCState, AbcInvState, NoBBBlockLen2State, NoCBlockAorBThenCState,
};

verus! {

/// A word is made of letters when its prefix is and its last byte is a letter.
pub proof fn lemma_letter_word_extend(w: Seq<u8>)
    requires
        w.len() > 0,
    ensures
        is_letter_word(w) == (is_letter_word(w.drop_last()) && is_letter(w.last())),
{
    let v = w.drop_last();
    if is_letter_word(v) && is_letter(w.last()) {
        assert forall|i: int| 0 <= i < w.len() implies is_letter(#[trigger] w[i]) by {
            if i < v.len() {
                assert(w[i] == v[i]);
            }
        }
    }
    if is_letter_word(w) {
        assert forall|i: int| 0 <= i < v.len() implies is_letter(#[trigger] v[i]) by {
            assert(w[i] == v[i]);
        }
        assert(is_letter(w[w.len() - 1]));
    }
}

// ---------------------------------------------------------------------------
// No factor `bca`

/// The word has the factor `bca` at position `i`.
pub open spec fn bca_at(w: Seq<u8>, i: int) -> bool {
    w[i] == LETTER_B && w[i + 1] == LETTER_C && w[i + 2] == LETTER_A
}

/// The word has no factor `bca`.
pub open spec fn avoids_bca(w: Seq<u8>) -> bool {
    forall|i: int| 0 <= i && i + 2 < w.len() ==> !#[trigger] bca_at(w, i)
}

/// The state of the `bca` automaton after `w`, described by `w`.
pub open spec fn bca_state_of(w: Seq<u8>) -> NoBcaState {
    if !(is_letter_word(w) && avoids_bca(w)) {
        NoBcaState::Dead
    } else if w.len() >= 2 && w[w.len() - 2] == LETTER_B && w[w.len() - 1] == LETTER_C {
        NoBcaState::Bc2
    } else if w.len() >= 1 && w[w.len() - 1] == LETTER_B {
        NoBcaState::Bc1
    } else {
        NoBcaState::Bc0
    }
}

/// The `bca` automaton reaches the state that `bca_state_of` describes.
pub proof fn lemma_bca_run(w: Seq<u8>)
    ensures
        NoBcaState::run(w) == bca_state_of(w),
    decreases w.len(),
{
    if w.len() > 0 {
        let v = w.drop_last();
        lemma_bca_run(v);
        lemma_letter_word_extend(w);
        let n: int = w.len() as int;
        assert forall|i: int| 0 <= i && i + 2 < v.len() implies #[trigger] bca_at(v, i) == bca_at(w, i) by {
            assert(v[i] == w[i] && v[i + 1] == w[i + 1] && v[i + 2] == w[i + 2]);
        }
        if n >= 2 {
            assert(v[n - 2] == w[n - 2]);
        }
        if n >= 3 {
            assert(v[n - 3] == w[n - 3]);
        }
        if avoids_bca(v) && !(n >= 3 && bca_at(w, n - 3)) {
            assert forall|i: int| 0 <= i && i + 2 < w.len() implies !#[trigger] bca_at(w, i) by {
                if i + 2 < v.len() {
                    assert(!bca_at(v, i));
                }
            }
        }
        if avoids_bca(w) {
            assert forall|i: int| 0 <= i && i + 2 < v.len() implies !#[trigger] bca_at(v, i) by {
                assert(!bca_at(w, i));
            }
            if n >= 3 {
                assert(!bca_at(w, n - 3));
            }
        }
    }
}

/// The `bca` automaton accepts exactly the words of letters without the factor `bca`.
pub proof fn lemma_bca_language(w: Seq<u8>)
    ensures
        NoBcaState::run(w).accepting() == (is_letter_word(w) && avoids_bca(w)),
{
    lemma_bca_run(w);
}

// ---------------------------------------------------------------------------
// No block of `c` of length one

/// A block of `c` starts at position `i`.
pub open spec fn c_block_starts(w: Seq<u8>, i: int) -> bool {
    w[i] == LETTER_C && (i == 0 || w[i - 1] != LETTER_C)
}

/// A block of `c` of length one stands at position `i`.
pub open spec fn single_c_at(w: Seq<u8>, i: int) -> bool {
    c_block_starts(w, i) && (i + 1 == w.len() || w[i + 1] != LETTER_C)
}

/// No block of `c` has length one.
pub open spec fn no_single_c(w: Seq<u8>) -> bool {
    forall|i: int| 0 <= i < w.len() ==> !#[trigger] single_c_at(w, i)
}

/// No block of `c` that ends before the last byte has length one.
pub open spec fn no_closed_single_c(w: Seq<u8>) -> bool {
    forall|i: int| 0 <= i && i + 1 < w.len() ==> !#[trigger] single_c_at(w, i)
}

/// The state of the single-`c` automaton after `w`, described by `w`.
pub open spec fn single_c_state_of(w: Seq<u8>) -> NoSingleCState {
    if !(is_letter_word(w) && no_closed_single_c(w)) {
        NoSingleCState::Dead
    } else if w.len() >= 1 && w[w.len() - 1] == LETTER_C {
        if single_c_at(w, w.len() - 1) {
            NoSingleCState::Cc1
        } else {
            NoSingleCState::Cc2
        }
    } else {
        NoSingleCState::Cc0
    }
}

/// The single-`c` automaton reaches the state that `single_c_state_of` describes.
pub proof fn lemma_single_c_run(w: Seq<u8>)
    ensures
        NoSingleCState::run(w) == single_c_state_of(w),
    decreases w.len(),
{
    if w.len() > 0 {
        let v = w.drop_last();
        lemma_single_c_run(v);
        lemma_letter_word_extend(w);
        let n: int = w.len() as int;
        assert forall|i: int| 0 <= i && i + 1 < v.len() implies #[trigger] single_c_at(v, i)
            == single_c_at(w, i) by {
            assert(v[i] == w[i] && v[i + 1] == w[i + 1]);
            if i > 0 {
                assert(v[i - 1] == w[i - 1]);
            }
        }
        if n >= 2 {
            assert(v[n - 2] == w[n - 2]);
            assert(c_block_starts(v, n - 2) == c_block_starts(w, n - 2));
        }
        if n >= 3 {
            assert(v[n - 3] == w[n - 3]);
        }
        if no_closed_single_c(v) && !(n >= 2 && single_c_at(w, n - 2)) {
            assert forall|i: int| 0 <= i && i + 1 < w.len() implies !#[trigger] single_c_at(w, i) by {
                if i + 1 < v.len() {
                    assert(!single_c_at(v, i));
                }
            }
        }
        if no_closed_single_c(w) {
            assert forall|i: int| 0 <= i && i + 1 < v.len() implies !#[trigger] single_c_at(v, i) by {
                assert(!single_c_at(w, i));
            }
            if n >= 2 {
                assert(!single_c_at(w, n - 2));
            }
        }
    }
}

/// The single-`c` automaton accepts exactly the words of letters in which no
/// block of `c` has length one.
pub proof fn lemma_single_c_language(w: Seq<u8>)
    ensures
        NoSingleCState::run(w).accepting() == (is_letter_word(w) && no_single_c(w)),
{
    lemma_single_c_run(w);
    if is_letter_word(w) && no_closed_single_c(w) && w.len() >= 1 && !single_c_at(w, w.len() - 1) {
        assert forall|i: int| 0 <= i < w.len() implies !#[trigger] single_c_at(w, i) by {
            if i + 1 < w.len() {
                assert(!single_c_at(w, i));
            }
        }
    }
    if w.len() >= 1 && no_single_c(w) {
        assert(!single_c_at(w, w.len() - 1));
    }
    if no_single_c(w) {
        assert forall|i: int| 0 <= i && i + 1 < w.len() implies !#[trigger] single_c_at(w, i) by {
            assert(!single_c_at(w, i));
        }
    }
    if w.len() >= 1 && w[w.len() - 1] != LETTER_C && no_closed_single_c(w) {
        assert forall|i: int| 0 <= i < w.len() implies !#[trigger] single_c_at(w, i) by {
            if i + 1 < w.len() {
                assert(!single_c_at(w, i));
            }
        }
    }
    if w.len() == 0 {
        assert(no_single_c(w));
    }
}

// ---------------------------------------------------------------------------
// Every block of `c` after an `a` or a `b` has length at least two

/// A block of `c` of length one that follows an `a` or a `b` stands at position `i`.
pub open spec fn short_c_after_letter_at(w: Seq<u8>, i: int) -> bool {
    i > 0 && single_c_at(w, i)
}

/// Every block of `c` that follows an `a` or a `b` has length at least two.
pub open spec fn c_blocks_after_letters_long(w: Seq<u8>) -> bool {
    forall|i: int| 0 <= i < w.len() ==> !#[trigger] short_c_after_letter_at(w, i)
}

/// No block of `c` that ends before the last byte and follows an `a` or a
/// `b` has length one.
pub open spec fn no_closed_short_c(w: Seq<u8>) -> bool {
    forall|i: int| 0 <= i && i + 1 < w.len() ==> !#[trigger] short_c_after_letter_at(w, i)
}

/// The state of the `abc` automaton after `w`, described by `w`.
pub open spec fn abc_state_of(w: Seq<u8>) -> AbcInvState {
    if !(is_letter_word(w) && no_closed_short_c(w)) {
        AbcInvState::Dead
    } else if w.len() == 0 {
        AbcInvState::Abc0
    } else if w[w.len() - 1] == LETTER_C {
        if short_c_after_letter_at(w, w.len() - 1) {
            AbcInvState::AbcNE
        } else {
            AbcInvState::AbcC
        }
    } else {
        AbcInvState::AbcAB
    }
}

/// The `abc` automaton reaches the state that `abc_state_of` describes.
pub proof fn lemma_abc_run(w: Seq<u8>)
    ensures
        AbcInvState::run(w) == abc_state_of(w),
    decreases w.len(),
{
    if w.len() > 0 {
        let v = w.drop_last();
        lemma_abc_run(v);
        lemma_letter_word_extend(w);
        let n: int = w.len() as int;
        assert forall|i: int| 0 <= i && i + 1 < v.len() implies #[trigger] short_c_after_letter_at(
            v,
            i,
        ) == short_c_after_letter_at(w, i) by {
            assert(v[i] == w[i] && v[i + 1] == w[i + 1]);
            if i > 0 {
                assert(v[i - 1] == w[i - 1]);
            }
        }
        if n >= 2 {
            assert(v[n - 2] == w[n - 2]);
            assert(c_block_starts(v, n - 2) == c_block_starts(w, n - 2));
        }
        if n >= 3 {
            assert(v[n - 3] == w[n - 3]);
        }
        if no_closed_short_c(v) && !(n >= 2 && short_c_after_letter_at(w, n - 2)) {
            assert forall|i: int| 0 <= i && i + 1 < w.len() implies !#[trigger] short_c_after_letter_at(
                w,
                i,
            ) by {
                if i + 1 < v.len() {
                    assert(!short_c_after_letter_at(v, i));
                }
            }
        }
        if no_closed_short_c(w) {
            assert forall|i: int| 0 <= i && i + 1 < v.len() implies !#[trigger] short_c_after_letter_at(
                v,
                i,
            ) by {
                assert(!short_c_after_letter_at(w, i));
            }
            if n >= 2 {
                assert(!short_c_after_letter_at(w, n - 2));
            }
        }
    }
}

/// The `abc` automaton accepts exactly the words of letters in which every
/// block of `c` that follows an `a` or a `b` has length at least two.
pub proof fn lemma_abc_language(w: Seq<u8>)
    ensures
        AbcInvState::run(w).accepting() == (is_letter_word(w) && c_blocks_after_letters_long(w)),
{
    lemma_abc_run(w);
    if c_blocks_after_letters_long(w) {
        assert forall|i: int| 0 <= i && i + 1 < w.len() implies !#[trigger] short_c_after_letter_at(
            w,
            i,
        ) by {
            assert(!short_c_after_letter_at(w, i));
        }
        if w.len() >= 1 {
            assert(!short_c_after_letter_at(w, w.len() - 1));
        }
    }
    if no_closed_short_c(w) && (w.len() == 0 || !short_c_after_letter_at(w, w.len() - 1)) {
        assert forall|i: int| 0 <= i < w.len() implies !#[trigger] short_c_after_letter_at(w, i) by {
            if i + 1 < w.len() {
                assert(!short_c_after_letter_at(w, i));
            }
        }
    }
}

// ---------------------------------------------------------------------------
// No block of `b` of length exactly two

/// A block of `b` of length exactly two starts at position `i`.
pub open spec fn bb_block_at(w: Seq<u8>, i: int) -> bool {
    &&& w[i] == LETTER_B
    &&& w[i + 1] == LETTER_B
    &&& (i == 0 || w[i - 1] != LETTER_B)
    &&& (i + 2 == w.len() || w[i + 2] != LETTER_B)
}

/// No block of `b` has length exactly two.
pub open spec fn no_bb_block(w: Seq<u8>) -> bool {
    forall|i: int| 0 <= i && i + 1 < w.len() ==> !#[trigger] bb_block_at(w, i)
}

/// No block of `b` that ends before the last byte has length exactly two.
pub open spec fn no_closed_bb_block(w: Seq<u8>) -> bool {
    forall|i: int| 0 <= i && i + 2 < w.len() ==> !#[trigger] bb_block_at(w, i)
}

/// The state of the `bb` automaton after `w`, described by `w`.
pub open spec fn bb_state_of(w: Seq<u8>) -> NoBBBlockLen2State {
    let n: int = w.len() as int;
    if !(is_letter_word(w) && no_closed_bb_block(w)) {
        NoBBBlockLen2State::Dead
    } else if n >= 1 && w[n - 1] == LETTER_B {
        if n == 1 || w[n - 2] != LETTER_B {
            NoBBBlockLen2State::Bb1
        } else if n == 2 || w[n - 3] != LETTER_B {
            NoBBBlockLen2State::Bb2
        } else {
            NoBBBlockLen2State::Bb3
        }
    } else {
        NoBBBlockLen2State::Bb0
    }
}

/// The `bb` automaton reaches the state that `bb_state_of` describes.
pub proof fn lemma_bb_run(w: Seq<u8>)
    ensures
        NoBBBlockLen2State::run(w) == bb_state_of(w),
    decreases w.len(),
{
    if w.len() > 0 {
        let v = w.drop_last();
        lemma_bb_run(v);
        lemma_letter_word_extend(w);
        let n: int = w.len() as int;
        assert forall|i: int| 0 <= i && i + 2 < v.len() implies #[trigger] bb_block_at(v, i)
            == bb_block_at(w, i) by {
            assert(v[i] == w[i] && v[i + 1] == w[i + 1] && v[i + 2] == w[i + 2]);
            if i > 0 {
                assert(v[i - 1] == w[i - 1]);
            }
        }
        if n >= 2 {
            assert(v[n - 2] == w[n - 2]);
        }
        if n >= 3 {
            assert(v[n - 3] == w[n - 3]);
        }
        if n >= 4 {
            assert(v[n - 4] == w[n - 4]);
        }
        if no_closed_bb_block(v) && !(n >= 3 && bb_block_at(w, n - 3)) {
            assert forall|i: int| 0 <= i && i + 2 < w.len() implies !#[trigger] bb_block_at(w, i) by {
                if i + 2 < v.len() {
                    assert(!bb_block_at(v, i));
                }
            }
        }
        if no_closed_bb_block(w) {
            assert forall|i: int| 0 <= i && i + 2 < v.len() implies !#[trigger] bb_block_at(v, i) by {
                assert(!bb_block_at(w, i));
            }
            if n >= 3 {
                assert(!bb_block_at(w, n - 3));
            }
        }
    }
}

/// The `bb` automaton accepts exactly the words of letters in which no block
/// of `b` has length exactly two.
pub proof fn lemma_bb_language(w: Seq<u8>)
    ensures
        NoBBBlockLen2State::run(w).accepting() == (is_letter_word(w) && no_bb_block(w)),
{
    lemma_bb_run(w);
    let n: int = w.len() as int;
    if no_bb_block(w) {
        assert forall|i: int| 0 <= i && i + 2 < w.len() implies !#[trigger] bb_block_at(w, i) by {
            assert(!bb_block_at(w, i));
        }
        if n >= 2 {
            assert(!bb_block_at(w, n - 2));
        }
    }
    if no_closed_bb_block(w) && (n < 2 || !bb_block_at(w, n - 2)) {
        assert forall|i: int| 0 <= i && i + 1 < w.len() implies !#[trigger] bb_block_at(w, i) by {
            if i + 2 < w.len() {
                assert(!bb_block_at(w, i));
            }
        }
    }
}

// ---------------------------------------------------------------------------
// No factor `c`, `a` or `b`, `c`

/// The word has a factor `c` `x` `c` with `x` an `a` or a `b` at position `i`.
pub open spec fn cxc_at(w: Seq<u8>, i: int) -> bool {
    w[i] == LETTER_C && (w[i + 1] == LETTER_A || w[i + 1] == LETTER_B) && w[i + 2] == LETTER_C
}

/// The word has no factor `c` `x` `c` with `x` an `a` or a `b`.
pub open spec fn avoids_cxc(w: Seq<u8>) -> bool {
    forall|i: int| 0 <= i && i + 2 < w.len() ==> !#[trigger] cxc_at(w, i)
}

/// The state of the `cxc` automaton after `w`, described by `w`.
pub open spec fn cxc_state_of(w: Seq<u8>) -> NoCBlockAorBThenCState {
    let n: int = w.len() as int;
    if !(is_letter_word(w) && avoids_cxc(w)) {
        NoCBlockAorBThenCState::Dead
    } else if n >= 1 && w[n - 1] == LETTER_C {
        NoCBlockAorBThenCState::CbC
    } else if n >= 2 && w[n - 2] == LETTER_C {
        NoCBlockAorBThenCState::Cb1
    } else {
        NoCBlockAorBThenCState::Cb0
    }
}

/// The `cxc` automaton reaches the state that `cxc_state_of` describes.
pub proof fn lemma_cxc_run(w: Seq<u8>)
    ensures
        NoCBlockAorBThenCState::run(w) == cxc_state_of(w),
    decreases w.len(),
{
    if w.len() > 0 {
        let v = w.drop_last();
        lemma_cxc_run(v);
        lemma_letter_word_extend(w);
        let n: int = w.len() as int;
        assert forall|i: int| 0 <= i && i + 2 < v.len() implies #[trigger] cxc_at(v, i) == cxc_at(w, i) by {
            assert(v[i] == w[i] && v[i + 1] == w[i + 1] && v[i + 2] == w[i + 2]);
        }
        if n >= 2 {
            assert(v[n - 2] == w[n - 2]);
        }
        if n >= 3 {
            assert(v[n - 3] == w[n - 3]);
        }
        if avoids_cxc(v) && !(n >= 3 && cxc_at(w, n - 3)) {
            assert forall|i: int| 0 <= i && i + 2 < w.len() implies !#[trigger] cxc_at(w, i) by {
                if i + 2 < v.len() {
                    assert(!cxc_at(v, i));
                }
            }
        }
        if avoids_cxc(w) {
            assert forall|i: int| 0 <= i && i + 2 < v.len() implies !#[trigger] cxc_at(v, i) by {
                assert(!cxc_at(w, i));
            }
            if n >= 3 {
                assert(!cxc_at(w, n - 3));
            }
        }
    }
}

/// The `cxc` automaton accepts exactly the words of letters without a factor
/// `c` `x` `c` where `x` is an `a` or a `b`.
pub proof fn lemma_cxc_language(w: Seq<u8>)
    ensures
        NoCBlockAorBThenCState::run(w).accepting() == (is_letter_word(w) && avoids_cxc(w)),
{
    lemma_cxc_run(w);
}

} // verus!

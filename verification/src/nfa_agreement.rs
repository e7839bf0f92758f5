//! The subset simulation of the nondeterministic automaton and the
//! deterministic automaton accept the same words.

use vstd::prelude::*;
use crate::nfa::{
    holds, NFA_EPS, NFA_TRANS_A, NFA_TRANS_B, NFA_TRANS_C, image, pick, step_image,
    closure, NfaState, bit, nfa_step, nfa_run, nfa_accepts_word,
};
use crate::alphabet::{LETTER_A, LETTER_B, LETTER_C, is_letter};
use crate::dfa::{DfaState, dfa_run, dfa_accepts_word};

verus! {

/// `step_image(NFA_EPS@, s)`, written out row by row.
#[verifier::opaque]
pub open spec fn eps_moves(s: u64) -> u64 {
    0
        | pick(s, 0, 0x2) | pick(s, 1, 0x20000) | pick(s, 2, 0x0)
        | pick(s, 3, 0x0) | pick(s, 4, 0x0) | pick(s, 5, 0x0)
        | pick(s, 6, 0x0) | pick(s, 7, 0x1) | pick(s, 8, 0x0)
        | pick(s, 9, 0x0) | pick(s, 10, 0x0) | pick(s, 11, 0x0)
        | pick(s, 12, 0x0) | pick(s, 13, 0x0) | pick(s, 14, 0x0)
        | pick(s, 15, 0x2) | pick(s, 16, 0x0) | pick(s, 17, 0x0)
        | pick(s, 18, 0x0) | pick(s, 19, 0x0) | pick(s, 20, 0x0)
        | pick(s, 21, 0x0) | pick(s, 22, 0x0) | pick(s, 23, 0x20000)
        | pick(s, 24, 0x0) | pick(s, 25, 0x0)
}

/// `step_image(NFA_TRANS_A@, s)`, written out row by row.
#[verifier::opaque]
pub open spec fn a_moves(s: u64) -> u64 {
    0
        | pick(s, 0, 0x4) | pick(s, 1, 0x400) | pick(s, 2, 0x9)
        | pick(s, 3, 0x1) | pick(s, 4, 0x0) | pick(s, 5, 0x0)
        | pick(s, 6, 0x0) | pick(s, 7, 0x0) | pick(s, 8, 0x0)
        | pick(s, 9, 0x0) | pick(s, 10, 0x802) | pick(s, 11, 0x0)
        | pick(s, 12, 0x0) | pick(s, 13, 0x0) | pick(s, 14, 0x0)
        | pick(s, 15, 0x0) | pick(s, 16, 0x0) | pick(s, 17, 0x40000)
        | pick(s, 18, 0xa0000) | pick(s, 19, 0x20000) | pick(s, 20, 0x0)
        | pick(s, 21, 0x0) | pick(s, 22, 0x0) | pick(s, 23, 0x0)
        | pick(s, 24, 0x0) | pick(s, 25, 0x0)
}

/// `step_image(NFA_TRANS_B@, s)`, written out row by row.
#[verifier::opaque]
pub open spec fn b_moves(s: u64) -> u64 {
    0
        | pick(s, 0, 0x10) | pick(s, 1, 0x1000) | pick(s, 2, 0x80)
        | pick(s, 3, 0x0) | pick(s, 4, 0x20) | pick(s, 5, 0x1)
        | pick(s, 6, 0x0) | pick(s, 7, 0x0) | pick(s, 8, 0x0)
        | pick(s, 9, 0x0) | pick(s, 10, 0x0) | pick(s, 11, 0x8000)
        | pick(s, 12, 0x2000) | pick(s, 13, 0x4002) | pick(s, 14, 0x2)
        | pick(s, 15, 0x0) | pick(s, 16, 0x0) | pick(s, 17, 0x100000)
        | pick(s, 18, 0x800000) | pick(s, 19, 0x0) | pick(s, 20, 0x200000)
        | pick(s, 21, 0x20000) | pick(s, 22, 0x0) | pick(s, 23, 0x0)
        | pick(s, 24, 0x0) | pick(s, 25, 0x0)
}

/// `step_image(NFA_TRANS_C@, s)`, written out row by row.
#[verifier::opaque]
pub open spec fn c_moves(s: u64) -> u64 {
    0
        | pick(s, 0, 0x40) | pick(s, 1, 0x0) | pick(s, 2, 0x0)
        | pick(s, 3, 0x0) | pick(s, 4, 0x0) | pick(s, 5, 0x0)
        | pick(s, 6, 0x1) | pick(s, 7, 0x100) | pick(s, 8, 0x200)
        | pick(s, 9, 0x80) | pick(s, 10, 0x0) | pick(s, 11, 0x0)
        | pick(s, 12, 0x0) | pick(s, 13, 0x0) | pick(s, 14, 0x0)
        | pick(s, 15, 0x10000) | pick(s, 16, 0x8000) | pick(s, 17, 0x400000)
        | pick(s, 18, 0x0) | pick(s, 19, 0x0) | pick(s, 20, 0x0)
        | pick(s, 21, 0x0) | pick(s, 22, 0x20000) | pick(s, 23, 0x1000000)
        | pick(s, 24, 0x2000000) | pick(s, 25, 0x800000)
}

/// The written-out rows agree with the tables.
pub proof fn lemma_moves_written_out(s: u64)
    ensures
        step_image(NFA_EPS@, s) == eps_moves(s),
        step_image(NFA_TRANS_A@, s) == a_moves(s),
        step_image(NFA_TRANS_B@, s) == b_moves(s),
        step_image(NFA_TRANS_C@, s) == c_moves(s),
{
    reveal_with_fuel(image, 27);
    reveal(eps_moves);
    reveal(a_moves);
    reveal(b_moves);
    reveal(c_moves);
}

/// One round of epsilon moves added to `s`.
#[verifier::opaque]
pub open spec fn eps_round(s: u64) -> u64 {
    s | eps_moves(s)
}

/// Three rounds of epsilon moves: the longest chain of epsilon moves,
/// `ALAbLoop` to `ALStar` to `Mid` to `RStar`, has three of them.
pub open spec fn eps_rounds(s: u64) -> u64 {
    eps_round(eps_round(eps_round(s)))
}

proof fn lemma_three_rounds_suffice(s: u64, s1: u64, s2: u64, s3: u64)
    by (bit_vector)
    requires
        s1 == eps_round(s),
        s2 == eps_round(s1),
        s3 == eps_round(s2),
    ensures
        eps_round(s3) == s3,
{
}

proof fn lemma_new_bits_make_a_round(s: u64)
    by (bit_vector)
    ensures
        s | (eps_moves(s) & !s) == eps_round(s),
        (eps_moves(s) & !s == 0) == (eps_round(s) == s),
{
}

/// The epsilon closure of the automaton takes at most three rounds.
pub proof fn lemma_closure_is_three_rounds(s: u64)
    ensures
        closure(NFA_EPS@, s) == eps_rounds(s),
{
    let s1 = eps_round(s);
    let s2 = eps_round(s1);
    let s3 = eps_round(s2);
    lemma_moves_written_out(s);
    lemma_moves_written_out(s1);
    lemma_moves_written_out(s2);
    lemma_moves_written_out(s3);
    lemma_new_bits_make_a_round(s);
    lemma_new_bits_make_a_round(s1);
    lemma_new_bits_make_a_round(s2);
    lemma_new_bits_make_a_round(s3);
    lemma_three_rounds_suffice(s, s1, s2, s3);
    if s1 != s {
        assert(closure(NFA_EPS@, s) == closure(NFA_EPS@, s1));
        if s2 != s1 {
            assert(closure(NFA_EPS@, s1) == closure(NFA_EPS@, s2));
            if s3 != s2 {
                assert(closure(NFA_EPS@, s2) == closure(NFA_EPS@, s3));
                assert(closure(NFA_EPS@, s3) == s3);
            }
        }
    }
}

/// The moves on `a` from the masks that the automaton reaches.
proof fn lemma_a_moves_of_reached_sets()
    by (bit_vector)
    ensures
        a_moves(0x0) == 0x0,
        a_moves(0x20000) == 0x40000,
        a_moves(0x20003) == 0x40404,
        a_moves(0x24002) == 0x40400,
        a_moves(0x24003) == 0x40404,
        a_moves(0x28002) == 0x40400,
        a_moves(0x40000) == 0xa0000,
        a_moves(0x40400) == 0xa0802,
        a_moves(0x40404) == 0xa080b,
        a_moves(0x60000) == 0xe0000,
        a_moves(0x60400) == 0xe0802,
        a_moves(0x60407) == 0xe0c0f,
        a_moves(0xa0000) == 0x60000,
        a_moves(0xa0802) == 0x60400,
        a_moves(0xa080b) == 0x60405,
        a_moves(0xe0000) == 0xe0000,
        a_moves(0xe0400) == 0xe0802,
        a_moves(0xe0802) == 0xe0400,
        a_moves(0xe0c0f) == 0xe0c0f,
        a_moves(0x100000) == 0x0,
        a_moves(0x101000) == 0x0,
        a_moves(0x101010) == 0x0,
        a_moves(0x120000) == 0x40000,
        a_moves(0x121002) == 0x40400,
        a_moves(0x121012) == 0x40400,
        a_moves(0x125002) == 0x40400,
        a_moves(0x125012) == 0x40400,
        a_moves(0x125013) == 0x40404,
        a_moves(0x129002) == 0x40400,
        a_moves(0x129012) == 0x40400,
        a_moves(0x200000) == 0x0,
        a_moves(0x202000) == 0x0,
        a_moves(0x202020) == 0x0,
        a_moves(0x220000) == 0x40000,
        a_moves(0x226002) == 0x40400,
        a_moves(0x226003) == 0x40404,
        a_moves(0x226023) == 0x40404,
        a_moves(0x300000) == 0x0,
        a_moves(0x303000) == 0x0,
        a_moves(0x303020) == 0x0,
        a_moves(0x303030) == 0x0,
        a_moves(0x323002) == 0x40400,
        a_moves(0x323022) == 0x40400,
        a_moves(0x323032) == 0x40400,
        a_moves(0x327002) == 0x40400,
        a_moves(0x327003) == 0x40404,
        a_moves(0x327012) == 0x40400,
        a_moves(0x327013) == 0x40404,
        a_moves(0x327022) == 0x40400,
        a_moves(0x327023) == 0x40404,
        a_moves(0x327032) == 0x40400,
        a_moves(0x400000) == 0x0,
        a_moves(0x400040) == 0x0,
        a_moves(0x410000) == 0x0,
        a_moves(0x820000) == 0x40000,
        a_moves(0x820083) == 0x40404,
        a_moves(0x920000) == 0x40000,
        a_moves(0x921093) == 0x40404,
        a_moves(0x929002) == 0x40400,
        a_moves(0x929093) == 0x40404,
        a_moves(0xc20000) == 0x40000,
        a_moves(0xc200c3) == 0x40404,
        a_moves(0xc28002) == 0x40400,
        a_moves(0xc280c3) == 0x40404,
        a_moves(0xc30000) == 0x40000,
        a_moves(0xc300c3) == 0x40404,
        a_moves(0x1400000) == 0x0,
        a_moves(0x1400140) == 0x0,
        a_moves(0x1410000) == 0x0,
        a_moves(0x1410140) == 0x0,
        a_moves(0x1420000) == 0x40000,
        a_moves(0x1420143) == 0x40404,
        a_moves(0x1428002) == 0x40400,
        a_moves(0x1428143) == 0x40404,
        a_moves(0x1430000) == 0x40000,
        a_moves(0x1430143) == 0x40404,
        a_moves(0x2020000) == 0x40000,
        a_moves(0x2020203) == 0x40404,
        a_moves(0x2028002) == 0x40400,
        a_moves(0x2028203) == 0x40404,
        a_moves(0x2420000) == 0x40000,
        a_moves(0x2420243) == 0x40404,
        a_moves(0x2428002) == 0x40400,
        a_moves(0x2428243) == 0x40404,
        a_moves(0x2430000) == 0x40000,
        a_moves(0x2430243) == 0x40404,
{
}

/// The moves on `b` from the masks that the automaton reaches.
proof fn lemma_b_moves_of_reached_sets()
    by (bit_vector)
    ensures
        b_moves(0x0) == 0x0,
        b_moves(0x20000) == 0x100000,
        b_moves(0x20003) == 0x101010,
        b_moves(0x24002) == 0x101002,
        b_moves(0x24003) == 0x101012,
        b_moves(0x28002) == 0x101000,
        b_moves(0x40000) == 0x800000,
        b_moves(0x40400) == 0x800000,
        b_moves(0x40404) == 0x800080,
        b_moves(0x60000) == 0x900000,
        b_moves(0x60400) == 0x900000,
        b_moves(0x60407) == 0x901090,
        b_moves(0xa0000) == 0x100000,
        b_moves(0xa0802) == 0x109000,
        b_moves(0xa080b) == 0x109010,
        b_moves(0xe0000) == 0x900000,
        b_moves(0xe0400) == 0x900000,
        b_moves(0xe0802) == 0x909000,
        b_moves(0xe0c0f) == 0x909090,
        b_moves(0x100000) == 0x200000,
        b_moves(0x101000) == 0x202000,
        b_moves(0x101010) == 0x202020,
        b_moves(0x120000) == 0x300000,
        b_moves(0x121002) == 0x303000,
        b_moves(0x121012) == 0x303020,
        b_moves(0x125002) == 0x303002,
        b_moves(0x125012) == 0x303022,
        b_moves(0x125013) == 0x303032,
        b_moves(0x129002) == 0x303000,
        b_moves(0x129012) == 0x303020,
        b_moves(0x200000) == 0x20000,
        b_moves(0x202000) == 0x24002,
        b_moves(0x202020) == 0x24003,
        b_moves(0x220000) == 0x120000,
        b_moves(0x226002) == 0x125002,
        b_moves(0x226003) == 0x125012,
        b_moves(0x226023) == 0x125013,
        b_moves(0x300000) == 0x220000,
        b_moves(0x303000) == 0x226002,
        b_moves(0x303020) == 0x226003,
        b_moves(0x303030) == 0x226023,
        b_moves(0x323002) == 0x327002,
        b_moves(0x323022) == 0x327003,
        b_moves(0x323032) == 0x327023,
        b_moves(0x327002) == 0x327002,
        b_moves(0x327003) == 0x327012,
        b_moves(0x327012) == 0x327022,
        b_moves(0x327013) == 0x327032,
        b_moves(0x327022) == 0x327003,
        b_moves(0x327023) == 0x327013,
        b_moves(0x327032) == 0x327023,
        b_moves(0x400000) == 0x0,
        b_moves(0x400040) == 0x0,
        b_moves(0x410000) == 0x0,
        b_moves(0x820000) == 0x100000,
        b_moves(0x820083) == 0x101010,
        b_moves(0x920000) == 0x300000,
        b_moves(0x921093) == 0x303030,
        b_moves(0x929002) == 0x303000,
        b_moves(0x929093) == 0x303030,
        b_moves(0xc20000) == 0x100000,
        b_moves(0xc200c3) == 0x101010,
        b_moves(0xc28002) == 0x101000,
        b_moves(0xc280c3) == 0x101010,
        b_moves(0xc30000) == 0x100000,
        b_moves(0xc300c3) == 0x101010,
        b_moves(0x1400000) == 0x0,
        b_moves(0x1400140) == 0x0,
        b_moves(0x1410000) == 0x0,
        b_moves(0x1410140) == 0x0,
        b_moves(0x1420000) == 0x100000,
        b_moves(0x1420143) == 0x101010,
        b_moves(0x1428002) == 0x101000,
        b_moves(0x1428143) == 0x101010,
        b_moves(0x1430000) == 0x100000,
        b_moves(0x1430143) == 0x101010,
        b_moves(0x2020000) == 0x100000,
        b_moves(0x2020203) == 0x101010,
        b_moves(0x2028002) == 0x101000,
        b_moves(0x2028203) == 0x101010,
        b_moves(0x2420000) == 0x100000,
        b_moves(0x2420243) == 0x101010,
        b_moves(0x2428002) == 0x101000,
        b_moves(0x2428243) == 0x101010,
        b_moves(0x2430000) == 0x100000,
        b_moves(0x2430243) == 0x101010,
{
}

/// The moves on `c` from the masks that the automaton reaches.
proof fn lemma_c_moves_of_reached_sets()
    by (bit_vector)
    ensures
        c_moves(0x0) == 0x0,
        c_moves(0x20000) == 0x400000,
        c_moves(0x20003) == 0x400040,
        c_moves(0x24002) == 0x400000,
        c_moves(0x24003) == 0x400040,
        c_moves(0x28002) == 0x410000,
        c_moves(0x40000) == 0x0,
        c_moves(0x40400) == 0x0,
        c_moves(0x40404) == 0x0,
        c_moves(0x60000) == 0x400000,
        c_moves(0x60400) == 0x400000,
        c_moves(0x60407) == 0x400040,
        c_moves(0xa0000) == 0x400000,
        c_moves(0xa0802) == 0x400000,
        c_moves(0xa080b) == 0x400040,
        c_moves(0xe0000) == 0x400000,
        c_moves(0xe0400) == 0x400000,
        c_moves(0xe0802) == 0x400000,
        c_moves(0xe0c0f) == 0x400040,
        c_moves(0x100000) == 0x0,
        c_moves(0x101000) == 0x0,
        c_moves(0x101010) == 0x0,
        c_moves(0x120000) == 0x400000,
        c_moves(0x121002) == 0x400000,
        c_moves(0x121012) == 0x400000,
        c_moves(0x125002) == 0x400000,
        c_moves(0x125012) == 0x400000,
        c_moves(0x125013) == 0x400040,
        c_moves(0x129002) == 0x410000,
        c_moves(0x129012) == 0x410000,
        c_moves(0x200000) == 0x0,
        c_moves(0x202000) == 0x0,
        c_moves(0x202020) == 0x0,
        c_moves(0x220000) == 0x400000,
        c_moves(0x226002) == 0x400000,
        c_moves(0x226003) == 0x400040,
        c_moves(0x226023) == 0x400040,
        c_moves(0x300000) == 0x0,
        c_moves(0x303000) == 0x0,
        c_moves(0x303020) == 0x0,
        c_moves(0x303030) == 0x0,
        c_moves(0x323002) == 0x400000,
        c_moves(0x323022) == 0x400000,
        c_moves(0x323032) == 0x400000,
        c_moves(0x327002) == 0x400000,
        c_moves(0x327003) == 0x400040,
        c_moves(0x327012) == 0x400000,
        c_moves(0x327013) == 0x400040,
        c_moves(0x327022) == 0x400000,
        c_moves(0x327023) == 0x400040,
        c_moves(0x327032) == 0x400000,
        c_moves(0x400000) == 0x20000,
        c_moves(0x400040) == 0x20001,
        c_moves(0x410000) == 0x28000,
        c_moves(0x820000) == 0x1400000,
        c_moves(0x820083) == 0x1400140,
        c_moves(0x920000) == 0x1400000,
        c_moves(0x921093) == 0x1400140,
        c_moves(0x929002) == 0x1410000,
        c_moves(0x929093) == 0x1410140,
        c_moves(0xc20000) == 0x1420000,
        c_moves(0xc200c3) == 0x1420141,
        c_moves(0xc28002) == 0x1430000,
        c_moves(0xc280c3) == 0x1430141,
        c_moves(0xc30000) == 0x1428000,
        c_moves(0xc300c3) == 0x1428141,
        c_moves(0x1400000) == 0x2020000,
        c_moves(0x1400140) == 0x2020201,
        c_moves(0x1410000) == 0x2028000,
        c_moves(0x1410140) == 0x2028201,
        c_moves(0x1420000) == 0x2420000,
        c_moves(0x1420143) == 0x2420241,
        c_moves(0x1428002) == 0x2430000,
        c_moves(0x1428143) == 0x2430241,
        c_moves(0x1430000) == 0x2428000,
        c_moves(0x1430143) == 0x2428241,
        c_moves(0x2020000) == 0xc00000,
        c_moves(0x2020203) == 0xc000c0,
        c_moves(0x2028002) == 0xc10000,
        c_moves(0x2028203) == 0xc100c0,
        c_moves(0x2420000) == 0xc20000,
        c_moves(0x2420243) == 0xc200c1,
        c_moves(0x2428002) == 0xc30000,
        c_moves(0x2428243) == 0xc300c1,
        c_moves(0x2430000) == 0xc28000,
        c_moves(0x2430243) == 0xc280c1,
{
}

/// The rounds of epsilon moves that the closures of reached masks take.
proof fn lemma_rounds_of_reached_sets()
    by (bit_vector)
    ensures
        eps_round(0x0) == 0x0,
        eps_round(0x1) == 0x3,
        eps_round(0x3) == 0x20003,
        eps_round(0x20000) == 0x20000,
        eps_round(0x20001) == 0x20003,
        eps_round(0x20003) == 0x20003,
        eps_round(0x24002) == 0x24002,
        eps_round(0x24003) == 0x24003,
        eps_round(0x28000) == 0x28002,
        eps_round(0x28002) == 0x28002,
        eps_round(0x40000) == 0x40000,
        eps_round(0x40400) == 0x40400,
        eps_round(0x40404) == 0x40404,
        eps_round(0x60000) == 0x60000,
        eps_round(0x60400) == 0x60400,
        eps_round(0x60405) == 0x60407,
        eps_round(0x60407) == 0x60407,
        eps_round(0xa0000) == 0xa0000,
        eps_round(0xa0802) == 0xa0802,
        eps_round(0xa080b) == 0xa080b,
        eps_round(0xe0000) == 0xe0000,
        eps_round(0xe0400) == 0xe0400,
        eps_round(0xe0802) == 0xe0802,
        eps_round(0xe0c0f) == 0xe0c0f,
        eps_round(0x100000) == 0x100000,
        eps_round(0x101000) == 0x101000,
        eps_round(0x101002) == 0x121002,
        eps_round(0x101010) == 0x101010,
        eps_round(0x101012) == 0x121012,
        eps_round(0x109000) == 0x109002,
        eps_round(0x109002) == 0x129002,
        eps_round(0x109010) == 0x109012,
        eps_round(0x109012) == 0x129012,
        eps_round(0x120000) == 0x120000,
        eps_round(0x121002) == 0x121002,
        eps_round(0x121012) == 0x121012,
        eps_round(0x125002) == 0x125002,
        eps_round(0x125012) == 0x125012,
        eps_round(0x125013) == 0x125013,
        eps_round(0x129002) == 0x129002,
        eps_round(0x129012) == 0x129012,
        eps_round(0x200000) == 0x200000,
        eps_round(0x202000) == 0x202000,
        eps_round(0x202020) == 0x202020,
        eps_round(0x220000) == 0x220000,
        eps_round(0x226002) == 0x226002,
        eps_round(0x226003) == 0x226003,
        eps_round(0x226023) == 0x226023,
        eps_round(0x300000) == 0x300000,
        eps_round(0x303000) == 0x303000,
        eps_round(0x303002) == 0x323002,
        eps_round(0x303020) == 0x303020,
        eps_round(0x303022) == 0x323022,
        eps_round(0x303030) == 0x303030,
        eps_round(0x303032) == 0x323032,
        eps_round(0x323002) == 0x323002,
        eps_round(0x323022) == 0x323022,
        eps_round(0x323032) == 0x323032,
        eps_round(0x327002) == 0x327002,
        eps_round(0x327003) == 0x327003,
        eps_round(0x327012) == 0x327012,
        eps_round(0x327013) == 0x327013,
        eps_round(0x327022) == 0x327022,
        eps_round(0x327023) == 0x327023,
        eps_round(0x327032) == 0x327032,
        eps_round(0x400000) == 0x400000,
        eps_round(0x400040) == 0x400040,
        eps_round(0x410000) == 0x410000,
        eps_round(0x800000) == 0x820000,
        eps_round(0x800080) == 0x820081,
        eps_round(0x820000) == 0x820000,
        eps_round(0x820081) == 0x820083,
        eps_round(0x820083) == 0x820083,
        eps_round(0x900000) == 0x920000,
        eps_round(0x901090) == 0x921091,
        eps_round(0x909000) == 0x929002,
        eps_round(0x909090) == 0x929093,
        eps_round(0x920000) == 0x920000,
        eps_round(0x921091) == 0x921093,
        eps_round(0x921093) == 0x921093,
        eps_round(0x929002) == 0x929002,
        eps_round(0x929093) == 0x929093,
        eps_round(0xc00000) == 0xc20000,
        eps_round(0xc000c0) == 0xc200c1,
        eps_round(0xc10000) == 0xc30000,
        eps_round(0xc100c0) == 0xc300c1,
        eps_round(0xc20000) == 0xc20000,
        eps_round(0xc200c1) == 0xc200c3,
        eps_round(0xc200c3) == 0xc200c3,
        eps_round(0xc28000) == 0xc28002,
        eps_round(0xc28002) == 0xc28002,
        eps_round(0xc280c1) == 0xc280c3,
        eps_round(0xc280c3) == 0xc280c3,
        eps_round(0xc30000) == 0xc30000,
        eps_round(0xc300c1) == 0xc300c3,
        eps_round(0xc300c3) == 0xc300c3,
        eps_round(0x1400000) == 0x1400000,
        eps_round(0x1400140) == 0x1400140,
        eps_round(0x1410000) == 0x1410000,
        eps_round(0x1410140) == 0x1410140,
        eps_round(0x1420000) == 0x1420000,
        eps_round(0x1420141) == 0x1420143,
        eps_round(0x1420143) == 0x1420143,
        eps_round(0x1428000) == 0x1428002,
        eps_round(0x1428002) == 0x1428002,
        eps_round(0x1428141) == 0x1428143,
        eps_round(0x1428143) == 0x1428143,
        eps_round(0x1430000) == 0x1430000,
        eps_round(0x1430141) == 0x1430143,
        eps_round(0x1430143) == 0x1430143,
        eps_round(0x2020000) == 0x2020000,
        eps_round(0x2020201) == 0x2020203,
        eps_round(0x2020203) == 0x2020203,
        eps_round(0x2028000) == 0x2028002,
        eps_round(0x2028002) == 0x2028002,
        eps_round(0x2028201) == 0x2028203,
        eps_round(0x2028203) == 0x2028203,
        eps_round(0x2420000) == 0x2420000,
        eps_round(0x2420241) == 0x2420243,
        eps_round(0x2420243) == 0x2420243,
        eps_round(0x2428000) == 0x2428002,
        eps_round(0x2428002) == 0x2428002,
        eps_round(0x2428241) == 0x2428243,
        eps_round(0x2428243) == 0x2428243,
        eps_round(0x2430000) == 0x2430000,
        eps_round(0x2430241) == 0x2430243,
        eps_round(0x2430243) == 0x2430243,
{
}

/// Which reached masks hold the final state `RStar`, bit 17.
proof fn lemma_acceptance_of_reached_sets()
    by (bit_vector)
    ensures
        (1u64 << 0u8) == 1,
        (1u64 << 17u8) == 0x20000,
        0x0 & 0x20000 == 0,
        0x20000 & 0x20000 != 0,
        0x20003 & 0x20000 != 0,
        0x24002 & 0x20000 != 0,
        0x24003 & 0x20000 != 0,
        0x28002 & 0x20000 != 0,
        0x40000 & 0x20000 == 0,
        0x40400 & 0x20000 == 0,
        0x40404 & 0x20000 == 0,
        0x60000 & 0x20000 != 0,
        0x60400 & 0x20000 != 0,
        0x60407 & 0x20000 != 0,
        0xa0000 & 0x20000 != 0,
        0xa0802 & 0x20000 != 0,
        0xa080b & 0x20000 != 0,
        0xe0000 & 0x20000 != 0,
        0xe0400 & 0x20000 != 0,
        0xe0802 & 0x20000 != 0,
        0xe0c0f & 0x20000 != 0,
        0x100000 & 0x20000 == 0,
        0x101000 & 0x20000 == 0,
        0x101010 & 0x20000 == 0,
        0x120000 & 0x20000 != 0,
        0x121002 & 0x20000 != 0,
        0x121012 & 0x20000 != 0,
        0x125002 & 0x20000 != 0,
        0x125012 & 0x20000 != 0,
        0x125013 & 0x20000 != 0,
        0x129002 & 0x20000 != 0,
        0x129012 & 0x20000 != 0,
        0x200000 & 0x20000 == 0,
        0x202000 & 0x20000 == 0,
        0x202020 & 0x20000 == 0,
        0x220000 & 0x20000 != 0,
        0x226002 & 0x20000 != 0,
        0x226003 & 0x20000 != 0,
        0x226023 & 0x20000 != 0,
        0x300000 & 0x20000 == 0,
        0x303000 & 0x20000 == 0,
        0x303020 & 0x20000 == 0,
        0x303030 & 0x20000 == 0,
        0x323002 & 0x20000 != 0,
        0x323022 & 0x20000 != 0,
        0x323032 & 0x20000 != 0,
        0x327002 & 0x20000 != 0,
        0x327003 & 0x20000 != 0,
        0x327012 & 0x20000 != 0,
        0x327013 & 0x20000 != 0,
        0x327022 & 0x20000 != 0,
        0x327023 & 0x20000 != 0,
        0x327032 & 0x20000 != 0,
        0x400000 & 0x20000 == 0,
        0x400040 & 0x20000 == 0,
        0x410000 & 0x20000 == 0,
        0x820000 & 0x20000 != 0,
        0x820083 & 0x20000 != 0,
        0x920000 & 0x20000 != 0,
        0x921093 & 0x20000 != 0,
        0x929002 & 0x20000 != 0,
        0x929093 & 0x20000 != 0,
        0xc20000 & 0x20000 != 0,
        0xc200c3 & 0x20000 != 0,
        0xc28002 & 0x20000 != 0,
        0xc280c3 & 0x20000 != 0,
        0xc30000 & 0x20000 != 0,
        0xc300c3 & 0x20000 != 0,
        0x1400000 & 0x20000 == 0,
        0x1400140 & 0x20000 == 0,
        0x1410000 & 0x20000 == 0,
        0x1410140 & 0x20000 == 0,
        0x1420000 & 0x20000 != 0,
        0x1420143 & 0x20000 != 0,
        0x1428002 & 0x20000 != 0,
        0x1428143 & 0x20000 != 0,
        0x1430000 & 0x20000 != 0,
        0x1430143 & 0x20000 != 0,
        0x2020000 & 0x20000 != 0,
        0x2020203 & 0x20000 != 0,
        0x2028002 & 0x20000 != 0,
        0x2028203 & 0x20000 != 0,
        0x2420000 & 0x20000 != 0,
        0x2420243 & 0x20000 != 0,
        0x2428002 & 0x20000 != 0,
        0x2428243 & 0x20000 != 0,
        0x2430000 & 0x20000 != 0,
        0x2430243 & 0x20000 != 0,
{
}

/// The masks of states of the nondeterministic automaton that can stand with
/// the state `q` of the deterministic automaton on a common word.
pub open spec fn masks_fit(q: DfaState, s: u64) -> bool {
    match q {
        DfaState::Q0 => {
            s == 0x20003
        },
        DfaState::Q1 => {
            s == 0x20000
        },
        DfaState::Q2 => {
            s == 0xc20000 || s == 0x1420000 || s == 0x2020000 || s == 0x2420000
        },
        DfaState::Q3 => {
            s == 0x60000 || s == 0xe0000
        },
        DfaState::Q4 => {
            s == 0x226003 || s == 0x327003
        },
        DfaState::Q5 => {
            s == 0x125012 || s == 0x327012
        },
        DfaState::Q6 => {
            s == 0x323022 || s == 0x327022
        },
        DfaState::Q7 => {
            s == 0x125002 || s == 0x226002 || s == 0x323002 || s == 0x327002
        },
        DfaState::Q8 => {
            s == 0x60400 || s == 0xe0400
        },
        DfaState::Q9 => {
            s == 0xc28002 || s == 0x1428002 || s == 0x2028002 || s == 0x2428002
        },
        DfaState::Q10 => {
            s == 0xc30000 || s == 0x1430000 || s == 0x2430000
        },
        DfaState::Q11 => {
            s == 0xe0802
        },
        DfaState::Q12 => {
            s == 0xc200c3 || s == 0xc280c3 || s == 0xc300c3 || s == 0x1420143
            || s == 0x1428143 || s == 0x1430143 || s == 0x2020203 || s == 0x2028203
            || s == 0x2420243 || s == 0x2428243 || s == 0x2430243
        },
        DfaState::Q13 => {
            s == 0x60407 || s == 0xe0c0f
        },
        DfaState::Q14 => {
            s == 0x226023 || s == 0x327023
        },
        DfaState::Q15 => {
            s == 0x125013 || s == 0x327013
        },
        DfaState::Q16 => {
            s == 0x323032 || s == 0x327032
        },
        DfaState::Q17 => {
            s == 0x921093 || s == 0x929093
        },
        DfaState::Q18 => {
            s == 0x1400140 || s == 0x1410140
        },
        DfaState::Q19 => {
            s == 0x40404
        },
        DfaState::Q20 => {
            s == 0x101010
        },
        DfaState::Q21 => {
            s == 0x400040
        },
        DfaState::Q22 => {
            s == 0x202020
        },
        DfaState::Q23 => {
            s == 0x24003
        },
        DfaState::Q24 => {
            s == 0x121012
        },
        DfaState::Q25 => {
            s == 0x40400
        },
        DfaState::Q26 => {
            s == 0x303020
        },
        DfaState::Q27 => {
            s == 0x400000
        },
        DfaState::Q28 => {
            s == 0x40000
        },
        DfaState::Q29 => {
            s == 0x100000
        },
        DfaState::Q30 => {
            s == 0x200000
        },
        DfaState::Q31 => {
            s == 0xa0000
        },
        DfaState::Q32 => {
            s == 0x820000
        },
        DfaState::Q33 => {
            s == 0x1400000
        },
        DfaState::Q34 => {
            s == 0x920000
        },
        DfaState::Q35 => {
            s == 0x300000
        },
        DfaState::Q36 => {
            s == 0x220000
        },
        DfaState::Q37 => {
            s == 0x120000
        },
        DfaState::Q38 => {
            s == 0xa0802
        },
        DfaState::Q39 => {
            s == 0x129002
        },
        DfaState::Q40 => {
            s == 0x303000
        },
        DfaState::Q41 => {
            s == 0x410000
        },
        DfaState::Q42 => {
            s == 0x28002
        },
        DfaState::Q43 => {
            s == 0x101000
        },
        DfaState::Q44 => {
            s == 0x202000
        },
        DfaState::Q45 => {
            s == 0x24002
        },
        DfaState::Q46 => {
            s == 0x121002
        },
        DfaState::Q47 => {
            s == 0x929002
        },
        DfaState::Q48 => {
            s == 0x1410000
        },
        DfaState::Q49 => {
            s == 0xa080b
        },
        DfaState::Q50 => {
            s == 0x820083
        },
        DfaState::Q51 => {
            s == 0x129012
        },
        DfaState::Q52 => {
            s == 0x303030
        },
        DfaState::Q53 => {
            s == 0x0
        },
    }
}

/// A move on the letter with table `t`, written out, ends in three rounds
/// of epsilon moves.
pub proof fn lemma_letter_step(s: u64, b: u8)
    requires
        is_letter(b),
    ensures
        b == LETTER_A ==> nfa_step(s, b) == eps_rounds(a_moves(s)),
        b == LETTER_B ==> nfa_step(s, b) == eps_rounds(b_moves(s)),
        b == LETTER_C ==> nfa_step(s, b) == eps_rounds(c_moves(s)),
{
    lemma_moves_written_out(s);
    lemma_closure_is_three_rounds(a_moves(s));
    lemma_closure_is_three_rounds(b_moves(s));
    lemma_closure_is_three_rounds(c_moves(s));
}

proof fn lemma_masks_fit_step_a(q: DfaState, s: u64)
    requires
        masks_fit(q, s),
    ensures
        masks_fit(q.next(LETTER_A), eps_rounds(a_moves(s))),
{
    lemma_a_moves_of_reached_sets();
    lemma_rounds_of_reached_sets();
}

proof fn lemma_masks_fit_step_b(q: DfaState, s: u64)
    requires
        masks_fit(q, s),
    ensures
        masks_fit(q.next(LETTER_B), eps_rounds(b_moves(s))),
{
    lemma_b_moves_of_reached_sets();
    lemma_rounds_of_reached_sets();
}

proof fn lemma_masks_fit_step_c(q: DfaState, s: u64)
    requires
        masks_fit(q, s),
    ensures
        masks_fit(q.next(LETTER_C), eps_rounds(c_moves(s))),
{
    lemma_c_moves_of_reached_sets();
    lemma_rounds_of_reached_sets();
}

/// One byte keeps the state of the deterministic automaton and the mask of
/// the subset simulation fitting together.
pub proof fn lemma_masks_fit_step(q: DfaState, s: u64, b: u8)
    requires
        masks_fit(q, s),
    ensures
        masks_fit(q.next(b), nfa_step(s, b)),
{
    if is_letter(b) {
        lemma_letter_step(s, b);
        if b == LETTER_A {
            lemma_masks_fit_step_a(q, s);
        } else if b == LETTER_B {
            lemma_masks_fit_step_b(q, s);
        } else {
            lemma_masks_fit_step_c(q, s);
        }
    }
}

/// Fitting states agree on acceptance.
pub proof fn lemma_masks_fit_accepting(q: DfaState, s: u64)
    requires
        masks_fit(q, s),
    ensures
        q.accepting() == (s & bit(NfaState::RStar) != 0),
{
    lemma_acceptance_of_reached_sets();
}

/// On every word the two automata end in states that fit together.
pub proof fn lemma_masks_fit_on_every_word(w: Seq<u8>)
    ensures
        masks_fit(dfa_run(w), nfa_run(w)),
    decreases w.len(),
{
    if w.len() == 0 {
        lemma_acceptance_of_reached_sets();
        lemma_closure_is_three_rounds(bit(NfaState::ALStar));
        lemma_rounds_of_reached_sets();
    } else {
        let v = w.drop_last();
        lemma_masks_fit_on_every_word(v);
        lemma_masks_fit_step(dfa_run(v), nfa_run(v), w.last());
    }
}

/// The nondeterministic automaton and the deterministic automaton accept
/// exactly the same words.
pub proof fn lemma_nfa_agrees_with_dfa(w: Seq<u8>)
    ensures
        nfa_accepts_word(w) == dfa_accepts_word(w),
{
    lemma_masks_fit_on_every_word(w);
    lemma_masks_fit_accepting(dfa_run(w), nfa_run(w));
}

/// The states after reading `a` from `s`, one by one.
pub proof fn lemma_a_step_bits(s: u64, y: u64, r1: u64, r2: u64, z: u64)
    by (bit_vector)
    requires
        y == a_moves(s),
        r1 == eps_round(y),
        r2 == eps_round(r1),
        z == eps_round(r2),
    ensures
        holds(z, 0) == (holds(s, 2) || holds(s, 3)),
        holds(z, 1) == (holds(s, 2) || holds(s, 3) || holds(s, 10)),
        holds(z, 2) == (holds(s, 0)),
        holds(z, 3) == (holds(s, 2)),
        holds(z, 4) == (false),
        holds(z, 5) == (false),
        holds(z, 6) == (false),
        holds(z, 7) == (false),
        holds(z, 8) == (false),
        holds(z, 9) == (false),
        holds(z, 10) == (holds(s, 1)),
        holds(z, 11) == (holds(s, 10)),
        holds(z, 12) == (false),
        holds(z, 13) == (false),
        holds(z, 14) == (false),
        holds(z, 15) == (false),
        holds(z, 16) == (false),
        holds(z, 17) == (holds(s, 2) || holds(s, 3) || holds(s, 10) || holds(s, 18) || holds(s, 19)),
        holds(z, 18) == (holds(s, 17)),
        holds(z, 19) == (holds(s, 18)),
        holds(z, 20) == (false),
        holds(z, 21) == (false),
        holds(z, 22) == (false),
        holds(z, 23) == (false),
        holds(z, 24) == (false),
        holds(z, 25) == (false),
{
}

/// The states after reading `b` from `s`, one by one.
pub proof fn lemma_b_step_bits(s: u64, y: u64, r1: u64, r2: u64, z: u64)
    by (bit_vector)
    requires
        y == b_moves(s),
        r1 == eps_round(y),
        r2 == eps_round(r1),
        z == eps_round(r2),
    ensures
        holds(z, 0) == (holds(s, 2) || holds(s, 5)),
        holds(z, 1) == (holds(s, 2) || holds(s, 5) || holds(s, 11) || holds(s, 13) || holds(s, 14)),
        holds(z, 2) == (false),
        holds(z, 3) == (false),
        holds(z, 4) == (holds(s, 0)),
        holds(z, 5) == (holds(s, 4)),
        holds(z, 6) == (false),
        holds(z, 7) == (holds(s, 2)),
        holds(z, 8) == (false),
        holds(z, 9) == (false),
        holds(z, 10) == (false),
        holds(z, 11) == (false),
        holds(z, 12) == (holds(s, 1)),
        holds(z, 13) == (holds(s, 12)),
        holds(z, 14) == (holds(s, 13)),
        holds(z, 15) == (holds(s, 11)),
        holds(z, 16) == (false),
        holds(z, 17) == (holds(s, 2) || holds(s, 5) || holds(s, 11) || holds(s, 13) || holds(s, 14) || holds(s, 18) || holds(s, 21)),
        holds(z, 18) == (false),
        holds(z, 19) == (false),
        holds(z, 20) == (holds(s, 17)),
        holds(z, 21) == (holds(s, 20)),
        holds(z, 22) == (false),
        holds(z, 23) == (holds(s, 18)),
        holds(z, 24) == (false),
        holds(z, 25) == (false),
{
}

/// The states after reading `c` from `s`, one by one.
pub proof fn lemma_c_step_bits(s: u64, y: u64, r1: u64, r2: u64, z: u64)
    by (bit_vector)
    requires
        y == c_moves(s),
        r1 == eps_round(y),
        r2 == eps_round(r1),
        z == eps_round(r2),
    ensures
        holds(z, 0) == (holds(s, 6) || holds(s, 9)),
        holds(z, 1) == (holds(s, 6) || holds(s, 9) || holds(s, 16)),
        holds(z, 2) == (false),
        holds(z, 3) == (false),
        holds(z, 4) == (false),
        holds(z, 5) == (false),
        holds(z, 6) == (holds(s, 0)),
        holds(z, 7) == (holds(s, 9)),
        holds(z, 8) == (holds(s, 7)),
        holds(z, 9) == (holds(s, 8)),
        holds(z, 10) == (false),
        holds(z, 11) == (false),
        holds(z, 12) == (false),
        holds(z, 13) == (false),
        holds(z, 14) == (false),
        holds(z, 15) == (holds(s, 16)),
        holds(z, 16) == (holds(s, 15)),
        holds(z, 17) == (holds(s, 6) || holds(s, 9) || holds(s, 16) || holds(s, 22) || holds(s, 25)),
        holds(z, 18) == (false),
        holds(z, 19) == (false),
        holds(z, 20) == (false),
        holds(z, 21) == (false),
        holds(z, 22) == (holds(s, 17)),
        holds(z, 23) == (holds(s, 25)),
        holds(z, 24) == (holds(s, 23)),
        holds(z, 25) == (holds(s, 24)),
{
}

/// The states before reading anything.
pub proof fn lemma_start_bits(j: u64, one: u64, r1: u64, r2: u64, z: u64)
    by (bit_vector)
    requires
        one == 1u64 << 0u8,
        r1 == eps_round(one),
        r2 == eps_round(r1),
        z == eps_round(r2),
    ensures
        j < 26 ==> (holds(z, j) == (j == 0 || j == 1 || j == 17)),
{
}

/// The empty mask holds no state.
pub proof fn lemma_nothing_holds(j: u64)
    by (bit_vector)
    ensures
        !holds(0, j),
{
}

} // verus!

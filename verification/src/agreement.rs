//! The three recognizers of the language accept the same words, and every
//! word they accept has the five properties that the property automata check.

use vstd::prelude::*;
use crate::alphabet::is_letter_word;
use crate::dfa::dfa_accepts_word;
use crate::nfa::nfa_accepts_word;
use crate::product::pka_accepts_word;
use crate::nfa_agreement::lemma_nfa_agrees_with_dfa;
use crate::product_agreement::lemma_product_agrees_with_dfa;
use crate::properties::{
    avoids_bca, no_single_c, c_blocks_after_letters_long, no_bb_block, avoids_cxc,
    lemma_bca_language, lemma_single_c_language, lemma_abc_language, lemma_bb_language,
    lemma_cxc_language,
};

verus! {

/// On every word the nondeterministic automaton, the deterministic automaton
/// and the product of automata give the same answer.
pub proof fn lemma_recognizers_agree(w: Seq<u8>)
    ensures
        nfa_accepts_word(w) == dfa_accepts_word(w),
        pka_accepts_word(w) == dfa_accepts_word(w),
{
    lemma_nfa_agrees_with_dfa(w);
    lemma_product_agrees_with_dfa(w);
}

/// Every accepted word is made of the letters `a`, `b`, `c`; has no factor
/// `bca`; has no block of `c` of length one; has every block of `c` that
/// follows an `a` or a `b` of length at least two; has no block of `b` of
/// length exactly two; and has no factor `c` `x` `c` with `x` an `a` or a `b`.
pub proof fn lemma_accepted_words_have_properties(w: Seq<u8>)
    requires
        dfa_accepts_word(w),
    ensures
        is_letter_word(w),
        avoids_bca(w),
        no_single_c(w),
        c_blocks_after_letters_long(w),
        no_bb_block(w),
        avoids_cxc(w),
{
    lemma_product_agrees_with_dfa(w);
    lemma_bca_language(w);
    lemma_single_c_language(w);
    lemma_abc_language(w);
    lemma_bb_language(w);
    lemma_cxc_language(w);
}

} // verus!

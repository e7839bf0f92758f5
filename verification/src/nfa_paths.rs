//! The subset simulation computes exactly the states that paths of the
//! nondeterministic automaton reach: a state is in the mask after a word when
//! some path from the initial state, reading the word with epsilon moves
//! between letters, ends in it.

use vstd::prelude::*;
use crate::nfa::{
    NfaState, NFA_EPS, N_NFA_STATES, bit, holds, pick, image, step_image, closure, subset,
    letter_table, nfa_run, nfa_accepts_word, lemma_closure_is_least,
};

verus! {

/// The table `t` has a move from state `i` to state `j`.
pub open spec fn edge(t: Seq<u64>, i: u64, j: u64) -> bool {
    i < N_NFA_STATES && j < 64 && holds(t[i as int], j)
}

/// A path of at most `k` epsilon moves of `eps` leads from `i` to `j`.
pub open spec fn eps_path(eps: Seq<u64>, i: u64, j: u64, k: nat) -> bool
    decreases k,
{
    i == j || (k > 0 && exists|m: u64| #[trigger] edge(eps, i, m) && eps_path(eps, m, j, (k - 1) as nat))
}

/// Epsilon moves of `eps` lead from `i` to `j`.
pub open spec fn eps_reaches(eps: Seq<u64>, i: u64, j: u64) -> bool {
    exists|k: nat| #[trigger] eps_path(eps, i, j, k)
}

/// The states that paths of the automaton reading `w` lead to from the
/// initial state `ALStar`: epsilon moves, then for each letter one move on it
/// followed by epsilon moves.
pub open spec fn nfa_reached(w: Seq<u8>) -> Set<u64>
    decreases w.len(),
{
    if w.len() == 0 {
        Set::new(|j: u64| eps_reaches(NFA_EPS@, NfaState::ALStar.id() as u64, j))
    } else {
        let before = nfa_reached(w.drop_last());
        match letter_table(w.last()) {
            Some(t) => Set::new(
                |j: u64|
                    exists|i: u64, m: u64|
                        #![trigger before.contains(i), edge(t, i, m)]
                        before.contains(i) && edge(t, i, m) && eps_reaches(NFA_EPS@, m, j),
            ),
            None => Set::empty(),
        }
    }
}

/// A path of the automaton reading `w` leads from the initial state `ALStar`
/// to the state `j`.
pub open spec fn nfa_reaches(w: Seq<u8>, j: u64) -> bool {
    nfa_reached(w).contains(j)
}

proof fn lemma_bits(a: u64, b: u64, c: u64, s: u64, i: u64, v: u64, j: u64)
    by (bit_vector)
    requires
        j < 64,
    ensures
        ((a | b) >> j) & 1 == 1 <==> ((a >> j) & 1 == 1 || (b >> j) & 1 == 1),
        (0u64 >> j) & 1 != 1,
        (a & !c == 0 && (a >> j) & 1 == 1) ==> (c >> j) & 1 == 1,
        ((1u64 << 0u8) >> j) & 1 == 1 <==> j == 0,
        (a & (1u64 << 17u8) != 0) <==> (a >> 17u64) & 1 == 1,
{
}

/// The image of `s` holds `j` exactly when some state `i < n` of `s` moves to `j`.
pub proof fn lemma_image_holds(t: Seq<u64>, s: u64, n: nat, j: u64)
    requires
        j < 64,
        n <= N_NFA_STATES,
    ensures
        holds(image(t, s, n), j) <==> exists|i: u64| #![trigger holds(t[i as int], j)]
            i < n && holds(s, i) && holds(t[i as int], j),
    decreases n,
{
    if n > 0 {
        let i: u64 = (n - 1) as u64;
        lemma_image_holds(t, s, (n - 1) as nat, j);
        lemma_bits(image(t, s, (n - 1) as nat), pick(s, i, t[n - 1]), 0, s, i, t[n - 1], j);
        if holds(image(t, s, n), j) && !holds(image(t, s, (n - 1) as nat), j) {
            assert(holds(s, i) && holds(t[i as int], j));
        }
    } else {
        lemma_bits(0, 0, 0, s, 0, 0, j);
    }
}

/// Every state of the closure of `s` is reached by epsilon moves from a state of `s`.
pub proof fn lemma_closure_reached(eps: Seq<u64>, s: u64, j: u64)
    requires
        j < 64,
        holds(closure(eps, s), j),
    ensures
        exists|i: u64| i < 64 && holds(s, i) && #[trigger] eps_reaches(eps, i, j),
    decreases u64::MAX - s,
{
    let img: u64 = step_image(eps, s);
    let new_bits: u64 = img & !s;
    if new_bits == 0 {
        assert(eps_path(eps, j, j, 0));
        assert(eps_reaches(eps, j, j));
    } else {
        crate::nfa::lemma_adding_new_bits_grows(s, img);
        let next: u64 = s | new_bits;
        lemma_closure_reached(eps, next, j);
        let i: u64 = choose|i: u64| i < 64 && holds(next, i) && #[trigger] eps_reaches(eps, i, j);
        lemma_bits(s, new_bits, 0, 0, 0, 0, i);
        if holds(s, i) {
        } else {
            lemma_bits(img, 0, img, 0, 0, 0, i);
            assert((new_bits & !img) == 0) by (bit_vector)
                requires
                    new_bits == img & !s,
            ;
            lemma_bits(new_bits, 0, img, 0, 0, 0, i);
            lemma_image_holds(eps, s, N_NFA_STATES as nat, i);
            let p: u64 = choose|p: u64| #![trigger holds(eps[p as int], i)]
                p < N_NFA_STATES && holds(s, p) && holds(eps[p as int], i);
            let k: nat = choose|k: nat| #[trigger] eps_path(eps, i, j, k);
            assert(edge(eps, p, i));
            assert(eps_path(eps, p, j, k + 1));
            assert(eps_reaches(eps, p, j));
        }
    }
}

/// A state reached by epsilon moves from a state of `s` is in the closure of `s`.
pub proof fn lemma_reached_in_closure(eps: Seq<u64>, s: u64, i: u64, j: u64, k: nat)
    requires
        i < 64,
        holds(s, i),
        eps_path(eps, i, j, k),
    ensures
        j < 64,
        holds(closure(eps, s), j),
{
    let c: u64 = closure(eps, s);
    lemma_closure_is_least(eps, s);
    lemma_bits(s, 0, c, 0, 0, 0, i);
    lemma_reached_in_closure_of_closed(eps, c, i, j, k);
}

/// A mask that epsilon moves do not leave holds every state that they reach
/// from a state it holds.
pub proof fn lemma_reached_in_closure_of_closed(eps: Seq<u64>, c: u64, i: u64, j: u64, k: nat)
    requires
        i < 64,
        holds(c, i),
        subset(step_image(eps, c), c),
        eps_path(eps, i, j, k),
    ensures
        j < 64,
        holds(c, j),
    decreases k,
{
    if i != j {
        let m: u64 = choose|m: u64| #[trigger] edge(eps, i, m) && eps_path(eps, m, j, (k - 1) as nat);
        lemma_image_holds(eps, c, N_NFA_STATES as nat, m);
        assert(holds(step_image(eps, c), m));
        lemma_bits(step_image(eps, c), 0, c, 0, 0, 0, m);
        lemma_reached_in_closure_of_closed(eps, c, m, j, (k - 1) as nat);
    }
}

/// The mask after `w` holds exactly the states that paths reading `w` reach.
pub proof fn lemma_run_holds_reached(w: Seq<u8>, j: u64)
    requires
        j < 64,
    ensures
        holds(nfa_run(w), j) <==> nfa_reaches(w, j),
    decreases w.len(),
{
    let eps = NFA_EPS@;
    if w.len() == 0 {
        let start: u64 = bit(NfaState::ALStar);
        if holds(nfa_run(w), j) {
            lemma_closure_reached(eps, start, j);
            let i: u64 = choose|i: u64| i < 64 && holds(start, i) && #[trigger] eps_reaches(eps, i, j);
            lemma_bits(0, 0, 0, 0, 0, 0, i);
        }
        if nfa_reaches(w, j) {
            let k: nat = choose|k: nat| #[trigger] eps_path(eps, 0, j, k);
            lemma_bits(0, 0, 0, 0, 0, 0, 0);
            lemma_reached_in_closure(eps, start, 0, j, k);
        }
    } else {
        let v = w.drop_last();
        match letter_table(w.last()) {
            Some(t) => {
                let x: u64 = step_image(t, nfa_run(v));
                if holds(nfa_run(w), j) {
                    lemma_closure_reached(eps, x, j);
                    let m: u64 = choose|m: u64| m < 64 && holds(x, m) && #[trigger] eps_reaches(eps, m, j);
                    lemma_image_holds(t, nfa_run(v), N_NFA_STATES as nat, m);
                    let i: u64 = choose|i: u64| #![trigger holds(t[i as int], m)]
                        i < N_NFA_STATES && holds(nfa_run(v), i) && holds(t[i as int], m);
                    lemma_run_holds_reached(v, i);
                    assert(edge(t, i, m));
                    assert(nfa_reaches(v, i));
                }
                if nfa_reaches(w, j) {
                    let before = nfa_reached(v);
                    let (i, m) = choose|i: u64, m: u64|
                        #![trigger before.contains(i), edge(t, i, m)]
                        before.contains(i) && edge(t, i, m) && eps_reaches(eps, m, j);
                    lemma_run_holds_reached(v, i);
                    lemma_image_holds(t, nfa_run(v), N_NFA_STATES as nat, m);
                    let k: nat = choose|k: nat| #[trigger] eps_path(eps, m, j, k);
                    lemma_reached_in_closure(eps, x, m, j, k);
                }
            },
            None => {
                lemma_bits(0, 0, 0, 0, 0, 0, j);
            },
        }
    }
}

/// The automaton accepts `w` exactly when some path reading `w` leads from
/// the initial state `ALStar` to the final state `RStar`.
pub proof fn lemma_nfa_accepts_by_paths(w: Seq<u8>)
    ensures
        nfa_accepts_word(w) == nfa_reaches(w, NfaState::RStar.id() as u64),
{
    lemma_run_holds_reached(w, 17);
    lemma_bits(nfa_run(w), 0, 0, 0, 0, 0, 17);
}

} // verus!

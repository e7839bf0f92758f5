//! The nondeterministic automaton of the language, run as a subset simulation
//! over 64-bit masks of its 26 states.

use vstd::prelude::*;
use vstd::string::StringSliceAdditionalSpecFns;
use crate::alphabet::{LETTER_A, LETTER_B, LETTER_C};
use crate::nfa_paths::{nfa_reaches, lemma_nfa_accepts_by_paths};

verus! {

/// Number of states of the automaton.
pub const N_NFA_STATES: usize = 26;

/// The states of the automaton; state `s` is bit `s.id()` of a state mask.
#[derive(Copy, Clone, Debug, PartialEq, Eq)]
pub enum NfaState {
    ALStar,
    Mid,
    ALA,
    ALInAaa2,
    ALInBbb1,
    ALInBbb2,
    ALInCc1,
    ALAbLoop,
    ALAbCc1,
    ALAbCc2,
    BInA,
    BInAab2,
    BInB,
    BInB2,
    BInBbbb3,
    BAabLoop,
    BAabCc1,
    RStar,
    ARA,
    ARInAaa2,
    ARInBbb1,
    ARInBbb2,
    ARInCc1,
    ARAbLoop,
    ARAbCc1,
    ARAbCc2,
}

impl NfaState {
    /// Position of the state in a mask.
    pub open spec fn id(self) -> u8 {
        match self {
            NfaState::ALStar => 0,
            NfaState::Mid => 1,
            NfaState::ALA => 2,
            NfaState::ALInAaa2 => 3,
            NfaState::ALInBbb1 => 4,
            NfaState::ALInBbb2 => 5,
            NfaState::ALInCc1 => 6,
            NfaState::ALAbLoop => 7,
            NfaState::ALAbCc1 => 8,
            NfaState::ALAbCc2 => 9,
            NfaState::BInA => 10,
            NfaState::BInAab2 => 11,
            NfaState::BInB => 12,
            NfaState::BInB2 => 13,
            NfaState::BInBbbb3 => 14,
            NfaState::BAabLoop => 15,
            NfaState::BAabCc1 => 16,
            NfaState::RStar => 17,
            NfaState::ARA => 18,
            NfaState::ARInAaa2 => 19,
            NfaState::ARInBbb1 => 20,
            NfaState::ARInBbb2 => 21,
            NfaState::ARInCc1 => 22,
            NfaState::ARAbLoop => 23,
            NfaState::ARAbCc1 => 24,
            NfaState::ARAbCc2 => 25,
        }
    }

    /// Position of the state in a mask.
    pub fn index(self) -> (r: u8)
        ensures
            r == self.id(),
            r < N_NFA_STATES,
    {
        match self {
            NfaState::ALStar => 0,
            NfaState::Mid => 1,
            NfaState::ALA => 2,
            NfaState::ALInAaa2 => 3,
            NfaState::ALInBbb1 => 4,
            NfaState::ALInBbb2 => 5,
            NfaState::ALInCc1 => 6,
            NfaState::ALAbLoop => 7,
            NfaState::ALAbCc1 => 8,
            NfaState::ALAbCc2 => 9,
            NfaState::BInA => 10,
            NfaState::BInAab2 => 11,
            NfaState::BInB => 12,
            NfaState::BInB2 => 13,
            NfaState::BInBbbb3 => 14,
            NfaState::BAabLoop => 15,
            NfaState::BAabCc1 => 16,
            NfaState::RStar => 17,
            NfaState::ARA => 18,
            NfaState::ARInAaa2 => 19,
            NfaState::ARInBbb1 => 20,
            NfaState::ARInBbb2 => 21,
            NfaState::ARInCc1 => 22,
            NfaState::ARAbLoop => 23,
            NfaState::ARAbCc1 => 24,
            NfaState::ARAbCc2 => 25,
        }
    }
}

/// The mask that holds `s` alone.
pub open spec fn bit(s: NfaState) -> u64 {
    1u64 << s.id()
}

/// The mask that holds `s` alone.
pub fn nfa_bit(s: NfaState) -> (r: u64)
    ensures
        r == bit(s),
{
    1u64 << s.index()
}

/// Epsilon moves: entry `i` is the set of states reachable from state `i` without reading.
pub const NFA_EPS: [u64; N_NFA_STATES] = [
    0x2, // ALStar -> Mid
    0x20000, // Mid -> RStar
    0x0, // ALA
    0x0, // ALInAaa2
    0x0, // ALInBbb1
    0x0, // ALInBbb2
    0x0, // ALInCc1
    0x1, // ALAbLoop -> ALStar
    0x0, // ALAbCc1
    0x0, // ALAbCc2
    0x0, // BInA
    0x0, // BInAab2
    0x0, // BInB
    0x0, // BInB2
    0x0, // BInBbbb3
    0x2, // BAabLoop -> Mid
    0x0, // BAabCc1
    0x0, // RStar
    0x0, // ARA
    0x0, // ARInAaa2
    0x0, // ARInBbb1
    0x0, // ARInBbb2
    0x0, // ARInCc1
    0x20000, // ARAbLoop -> RStar
    0x0, // ARAbCc1
    0x0, // ARAbCc2
];

/// Moves on `a`: entry `i` is the set of successors of state `i`.
pub const NFA_TRANS_A: [u64; N_NFA_STATES] = [
    0x4, // ALStar -> ALA
    0x400, // Mid -> BInA
    0x9, // ALA -> ALStar, ALInAaa2
    0x1, // ALInAaa2 -> ALStar
    0x0, // ALInBbb1
    0x0, // ALInBbb2
    0x0, // ALInCc1
    0x0, // ALAbLoop
    0x0, // ALAbCc1
    0x0, // ALAbCc2
    0x802, // BInA -> Mid, BInAab2
    0x0, // BInAab2
    0x0, // BInB
    0x0, // BInB2
    0x0, // BInBbbb3
    0x0, // BAabLoop
    0x0, // BAabCc1
    0x40000, // RStar -> ARA
    0xa0000, // ARA -> RStar, ARInAaa2
    0x20000, // ARInAaa2 -> RStar
    0x0, // ARInBbb1
    0x0, // ARInBbb2
    0x0, // ARInCc1
    0x0, // ARAbLoop
    0x0, // ARAbCc1
    0x0, // ARAbCc2
];

/// Moves on `b`: entry `i` is the set of successors of state `i`.
pub const NFA_TRANS_B: [u64; N_NFA_STATES] = [
    0x10, // ALStar -> ALInBbb1
    0x1000, // Mid -> BInB
    0x80, // ALA -> ALAbLoop
    0x0, // ALInAaa2
    0x20, // ALInBbb1 -> ALInBbb2
    0x1, // ALInBbb2 -> ALStar
    0x0, // ALInCc1
    0x0, // ALAbLoop
    0x0, // ALAbCc1
    0x0, // ALAbCc2
    0x0, // BInA
    0x8000, // BInAab2 -> BAabLoop
    0x2000, // BInB -> BInB2
    0x4002, // BInB2 -> Mid, BInBbbb3
    0x2, // BInBbbb3 -> Mid
    0x0, // BAabLoop
    0x0, // BAabCc1
    0x100000, // RStar -> ARInBbb1
    0x800000, // ARA -> ARAbLoop
    0x0, // ARInAaa2
    0x200000, // ARInBbb1 -> ARInBbb2
    0x20000, // ARInBbb2 -> RStar
    0x0, // ARInCc1
    0x0, // ARAbLoop
    0x0, // ARAbCc1
    0x0, // ARAbCc2
];

/// Moves on `c`: entry `i` is the set of successors of state `i`.
pub const NFA_TRANS_C: [u64; N_NFA_STATES] = [
    0x40, // ALStar -> ALInCc1
    0x0, // Mid
    0x0, // ALA
    0x0, // ALInAaa2
    0x0, // ALInBbb1
    0x0, // ALInBbb2
    0x1, // ALInCc1 -> ALStar
    0x100, // ALAbLoop -> ALAbCc1
    0x200, // ALAbCc1 -> ALAbCc2
    0x80, // ALAbCc2 -> ALAbLoop
    0x0, // BInA
    0x0, // BInAab2
    0x0, // BInB
    0x0, // BInB2
    0x0, // BInBbbb3
    0x10000, // BAabLoop -> BAabCc1
    0x8000, // BAabCc1 -> BAabLoop
    0x400000, // RStar -> ARInCc1
    0x0, // ARA
    0x0, // ARInAaa2
    0x0, // ARInBbb1
    0x0, // ARInBbb2
    0x20000, // ARInCc1 -> RStar
    0x1000000, // ARAbLoop -> ARAbCc1
    0x2000000, // ARAbCc1 -> ARAbCc2
    0x800000, // ARAbCc2 -> ARAbLoop
];

/// Whether the mask `s` holds state number `i`.
pub open spec fn holds(s: u64, i: u64) -> bool {
    (s >> i) & 1 == 1
}

/// Row `v` of state `i` when the mask `s` holds `i`, and no state otherwise.
pub open spec fn pick(s: u64, i: u64, v: u64) -> u64 {
    if holds(s, i) {
        v
    } else {
        0
    }
}

/// The union of the rows `t[i]` over the states `i < n` that the mask `s` holds.
pub open spec fn image(t: Seq<u64>, s: u64, n: nat) -> u64
    decreases n,
{
    if n == 0 {
        0
    } else {
        image(t, s, (n - 1) as nat) | pick(s, (n - 1) as u64, t[n - 1])
    }
}

/// Adding no state leaves a mask as it is.
pub proof fn lemma_union_with_nothing(x: u64)
    by (bit_vector)
    ensures
        x | 0 == x,
        0u64 | x == x,
{
}

/// The set of states that one move along the table `t` leads to from the mask `s`.
pub open spec fn step_image(t: Seq<u64>, s: u64) -> u64 {
    image(t, s, N_NFA_STATES as nat)
}

/// Adding bits that `s` lacks makes the mask larger.
pub proof fn lemma_adding_new_bits_grows(s: u64, x: u64)
    by (bit_vector)
    ensures
        (x & !s) != 0 ==> (s | (x & !s)) > s,
{
}

/// The epsilon closure of `s` under the table `eps`: new states are added,
/// one round of epsilon moves at a time, until a round adds nothing.
pub open spec fn closure(eps: Seq<u64>, s: u64) -> u64
    decreases u64::MAX - s,
{
    let new_bits: u64 = step_image(eps, s) & !s;
    if new_bits == 0 {
        s
    } else {
        proof {
            lemma_adding_new_bits_grows(s, step_image(eps, s));
        }
        closure(eps, s | new_bits)
    }
}

/// The union of `table[i]` over the states `i` that `states` holds.
pub fn successors(states: u64, table: &[u64; N_NFA_STATES]) -> (r: u64)
    ensures
        r == step_image(table@, states),
{
    let mut acc: u64 = 0;
    for idx in 0..N_NFA_STATES
        invariant
            acc == image(table@, states, idx as nat),
    {
        if (states >> (idx as u64)) & 1 == 1 {
            acc |= table[idx];
        } else {
            proof {
                lemma_union_with_nothing(acc);
            }
        }
    }
    acc
}

/// Adds to `states` every state that epsilon moves of `eps` reach from it.
/// The result is the least mask that holds `states` and that epsilon moves do not leave.
pub fn epsilon_closure(states: u64, eps: &[u64; N_NFA_STATES]) -> (r: u64)
    ensures
        r == closure(eps@, states),
        subset(states, r),
        subset(step_image(eps@, r), r),
        forall|c: u64|
            subset(states, c) && subset(step_image(eps@, c), c) ==> #[trigger] subset(r, c),
{
    let mut current: u64 = states;
    loop
        invariant
            closure(eps@, current) == closure(eps@, states),
        decreases u64::MAX - current,
    {
        let added: u64 = successors(current, eps);
        let new_bits: u64 = added & !current;
        if new_bits == 0 {
            proof {
                lemma_closure_is_least(eps@, states);
            }
            return current;
        }
        proof {
            lemma_adding_new_bits_grows(current, added);
        }
        current |= new_bits;
    }
}

/// The move table of the byte `b`, where `b` is one of the letters `a`, `b`, `c`.
pub open spec fn letter_table(b: u8) -> Option<Seq<u64>> {
    if b == LETTER_A {
        Some(NFA_TRANS_A@)
    } else if b == LETTER_B {
        Some(NFA_TRANS_B@)
    } else if b == LETTER_C {
        Some(NFA_TRANS_C@)
    } else {
        None
    }
}

/// The states reached from the closed mask `s` by reading `b`: the closure of
/// the successors on a letter, and no state at all on any other byte.
pub open spec fn nfa_step(s: u64, b: u8) -> u64 {
    match letter_table(b) {
        Some(t) => closure(NFA_EPS@, step_image(t, s)),
        None => 0,
    }
}

/// The states the automaton is in before reading anything.
pub open spec fn nfa_start() -> u64 {
    closure(NFA_EPS@, bit(NfaState::ALStar))
}

/// The states the automaton is in after reading `w`.
pub open spec fn nfa_run(w: Seq<u8>) -> u64
    decreases w.len(),
{
    if w.len() == 0 {
        nfa_start()
    } else {
        nfa_step(nfa_run(w.drop_last()), w.last())
    }
}

/// The automaton accepts `w` when the final state `RStar` is among the states it ends in.
pub open spec fn nfa_accepts_word(w: Seq<u8>) -> bool {
    nfa_run(w) & bit(NfaState::RStar) != 0
}

proof fn lemma_empty_mask_holds_nothing(i: u64)
    by (bit_vector)
    ensures
        (0u64 >> i) & 1 != 1,
        0u64 & i == 0,
{
}

/// No state has a successor in the empty mask.
pub proof fn lemma_image_of_empty(t: Seq<u64>, n: nat)
    ensures
        image(t, 0, n) == 0,
    decreases n,
{
    if n > 0 {
        lemma_image_of_empty(t, (n - 1) as nat);
        lemma_empty_mask_holds_nothing((n - 1) as u64);
        lemma_union_with_nothing(0);
    }
}

/// The closure of the empty mask is empty.
pub proof fn lemma_closure_of_empty(eps: Seq<u64>)
    ensures
        closure(eps, 0) == 0,
{
    lemma_image_of_empty(eps, N_NFA_STATES as nat);
    lemma_empty_mask_holds_nothing(!0u64);
}

/// Once the automaton holds no state, it holds none for the rest of the word.
pub proof fn lemma_run_stays_empty(w: Seq<u8>, i: int)
    requires
        0 <= i <= w.len(),
        nfa_run(w.take(i)) == 0,
    ensures
        nfa_run(w) == 0,
    decreases w.len(),
{
    if i == w.len() {
        assert(w.take(i) =~= w);
    } else {
        assert(w.drop_last().take(i) =~= w.take(i));
        lemma_run_stays_empty(w.drop_last(), i);
        lemma_image_of_empty(NFA_TRANS_A@, N_NFA_STATES as nat);
        lemma_image_of_empty(NFA_TRANS_B@, N_NFA_STATES as nat);
        lemma_image_of_empty(NFA_TRANS_C@, N_NFA_STATES as nat);
        lemma_closure_of_empty(NFA_EPS@);
    }
}

/// Whether the automaton accepts `word`, read byte by byte: whether a path
/// reading `word` leads from `ALStar` to `RStar`.
pub fn nfa_accepts(word: &str) -> (r: bool)
    ensures
        r == nfa_accepts_word(word.spec_bytes()),
        r == nfa_reaches(word.spec_bytes(), NfaState::RStar.id() as u64),
{
    proof {
        lemma_nfa_accepts_by_paths(word.spec_bytes());
    }
    let bytes = word.as_bytes();
    let ghost w = word.spec_bytes();
    let mut current: u64 = epsilon_closure(nfa_bit(NfaState::ALStar), &NFA_EPS);
    proof {
        assert(w.take(0) =~= Seq::<u8>::empty());
    }
    for i in 0..bytes.len()
        invariant
            bytes@ == w,
            w == word.spec_bytes(),
            current == nfa_run(w.take(i as int)),
            nfa_accepts_word(w) == nfa_reaches(w, NfaState::RStar.id() as u64),
    {
        let b: u8 = bytes[i];
        proof {
            assert(w.take(i + 1).drop_last() =~= w.take(i as int));
            assert(w.take(i + 1).last() == b);
        }
        let next: u64 = if b == LETTER_A {
            successors(current, &NFA_TRANS_A)
        } else if b == LETTER_B {
            successors(current, &NFA_TRANS_B)
        } else if b == LETTER_C {
            successors(current, &NFA_TRANS_C)
        } else {
                proof {
                    lemma_run_stays_empty(w, i + 1);
                    lemma_empty_mask_holds_nothing(bit(NfaState::RStar));
                }
            return false;
        };
        if next == 0 {
            proof {
                lemma_closure_of_empty(NFA_EPS@);
                lemma_run_stays_empty(w, i + 1);
                lemma_empty_mask_holds_nothing(bit(NfaState::RStar));
            }
            return false;
        }
        current = epsilon_closure(next, &NFA_EPS);
    }
    proof {
        assert(w.take(w.len() as int) =~= w);
    }
    (current & nfa_bit(NfaState::RStar)) != 0
}

/// Whether every state of the mask `a` is in the mask `b`.
pub open spec fn subset(a: u64, b: u64) -> bool {
    a & !b == 0
}

proof fn lemma_subset_facts(a: u64, b: u64, c: u64, x: u64, y: u64, i: u64)
    by (bit_vector)
    ensures
        a & !a == 0,
        (a & !b == 0 && b & !c == 0) ==> a & !c == 0,
        (a & !b == 0 && x & !y == 0) ==> (a | x) & !(b | y) == 0,
        (a & !c == 0 && x & !c == 0) ==> (a | x) & !c == 0,
        a & !(a | x) == 0,
        (x & !a) & !x == 0,
        (a & !b == 0 && (a >> i) & 1 == 1) ==> (b >> i) & 1 == 1,
        0u64 & !a == 0,
{
}

/// Moves from a smaller mask lead to a smaller mask.
pub proof fn lemma_image_monotone(t: Seq<u64>, a: u64, b: u64, n: nat)
    requires
        subset(a, b),
    ensures
        subset(image(t, a, n), image(t, b, n)),
    decreases n,
{
    lemma_subset_facts(a, b, 0, 0, 0, 0);
    if n > 0 {
        let i: u64 = (n - 1) as u64;
        lemma_image_monotone(t, a, b, (n - 1) as nat);
        lemma_subset_facts(a, b, 0, 0, 0, i);
        lemma_subset_facts(t[n - 1], 0, 0, 0, 0, 0);
        lemma_subset_facts(
            image(t, a, (n - 1) as nat),
            image(t, b, (n - 1) as nat),
            0,
            pick(a, i, t[n - 1]),
            pick(b, i, t[n - 1]),
            0,
        );
    }
}

/// The closure of `s` is the least mask that holds `s` and that the moves of
/// `eps` do not leave.
pub proof fn lemma_closure_is_least(eps: Seq<u64>, s: u64)
    ensures
        subset(s, closure(eps, s)),
        subset(step_image(eps, closure(eps, s)), closure(eps, s)),
        forall|c: u64|
            subset(s, c) && subset(step_image(eps, c), c) ==> #[trigger] subset(
                closure(eps, s),
                c,
            ),
    decreases u64::MAX - s,
{
    let img: u64 = step_image(eps, s);
    let new_bits: u64 = img & !s;
    lemma_subset_facts(s, 0, 0, 0, 0, 0);
    if new_bits != 0 {
        lemma_adding_new_bits_grows(s, img);
        let next: u64 = s | new_bits;
        lemma_closure_is_least(eps, next);
        let r: u64 = closure(eps, next);
        lemma_subset_facts(s, next, r, new_bits, 0, 0);
        assert forall|c: u64| subset(s, c) && subset(step_image(eps, c), c) implies #[trigger] subset(
            closure(eps, s),
            c,
        ) by {
            let img_c: u64 = step_image(eps, c);
            lemma_image_monotone(eps, s, c, N_NFA_STATES as nat);
            lemma_subset_facts(s, 0, 0, img, 0, 0);
            lemma_subset_facts(new_bits, img, img_c, 0, 0, 0);
            lemma_subset_facts(new_bits, img_c, c, 0, 0, 0);
            lemma_subset_facts(s, 0, c, new_bits, 0, 0);
            assert(subset(next, c));
            assert(subset(closure(eps, next), c));
        }
    }
}

proof fn lemma_union_facts(a: u64, b: u64, x: u64, y: u64, i: u64, v: u64)
    by (bit_vector)
    ensures
        (((a | b) >> i) & 1 == 1) == (((a >> i) & 1 == 1) || ((b >> i) & 1 == 1)),
        (x | y) | (a | b) == (x | a) | (y | b),
        a & !(x | a) == 0,
        (a & !b == 0 && b & !a == 0) ==> a == b,
        (if ((a | b) >> i) & 1 == 1 { v } else { 0 }) == (if (a >> i) & 1 == 1 { v } else { 0 }) | (if (b >> i) & 1 == 1 { v } else { 0 }),
{
}

/// The moves from a union of two masks are the union of the moves from each.
pub proof fn lemma_image_of_union(t: Seq<u64>, a: u64, b: u64, n: nat)
    ensures
        image(t, a | b, n) == image(t, a, n) | image(t, b, n),
    decreases n,
{
    if n == 0 {
        lemma_union_with_nothing(0);
    } else {
        let i: u64 = (n - 1) as u64;
        lemma_image_of_union(t, a, b, (n - 1) as nat);
        lemma_union_facts(a, b, 0, 0, i, t[n - 1]);
        lemma_union_facts(
            pick(a, i, t[n - 1]),
            pick(b, i, t[n - 1]),
            image(t, a, (n - 1) as nat),
            image(t, b, (n - 1) as nat),
            0,
            0,
        );
    }
}

/// The epsilon closure distributes over union: the closure of the union of
/// two masks is the union of their closures, and the closure of the empty
/// mask is empty.
pub proof fn lemma_closure_of_union(eps: Seq<u64>, s1: u64, s2: u64)
    ensures
        closure(eps, s1 | s2) == closure(eps, s1) | closure(eps, s2),
        closure(eps, 0) == 0,
{
    lemma_closure_of_empty(eps);
    let c1 = closure(eps, s1);
    let c2 = closure(eps, s2);
    let s = s1 | s2;
    let c = closure(eps, s);
    let u = c1 | c2;
    lemma_closure_is_least(eps, s1);
    lemma_closure_is_least(eps, s2);
    lemma_closure_is_least(eps, s);
    lemma_subset_facts(s1, c1, 0, s2, c2, 0);
    lemma_image_of_union(eps, c1, c2, N_NFA_STATES as nat);
    lemma_subset_facts(step_image(eps, c1), c1, 0, step_image(eps, c2), c2, 0);
    assert(subset(closure(eps, s), u));
    lemma_union_facts(s1, 0, s2, 0, 0, 0);
    lemma_union_facts(s2, 0, s1, 0, 0, 0);
    assert(s2 | s1 == s1 | s2) by (bit_vector);
    lemma_subset_facts(s1, s, c, 0, 0, 0);
    lemma_subset_facts(s2, s, c, 0, 0, 0);
    assert(subset(closure(eps, s1), c));
    assert(subset(closure(eps, s2), c));
    lemma_subset_facts(c1, 0, c, c2, 0, 0);
    lemma_union_facts(c, u, 0, 0, 0, 0);
}

} // verus!

//! The deterministic automaton of the language: 54 states, `Q0` initial,
//! `Q53` the dead state that every byte outside the alphabet leads to.

use vstd::prelude::*;
use vstd::string::StringSliceAdditionalSpecFns;
use crate::alphabet::{LETTER_A, LETTER_B, LETTER_C, is_letter_word};

verus! {

/// The states of the automaton, numbered as the rows of `DFA_TRANS`.
#[derive(Copy, Clone, Debug, PartialEq, Eq)]
pub enum DfaState {
    Q0,
    Q1,
    Q2,
    Q3,
    Q4,
    Q5,
    Q6,
    Q7,
    Q8,
    Q9,
    Q10,
    Q11,
    Q12,
    Q13,
    Q14,
    Q15,
    Q16,
    Q17,
    Q18,
    Q19,
    Q20,
    Q21,
    Q22,
    Q23,
    Q24,
    Q25,
    Q26,
    Q27,
    Q28,
    Q29,
    Q30,
    Q31,
    Q32,
    Q33,
    Q34,
    Q35,
    Q36,
    Q37,
    Q38,
    Q39,
    Q40,
    Q41,
    Q42,
    Q43,
    Q44,
    Q45,
    Q46,
    Q47,
    Q48,
    Q49,
    Q50,
    Q51,
    Q52,
    Q53,
}

/// Row `q` gives the successors of state `q` on `a`, `b` and `c`.
pub const DFA_TRANS: [[usize; 3]; 54] = [
    [19, 20, 21], // 0
    [28, 29, 27], // 1
    [28, 29, 2], // 2
    [3, 34, 27], // 3
    [19, 5, 21], // 4
    [25, 6, 27], // 5
    [25, 4, 27], // 6
    [25, 7, 27], // 7
    [11, 34, 27], // 8
    [25, 43, 10], // 9
    [28, 29, 9], // 10
    [8, 47, 27], // 11
    [19, 20, 12], // 12
    [13, 17, 21], // 13
    [19, 15, 21], // 14
    [19, 16, 21], // 15
    [25, 14, 27], // 16
    [19, 52, 18], // 17
    [53, 53, 12], // 18
    [49, 50, 53], // 19
    [53, 22, 53], // 20
    [53, 53, 0], // 21
    [53, 23, 53], // 22
    [19, 24, 21], // 23
    [25, 26, 27], // 24
    [38, 32, 53], // 25
    [53, 4, 53], // 26
    [53, 53, 1], // 27
    [31, 32, 53], // 28
    [53, 30, 53], // 29
    [53, 1, 53], // 30
    [3, 29, 27], // 31
    [28, 29, 33], // 32
    [53, 53, 2], // 33
    [28, 35, 33], // 34
    [53, 36, 53], // 35
    [28, 37, 27], // 36
    [28, 35, 27], // 37
    [8, 39, 27], // 38
    [25, 40, 41], // 39
    [53, 7, 53], // 40
    [53, 53, 42], // 41
    [25, 43, 41], // 42
    [53, 44, 53], // 43
    [53, 45, 53], // 44
    [25, 46, 27], // 45
    [25, 40, 27], // 46
    [25, 40, 48], // 47
    [53, 53, 9], // 48
    [13, 51, 21], // 49
    [19, 20, 18], // 50
    [25, 26, 41], // 51
    [53, 14, 53], // 52
    [53, 53, 53], // 53
];

/// Entry `q` tells whether state `q` is accepting.
pub const DFA_ACCEPT: [bool; 54] = [
    true, true, true, true, true, true, true, true, true, // 0..8
    true, true, true, true, true, true, true, true, true, // 9..17
    false, false, false, false, false, true, true, false, false, // 18..26
    false, false, false, false, true, true, false, true, false, // 27..35
    true, true, true, true, false, false, true, false, false, // 36..44
    true, true, true, false, true, true, true, false, false, // 45..53
];

/// The column of `DFA_TRANS` for the byte `b`, if `b` is a letter.
pub open spec fn column_of(b: u8) -> Option<int> {
    if b == LETTER_A {
        Some(0)
    } else if b == LETTER_B {
        Some(1)
    } else if b == LETTER_C {
        Some(2)
    } else {
        None
    }
}

impl DfaState {
    /// The number of the state.
    pub open spec fn id(self) -> usize {
        match self {
            DfaState::Q0 => 0,
            DfaState::Q1 => 1,
            DfaState::Q2 => 2,
            DfaState::Q3 => 3,
            DfaState::Q4 => 4,
            DfaState::Q5 => 5,
            DfaState::Q6 => 6,
            DfaState::Q7 => 7,
            DfaState::Q8 => 8,
            DfaState::Q9 => 9,
            DfaState::Q10 => 10,
            DfaState::Q11 => 11,
            DfaState::Q12 => 12,
            DfaState::Q13 => 13,
            DfaState::Q14 => 14,
            DfaState::Q15 => 15,
            DfaState::Q16 => 16,
            DfaState::Q17 => 17,
            DfaState::Q18 => 18,
            DfaState::Q19 => 19,
            DfaState::Q20 => 20,
            DfaState::Q21 => 21,
            DfaState::Q22 => 22,
            DfaState::Q23 => 23,
            DfaState::Q24 => 24,
            DfaState::Q25 => 25,
            DfaState::Q26 => 26,
            DfaState::Q27 => 27,
            DfaState::Q28 => 28,
            DfaState::Q29 => 29,
            DfaState::Q30 => 30,
            DfaState::Q31 => 31,
            DfaState::Q32 => 32,
            DfaState::Q33 => 33,
            DfaState::Q34 => 34,
            DfaState::Q35 => 35,
            DfaState::Q36 => 36,
            DfaState::Q37 => 37,
            DfaState::Q38 => 38,
            DfaState::Q39 => 39,
            DfaState::Q40 => 40,
            DfaState::Q41 => 41,
            DfaState::Q42 => 42,
            DfaState::Q43 => 43,
            DfaState::Q44 => 44,
            DfaState::Q45 => 45,
            DfaState::Q46 => 46,
            DfaState::Q47 => 47,
            DfaState::Q48 => 48,
            DfaState::Q49 => 49,
            DfaState::Q50 => 50,
            DfaState::Q51 => 51,
            DfaState::Q52 => 52,
            DfaState::Q53 => 53,
        }
    }

    /// The state numbered `v`; numbers from 53 up all give `Q53`.
    pub open spec fn numbered(v: u8) -> DfaState {
        match v {
            0 => DfaState::Q0,
            1 => DfaState::Q1,
            2 => DfaState::Q2,
            3 => DfaState::Q3,
            4 => DfaState::Q4,
            5 => DfaState::Q5,
            6 => DfaState::Q6,
            7 => DfaState::Q7,
            8 => DfaState::Q8,
            9 => DfaState::Q9,
            10 => DfaState::Q10,
            11 => DfaState::Q11,
            12 => DfaState::Q12,
            13 => DfaState::Q13,
            14 => DfaState::Q14,
            15 => DfaState::Q15,
            16 => DfaState::Q16,
            17 => DfaState::Q17,
            18 => DfaState::Q18,
            19 => DfaState::Q19,
            20 => DfaState::Q20,
            21 => DfaState::Q21,
            22 => DfaState::Q22,
            23 => DfaState::Q23,
            24 => DfaState::Q24,
            25 => DfaState::Q25,
            26 => DfaState::Q26,
            27 => DfaState::Q27,
            28 => DfaState::Q28,
            29 => DfaState::Q29,
            30 => DfaState::Q30,
            31 => DfaState::Q31,
            32 => DfaState::Q32,
            33 => DfaState::Q33,
            34 => DfaState::Q34,
            35 => DfaState::Q35,
            36 => DfaState::Q36,
            37 => DfaState::Q37,
            38 => DfaState::Q38,
            39 => DfaState::Q39,
            40 => DfaState::Q40,
            41 => DfaState::Q41,
            42 => DfaState::Q42,
            43 => DfaState::Q43,
            44 => DfaState::Q44,
            45 => DfaState::Q45,
            46 => DfaState::Q46,
            47 => DfaState::Q47,
            48 => DfaState::Q48,
            49 => DfaState::Q49,
            50 => DfaState::Q50,
            51 => DfaState::Q51,
            52 => DfaState::Q52,
            _ => DfaState::Q53,
        }
    }

    /// Whether the state is accepting.
    pub open spec fn accepting(self) -> bool {
        DFA_ACCEPT@[self.id() as int]
    }

    /// The state the automaton moves to on the byte `b`.
    pub open spec fn next(self, b: u8) -> DfaState {
        match column_of(b) {
            Some(k) => DfaState::numbered(DFA_TRANS@[self.id() as int]@[k] as u8),
            None => DfaState::Q53,
        }
    }

    /// The number of the state.
    pub fn idx(self) -> (r: usize)
        ensures
            r == self.id(),
            r < 54,
    {
        match self {
            DfaState::Q0 => 0,
            DfaState::Q1 => 1,
            DfaState::Q2 => 2,
            DfaState::Q3 => 3,
            DfaState::Q4 => 4,
            DfaState::Q5 => 5,
            DfaState::Q6 => 6,
            DfaState::Q7 => 7,
            DfaState::Q8 => 8,
            DfaState::Q9 => 9,
            DfaState::Q10 => 10,
            DfaState::Q11 => 11,
            DfaState::Q12 => 12,
            DfaState::Q13 => 13,
            DfaState::Q14 => 14,
            DfaState::Q15 => 15,
            DfaState::Q16 => 16,
            DfaState::Q17 => 17,
            DfaState::Q18 => 18,
            DfaState::Q19 => 19,
            DfaState::Q20 => 20,
            DfaState::Q21 => 21,
            DfaState::Q22 => 22,
            DfaState::Q23 => 23,
            DfaState::Q24 => 24,
            DfaState::Q25 => 25,
            DfaState::Q26 => 26,
            DfaState::Q27 => 27,
            DfaState::Q28 => 28,
            DfaState::Q29 => 29,
            DfaState::Q30 => 30,
            DfaState::Q31 => 31,
            DfaState::Q32 => 32,
            DfaState::Q33 => 33,
            DfaState::Q34 => 34,
            DfaState::Q35 => 35,
            DfaState::Q36 => 36,
            DfaState::Q37 => 37,
            DfaState::Q38 => 38,
            DfaState::Q39 => 39,
            DfaState::Q40 => 40,
            DfaState::Q41 => 41,
            DfaState::Q42 => 42,
            DfaState::Q43 => 43,
            DfaState::Q44 => 44,
            DfaState::Q45 => 45,
            DfaState::Q46 => 46,
            DfaState::Q47 => 47,
            DfaState::Q48 => 48,
            DfaState::Q49 => 49,
            DfaState::Q50 => 50,
            DfaState::Q51 => 51,
            DfaState::Q52 => 52,
            DfaState::Q53 => 53,
        }
    }

    /// The state numbered `v`; numbers from 53 up all give `Q53`.
    pub fn from_u8(v: u8) -> (r: DfaState)
        ensures
            r == DfaState::numbered(v),
            r.id() == if v < 53 { v as usize } else { 53 },
    {
        match v {
            0 => DfaState::Q0,
            1 => DfaState::Q1,
            2 => DfaState::Q2,
            3 => DfaState::Q3,
            4 => DfaState::Q4,
            5 => DfaState::Q5,
            6 => DfaState::Q6,
            7 => DfaState::Q7,
            8 => DfaState::Q8,
            9 => DfaState::Q9,
            10 => DfaState::Q10,
            11 => DfaState::Q11,
            12 => DfaState::Q12,
            13 => DfaState::Q13,
            14 => DfaState::Q14,
            15 => DfaState::Q15,
            16 => DfaState::Q16,
            17 => DfaState::Q17,
            18 => DfaState::Q18,
            19 => DfaState::Q19,
            20 => DfaState::Q20,
            21 => DfaState::Q21,
            22 => DfaState::Q22,
            23 => DfaState::Q23,
            24 => DfaState::Q24,
            25 => DfaState::Q25,
            26 => DfaState::Q26,
            27 => DfaState::Q27,
            28 => DfaState::Q28,
            29 => DfaState::Q29,
            30 => DfaState::Q30,
            31 => DfaState::Q31,
            32 => DfaState::Q32,
            33 => DfaState::Q33,
            34 => DfaState::Q34,
            35 => DfaState::Q35,
            36 => DfaState::Q36,
            37 => DfaState::Q37,
            38 => DfaState::Q38,
            39 => DfaState::Q39,
            40 => DfaState::Q40,
            41 => DfaState::Q41,
            42 => DfaState::Q42,
            43 => DfaState::Q43,
            44 => DfaState::Q44,
            45 => DfaState::Q45,
            46 => DfaState::Q46,
            47 => DfaState::Q47,
            48 => DfaState::Q48,
            49 => DfaState::Q49,
            50 => DfaState::Q50,
            51 => DfaState::Q51,
            52 => DfaState::Q52,
            _ => DfaState::Q53,
        }
    }

    /// Whether the state is accepting.
    pub fn is_accepting(self) -> (r: bool)
        ensures
            r == self.accepting(),
    {
        DFA_ACCEPT[self.idx()]
    }

    /// The state the automaton moves to on the byte `b`.
    pub fn step(self, b: u8) -> (r: DfaState)
        ensures
            r == self.next(b),
    {
        let sym: usize = if b == LETTER_A {
            0
        } else if b == LETTER_B {
            1
        } else if b == LETTER_C {
            2
        } else {
            return DfaState::Q53;
        };
        let next_idx: u8 = DFA_TRANS[self.idx()][sym] as u8;
        DfaState::from_u8(next_idx)
    }
}

/// The state the automaton is in after reading `w` from `Q0`.
pub open spec fn dfa_run(w: Seq<u8>) -> DfaState
    decreases w.len(),
{
    if w.len() == 0 {
        DfaState::Q0
    } else {
        dfa_run(w.drop_last()).next(w.last())
    }
}

/// The automaton accepts `w` when it ends in an accepting state.
pub open spec fn dfa_accepts_word(w: Seq<u8>) -> bool {
    dfa_run(w).accepting()
}

/// Every state is the state numbered by its own number.
pub proof fn lemma_numbers_round_trip(q: DfaState)
    ensures
        DfaState::numbered(q.id() as u8) == q,
        q.id() < 54,
{
}

/// `Q53` is never left and never accepts.
pub proof fn lemma_dead_state_absorbs(b: u8)
    ensures
        DfaState::Q53.next(b) == DfaState::Q53,
        !DfaState::Q53.accepting(),
{
}


impl DfaState {
    /// The state the automaton is in after reading `w` from this state.
    pub open spec fn run_from(self, w: Seq<u8>) -> DfaState
        decreases w.len(),
    {
        if w.len() == 0 {
            self
        } else {
            self.run_from(w.drop_last()).next(w.last())
        }
    }
}

/// A word of at most two letters that leads from `q` to an accepting state,
/// for every state but `Q53`.
pub open spec fn acceptance_witness(q: DfaState) -> Seq<u8> {
    match q {
        DfaState::Q0 => seq![],
        DfaState::Q1 => seq![],
        DfaState::Q2 => seq![],
        DfaState::Q3 => seq![],
        DfaState::Q4 => seq![],
        DfaState::Q5 => seq![],
        DfaState::Q6 => seq![],
        DfaState::Q7 => seq![],
        DfaState::Q8 => seq![],
        DfaState::Q9 => seq![],
        DfaState::Q10 => seq![],
        DfaState::Q11 => seq![],
        DfaState::Q12 => seq![],
        DfaState::Q13 => seq![],
        DfaState::Q14 => seq![],
        DfaState::Q15 => seq![],
        DfaState::Q16 => seq![],
        DfaState::Q17 => seq![],
        DfaState::Q18 => seq![LETTER_C],
        DfaState::Q19 => seq![LETTER_A],
        DfaState::Q20 => seq![LETTER_B, LETTER_B],
        DfaState::Q21 => seq![LETTER_C],
        DfaState::Q22 => seq![LETTER_B],
        DfaState::Q23 => seq![],
        DfaState::Q24 => seq![],
        DfaState::Q25 => seq![LETTER_A],
        DfaState::Q26 => seq![LETTER_B],
        DfaState::Q27 => seq![LETTER_C],
        DfaState::Q28 => seq![LETTER_A],
        DfaState::Q29 => seq![LETTER_B, LETTER_B],
        DfaState::Q30 => seq![LETTER_B],
        DfaState::Q31 => seq![],
        DfaState::Q32 => seq![],
        DfaState::Q33 => seq![LETTER_C],
        DfaState::Q34 => seq![],
        DfaState::Q35 => seq![LETTER_B],
        DfaState::Q36 => seq![],
        DfaState::Q37 => seq![],
        DfaState::Q38 => seq![],
        DfaState::Q39 => seq![],
        DfaState::Q40 => seq![LETTER_B],
        DfaState::Q41 => seq![LETTER_C],
        DfaState::Q42 => seq![],
        DfaState::Q43 => seq![LETTER_B, LETTER_B],
        DfaState::Q44 => seq![LETTER_B],
        DfaState::Q45 => seq![],
        DfaState::Q46 => seq![],
        DfaState::Q47 => seq![],
        DfaState::Q48 => seq![LETTER_C],
        DfaState::Q49 => seq![],
        DfaState::Q50 => seq![],
        DfaState::Q51 => seq![],
        DfaState::Q52 => seq![LETTER_B],
        DfaState::Q53 => seq![],
    }
}

/// The automaton's run on a word is its run from `Q0`.
pub proof fn lemma_run_is_run_from_start(w: Seq<u8>)
    ensures
        dfa_run(w) == DfaState::Q0.run_from(w),
    decreases w.len(),
{
    if w.len() > 0 {
        lemma_run_is_run_from_start(w.drop_last());
    }
}

/// From `Q53` every word leads back to `Q53`, which does not accept.
pub proof fn lemma_dead_state_absorbs_words(w: Seq<u8>)
    ensures
        DfaState::Q53.run_from(w) == DfaState::Q53,
        !DfaState::Q53.run_from(w).accepting(),
    decreases w.len(),
{
    if w.len() > 0 {
        lemma_dead_state_absorbs_words(w.drop_last());
    }
}

/// `Q53` is the only state from which no word is accepted: from every other
/// state a word of at most two letters leads to acceptance.
pub proof fn lemma_only_dead_state_rejects_all(q: DfaState)
    requires
        q != DfaState::Q53,
    ensures
        acceptance_witness(q).len() <= 2,
        is_letter_word(acceptance_witness(q)),
        q.run_from(acceptance_witness(q)).accepting(),
{
    reveal_with_fuel(DfaState::run_from, 3);
    let w = acceptance_witness(q);
    if w.len() > 0 {
        assert(w.drop_last().len() == 0 || w.drop_last().drop_last().len() == 0);
    }
}

/// Whether the automaton accepts `word`, read byte by byte.
pub fn dfa_accepts(word: &str) -> (r: bool)
    ensures
        r == dfa_accepts_word(word.spec_bytes()),
{
    let bytes = word.as_bytes();
    let ghost w = word.spec_bytes();
    let mut state = DfaState::Q0;
    proof {
        assert(w.take(0) =~= Seq::<u8>::empty());
    }
    for i in 0..bytes.len()
        invariant
            bytes@ == w,
            w == word.spec_bytes(),
            state == dfa_run(w.take(i as int)),
    {
        proof {
            assert(w.take(i + 1).drop_last() =~= w.take(i as int));
        }
        state = state.step(bytes[i]);
    }
    proof {
        assert(w.take(w.len() as int) =~= w);
    }
    state.is_accepting()
}

} // verus!

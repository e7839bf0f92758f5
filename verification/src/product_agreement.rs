//! The product of the six automata and the deterministic automaton accept the
//! same words: for each state of the deterministic automaton, the states that
//! the property automata can be in beside it.

use vstd::prelude::*;
use crate::dfa::{DfaState, dfa_run, dfa_accepts_word};
use crate::guards::{
    NoBcaState, NoSingleCState, AbcInvState, NoBBBlockLen2State, NoCBlockAorBThenCState,
};
use crate::product::pka_accepts_word;

verus! {

/// The states of the five property automata that can accompany the state `q`
/// of the deterministic automaton on a common word. From `Q53` no word leads
/// to acceptance, so it may stand with any of them.
pub open spec fn guards_fit(
    q: DfaState,
    bc: NoBcaState,
    cc: NoSingleCState,
    abc: AbcInvState,
    bb: NoBBBlockLen2State,
    cb: NoCBlockAorBThenCState,
) -> bool {
    match q {
        DfaState::Q0 => {
            (bc == NoBcaState::Bc0 && cc == NoSingleCState::Cc0
                && abc == AbcInvState::Abc0 && bb == NoBBBlockLen2State::Bb0
                && cb == NoCBlockAorBThenCState::Cb0)
            || (bc == NoBcaState::Bc0 && cc == NoSingleCState::Cc2
                && abc == AbcInvState::AbcC && bb == NoBBBlockLen2State::Bb0
                && cb == NoCBlockAorBThenCState::CbC)
        },
        DfaState::Q1 => {
            (bc == NoBcaState::Bc0 && cc == NoSingleCState::Cc2
                && abc == AbcInvState::AbcC && bb == NoBBBlockLen2State::Bb0
                && cb == NoCBlockAorBThenCState::CbC)
            || (bc == NoBcaState::Bc1 && cc == NoSingleCState::Cc0
                && abc == AbcInvState::AbcAB && bb == NoBBBlockLen2State::Bb3
                && cb == NoCBlockAorBThenCState::Cb0)
        },
        DfaState::Q2 => {
            (bc == NoBcaState::Bc0 && cc == NoSingleCState::Cc2
                && abc == AbcInvState::AbcC && bb == NoBBBlockLen2State::Bb0
                && cb == NoCBlockAorBThenCState::CbC)
        },
        DfaState::Q3 => {
            (bc == NoBcaState::Bc0 && cc == NoSingleCState::Cc0
                && abc == AbcInvState::AbcAB && bb == NoBBBlockLen2State::Bb0
                && cb == NoCBlockAorBThenCState::Cb0)
        },
        DfaState::Q4 => {
            (bc == NoBcaState::Bc1 && cc == NoSingleCState::Cc0
                && abc == AbcInvState::AbcAB && bb == NoBBBlockLen2State::Bb3
                && cb == NoCBlockAorBThenCState::Cb0)
        },
        DfaState::Q5 => {
            (bc == NoBcaState::Bc1 && cc == NoSingleCState::Cc0
                && abc == AbcInvState::AbcAB && bb == NoBBBlockLen2State::Bb3
                && cb == NoCBlockAorBThenCState::Cb0)
        },
        DfaState::Q6 => {
            (bc == NoBcaState::Bc1 && cc == NoSingleCState::Cc0
                && abc == AbcInvState::AbcAB && bb == NoBBBlockLen2State::Bb3
                && cb == NoCBlockAorBThenCState::Cb0)
        },
        DfaState::Q7 => {
            (bc == NoBcaState::Bc1 && cc == NoSingleCState::Cc0
                && abc == AbcInvState::AbcAB && bb == NoBBBlockLen2State::Bb3
                && cb == NoCBlockAorBThenCState::Cb0)
        },
        DfaState::Q8 => {
            (bc == NoBcaState::Bc0 && cc == NoSingleCState::Cc0
                && abc == AbcInvState::AbcAB && bb == NoBBBlockLen2State::Bb0
                && cb == NoCBlockAorBThenCState::Cb0)
        },
        DfaState::Q9 => {
            (bc == NoBcaState::Bc0 && cc == NoSingleCState::Cc2
                && abc == AbcInvState::AbcC && bb == NoBBBlockLen2State::Bb0
                && cb == NoCBlockAorBThenCState::CbC)
        },
        DfaState::Q10 => {
            (bc == NoBcaState::Bc0 && cc == NoSingleCState::Cc2
                && abc == AbcInvState::AbcC && bb == NoBBBlockLen2State::Bb0
                && cb == NoCBlockAorBThenCState::CbC)
        },
        DfaState::Q11 => {
            (bc == NoBcaState::Bc0 && cc == NoSingleCState::Cc0
                && abc == AbcInvState::AbcAB && bb == NoBBBlockLen2State::Bb0
                && cb == NoCBlockAorBThenCState::Cb0)
        },
        DfaState::Q12 => {
            (bc == NoBcaState::Bc0 && cc == NoSingleCState::Cc2
                && abc == AbcInvState::AbcC && bb == NoBBBlockLen2State::Bb0
                && cb == NoCBlockAorBThenCState::CbC)
        },
        DfaState::Q13 => {
            (bc == NoBcaState::Bc0 && cc == NoSingleCState::Cc0
                && abc == AbcInvState::AbcAB && bb == NoBBBlockLen2State::Bb0
                && cb == NoCBlockAorBThenCState::Cb0)
        },
        DfaState::Q14 => {
            (bc == NoBcaState::Bc1 && cc == NoSingleCState::Cc0
                && abc == AbcInvState::AbcAB && bb == NoBBBlockLen2State::Bb3
                && cb == NoCBlockAorBThenCState::Cb0)
        },
        DfaState::Q15 => {
            (bc == NoBcaState::Bc1 && cc == NoSingleCState::Cc0
                && abc == AbcInvState::AbcAB && bb == NoBBBlockLen2State::Bb3
                && cb == NoCBlockAorBThenCState::Cb0)
        },
        DfaState::Q16 => {
            (bc == NoBcaState::Bc1 && cc == NoSingleCState::Cc0
                && abc == AbcInvState::AbcAB && bb == NoBBBlockLen2State::Bb3
                && cb == NoCBlockAorBThenCState::Cb0)
        },
        DfaState::Q17 => {
            (bc == NoBcaState::Bc1 && cc == NoSingleCState::Cc0
                && abc == AbcInvState::AbcAB && bb == NoBBBlockLen2State::Bb1
                && cb == NoCBlockAorBThenCState::Cb0)
        },
        DfaState::Q18 => {
            (bc == NoBcaState::Bc2 && cc == NoSingleCState::Cc1
                && abc == AbcInvState::AbcNE && bb == NoBBBlockLen2State::Bb0
                && cb == NoCBlockAorBThenCState::CbC)
        },
        DfaState::Q19 => {
            (bc == NoBcaState::Bc0 && cc == NoSingleCState::Cc0
                && abc == AbcInvState::AbcAB && bb == NoBBBlockLen2State::Bb0
                && cb == NoCBlockAorBThenCState::Cb0)
            || (bc == NoBcaState::Bc0 && cc == NoSingleCState::Cc0
                && abc == AbcInvState::AbcAB && bb == NoBBBlockLen2State::Bb0
                && cb == NoCBlockAorBThenCState::Cb1)
        },
        DfaState::Q20 => {
            (bc == NoBcaState::Bc1 && cc == NoSingleCState::Cc0
                && abc == AbcInvState::AbcAB && bb == NoBBBlockLen2State::Bb1
                && cb == NoCBlockAorBThenCState::Cb0)
            || (bc == NoBcaState::Bc1 && cc == NoSingleCState::Cc0
                && abc == AbcInvState::AbcAB && bb == NoBBBlockLen2State::Bb1
                && cb == NoCBlockAorBThenCState::Cb1)
            || (bc == NoBcaState::Bc1 && cc == NoSingleCState::Cc0
                && abc == AbcInvState::AbcAB && bb == NoBBBlockLen2State::Bb2
                && cb == NoCBlockAorBThenCState::Cb0)
        },
        DfaState::Q21 => {
            (bc == NoBcaState::Bc0 && cc == NoSingleCState::Cc1
                && abc == AbcInvState::AbcC && bb == NoBBBlockLen2State::Bb0
                && cb == NoCBlockAorBThenCState::CbC)
            || (bc == NoBcaState::Bc0 && cc == NoSingleCState::Cc1
                && abc == AbcInvState::AbcNE && bb == NoBBBlockLen2State::Bb0
                && cb == NoCBlockAorBThenCState::CbC)
            || (bc == NoBcaState::Bc0 && cc == NoSingleCState::Cc2
                && abc == AbcInvState::AbcC && bb == NoBBBlockLen2State::Bb0
                && cb == NoCBlockAorBThenCState::CbC)
            || (bc == NoBcaState::Bc2 && cc == NoSingleCState::Cc1
                && abc == AbcInvState::AbcNE && bb == NoBBBlockLen2State::Bb0
                && cb == NoCBlockAorBThenCState::CbC)
        },
        DfaState::Q22 => {
            (bc == NoBcaState::Bc1 && cc == NoSingleCState::Cc0
                && abc == AbcInvState::AbcAB && bb == NoBBBlockLen2State::Bb2
                && cb == NoCBlockAorBThenCState::Cb0)
            || (bc == NoBcaState::Bc1 && cc == NoSingleCState::Cc0
                && abc == AbcInvState::AbcAB && bb == NoBBBlockLen2State::Bb3
                && cb == NoCBlockAorBThenCState::Cb0)
        },
        DfaState::Q23 => {
            (bc == NoBcaState::Bc1 && cc == NoSingleCState::Cc0
                && abc == AbcInvState::AbcAB && bb == NoBBBlockLen2State::Bb3
                && cb == NoCBlockAorBThenCState::Cb0)
        },
        DfaState::Q24 => {
            (bc == NoBcaState::Bc1 && cc == NoSingleCState::Cc0
                && abc == AbcInvState::AbcAB && bb == NoBBBlockLen2State::Bb3
                && cb == NoCBlockAorBThenCState::Cb0)
        },
        DfaState::Q25 => {
            (bc == NoBcaState::Bc0 && cc == NoSingleCState::Cc0
                && abc == AbcInvState::AbcAB && bb == NoBBBlockLen2State::Bb0
                && cb == NoCBlockAorBThenCState::Cb0)
            || (bc == NoBcaState::Bc0 && cc == NoSingleCState::Cc0
                && abc == AbcInvState::AbcAB && bb == NoBBBlockLen2State::Bb0
                && cb == NoCBlockAorBThenCState::Cb1)
        },
        DfaState::Q26 => {
            (bc == NoBcaState::Bc1 && cc == NoSingleCState::Cc0
                && abc == AbcInvState::AbcAB && bb == NoBBBlockLen2State::Bb2
                && cb == NoCBlockAorBThenCState::Cb0)
            || (bc == NoBcaState::Bc1 && cc == NoSingleCState::Cc0
                && abc == AbcInvState::AbcAB && bb == NoBBBlockLen2State::Bb3
                && cb == NoCBlockAorBThenCState::Cb0)
        },
        DfaState::Q27 => {
            (bc == NoBcaState::Bc0 && cc == NoSingleCState::Cc1
                && abc == AbcInvState::AbcNE && bb == NoBBBlockLen2State::Bb0
                && cb == NoCBlockAorBThenCState::CbC)
            || (bc == NoBcaState::Bc0 && cc == NoSingleCState::Cc2
                && abc == AbcInvState::AbcC && bb == NoBBBlockLen2State::Bb0
                && cb == NoCBlockAorBThenCState::CbC)
            || (bc == NoBcaState::Bc2 && cc == NoSingleCState::Cc1
                && abc == AbcInvState::AbcNE && bb == NoBBBlockLen2State::Bb0
                && cb == NoCBlockAorBThenCState::CbC)
        },
        DfaState::Q28 => {
            (bc == NoBcaState::Bc0 && cc == NoSingleCState::Cc0
                && abc == AbcInvState::AbcAB && bb == NoBBBlockLen2State::Bb0
                && cb == NoCBlockAorBThenCState::Cb0)
            || (bc == NoBcaState::Bc0 && cc == NoSingleCState::Cc0
                && abc == AbcInvState::AbcAB && bb == NoBBBlockLen2State::Bb0
                && cb == NoCBlockAorBThenCState::Cb1)
        },
        DfaState::Q29 => {
            (bc == NoBcaState::Bc1 && cc == NoSingleCState::Cc0
                && abc == AbcInvState::AbcAB && bb == NoBBBlockLen2State::Bb1
                && cb == NoCBlockAorBThenCState::Cb0)
            || (bc == NoBcaState::Bc1 && cc == NoSingleCState::Cc0
                && abc == AbcInvState::AbcAB && bb == NoBBBlockLen2State::Bb1
                && cb == NoCBlockAorBThenCState::Cb1)
            || (bc == NoBcaState::Bc1 && cc == NoSingleCState::Cc0
                && abc == AbcInvState::AbcAB && bb == NoBBBlockLen2State::Bb2
                && cb == NoCBlockAorBThenCState::Cb0)
            || (bc == NoBcaState::Bc1 && cc == NoSingleCState::Cc0
                && abc == AbcInvState::AbcAB && bb == NoBBBlockLen2State::Bb3
                && cb == NoCBlockAorBThenCState::Cb0)
        },
        DfaState::Q30 => {
            (bc == NoBcaState::Bc1 && cc == NoSingleCState::Cc0
                && abc == AbcInvState::AbcAB && bb == NoBBBlockLen2State::Bb2
                && cb == NoCBlockAorBThenCState::Cb0)
            || (bc == NoBcaState::Bc1 && cc == NoSingleCState::Cc0
                && abc == AbcInvState::AbcAB && bb == NoBBBlockLen2State::Bb3
                && cb == NoCBlockAorBThenCState::Cb0)
        },
        DfaState::Q31 => {
            (bc == NoBcaState::Bc0 && cc == NoSingleCState::Cc0
                && abc == AbcInvState::AbcAB && bb == NoBBBlockLen2State::Bb0
                && cb == NoCBlockAorBThenCState::Cb0)
        },
        DfaState::Q32 => {
            (bc == NoBcaState::Bc1 && cc == NoSingleCState::Cc0
                && abc == AbcInvState::AbcAB && bb == NoBBBlockLen2State::Bb1
                && cb == NoCBlockAorBThenCState::Cb0)
        },
        DfaState::Q33 => {
            (bc == NoBcaState::Bc2 && cc == NoSingleCState::Cc1
                && abc == AbcInvState::AbcNE && bb == NoBBBlockLen2State::Bb0
                && cb == NoCBlockAorBThenCState::CbC)
        },
        DfaState::Q34 => {
            (bc == NoBcaState::Bc1 && cc == NoSingleCState::Cc0
                && abc == AbcInvState::AbcAB && bb == NoBBBlockLen2State::Bb1
                && cb == NoCBlockAorBThenCState::Cb0)
        },
        DfaState::Q35 => {
            (bc == NoBcaState::Bc1 && cc == NoSingleCState::Cc0
                && abc == AbcInvState::AbcAB && bb == NoBBBlockLen2State::Bb2
                && cb == NoCBlockAorBThenCState::Cb0)
            || (bc == NoBcaState::Bc1 && cc == NoSingleCState::Cc0
                && abc == AbcInvState::AbcAB && bb == NoBBBlockLen2State::Bb3
                && cb == NoCBlockAorBThenCState::Cb0)
        },
        DfaState::Q36 => {
            (bc == NoBcaState::Bc1 && cc == NoSingleCState::Cc0
                && abc == AbcInvState::AbcAB && bb == NoBBBlockLen2State::Bb3
                && cb == NoCBlockAorBThenCState::Cb0)
        },
        DfaState::Q37 => {
            (bc == NoBcaState::Bc1 && cc == NoSingleCState::Cc0
                && abc == AbcInvState::AbcAB && bb == NoBBBlockLen2State::Bb3
                && cb == NoCBlockAorBThenCState::Cb0)
        },
        DfaState::Q38 => {
            (bc == NoBcaState::Bc0 && cc == NoSingleCState::Cc0
                && abc == AbcInvState::AbcAB && bb == NoBBBlockLen2State::Bb0
                && cb == NoCBlockAorBThenCState::Cb0)
        },
        DfaState::Q39 => {
            (bc == NoBcaState::Bc1 && cc == NoSingleCState::Cc0
                && abc == AbcInvState::AbcAB && bb == NoBBBlockLen2State::Bb1
                && cb == NoCBlockAorBThenCState::Cb0)
        },
        DfaState::Q40 => {
            (bc == NoBcaState::Bc1 && cc == NoSingleCState::Cc0
                && abc == AbcInvState::AbcAB && bb == NoBBBlockLen2State::Bb2
                && cb == NoCBlockAorBThenCState::Cb0)
            || (bc == NoBcaState::Bc1 && cc == NoSingleCState::Cc0
                && abc == AbcInvState::AbcAB && bb == NoBBBlockLen2State::Bb3
                && cb == NoCBlockAorBThenCState::Cb0)
        },
        DfaState::Q41 => {
            (bc == NoBcaState::Bc0 && cc == NoSingleCState::Cc2
                && abc == AbcInvState::AbcC && bb == NoBBBlockLen2State::Bb0
                && cb == NoCBlockAorBThenCState::CbC)
            || (bc == NoBcaState::Bc2 && cc == NoSingleCState::Cc1
                && abc == AbcInvState::AbcNE && bb == NoBBBlockLen2State::Bb0
                && cb == NoCBlockAorBThenCState::CbC)
        },
        DfaState::Q42 => {
            (bc == NoBcaState::Bc0 && cc == NoSingleCState::Cc2
                && abc == AbcInvState::AbcC && bb == NoBBBlockLen2State::Bb0
                && cb == NoCBlockAorBThenCState::CbC)
        },
        DfaState::Q43 => {
            (bc == NoBcaState::Bc1 && cc == NoSingleCState::Cc0
                && abc == AbcInvState::AbcAB && bb == NoBBBlockLen2State::Bb1
                && cb == NoCBlockAorBThenCState::Cb1)
        },
        DfaState::Q44 => {
            (bc == NoBcaState::Bc1 && cc == NoSingleCState::Cc0
                && abc == AbcInvState::AbcAB && bb == NoBBBlockLen2State::Bb2
                && cb == NoCBlockAorBThenCState::Cb0)
        },
        DfaState::Q45 => {
            (bc == NoBcaState::Bc1 && cc == NoSingleCState::Cc0
                && abc == AbcInvState::AbcAB && bb == NoBBBlockLen2State::Bb3
                && cb == NoCBlockAorBThenCState::Cb0)
        },
        DfaState::Q46 => {
            (bc == NoBcaState::Bc1 && cc == NoSingleCState::Cc0
                && abc == AbcInvState::AbcAB && bb == NoBBBlockLen2State::Bb3
                && cb == NoCBlockAorBThenCState::Cb0)
        },
        DfaState::Q47 => {
            (bc == NoBcaState::Bc1 && cc == NoSingleCState::Cc0
                && abc == AbcInvState::AbcAB && bb == NoBBBlockLen2State::Bb1
                && cb == NoCBlockAorBThenCState::Cb0)
        },
        DfaState::Q48 => {
            (bc == NoBcaState::Bc2 && cc == NoSingleCState::Cc1
                && abc == AbcInvState::AbcNE && bb == NoBBBlockLen2State::Bb0
                && cb == NoCBlockAorBThenCState::CbC)
        },
        DfaState::Q49 => {
            (bc == NoBcaState::Bc0 && cc == NoSingleCState::Cc0
                && abc == AbcInvState::AbcAB && bb == NoBBBlockLen2State::Bb0
                && cb == NoCBlockAorBThenCState::Cb0)
        },
        DfaState::Q50 => {
            (bc == NoBcaState::Bc1 && cc == NoSingleCState::Cc0
                && abc == AbcInvState::AbcAB && bb == NoBBBlockLen2State::Bb1
                && cb == NoCBlockAorBThenCState::Cb0)
        },
        DfaState::Q51 => {
            (bc == NoBcaState::Bc1 && cc == NoSingleCState::Cc0
                && abc == AbcInvState::AbcAB && bb == NoBBBlockLen2State::Bb1
                && cb == NoCBlockAorBThenCState::Cb0)
        },
        DfaState::Q52 => {
            (bc == NoBcaState::Bc1 && cc == NoSingleCState::Cc0
                && abc == AbcInvState::AbcAB && bb == NoBBBlockLen2State::Bb2
                && cb == NoCBlockAorBThenCState::Cb0)
        },
        DfaState::Q53 => true,
    }
}

/// One byte keeps the states of the six automata fitting together.
pub proof fn lemma_guards_fit_step(
    q: DfaState,
    bc: NoBcaState,
    cc: NoSingleCState,
    abc: AbcInvState,
    bb: NoBBBlockLen2State,
    cb: NoCBlockAorBThenCState,
    b: u8,
)
    requires
        guards_fit(q, bc, cc, abc, bb, cb),
    ensures
        guards_fit(q.next(b), bc.next(b), cc.next(b), abc.next(b), bb.next(b), cb.next(b)),
{
}

/// When the deterministic automaton accepts, the property automata that fit
/// with it accept too.
pub proof fn lemma_guards_fit_accepting(
    q: DfaState,
    bc: NoBcaState,
    cc: NoSingleCState,
    abc: AbcInvState,
    bb: NoBBBlockLen2State,
    cb: NoCBlockAorBThenCState,
)
    requires
        guards_fit(q, bc, cc, abc, bb, cb),
        q.accepting(),
    ensures
        bc.accepting(),
        cc.accepting(),
        abc.accepting(),
        bb.accepting(),
        cb.accepting(),
{
}

/// On every word the six automata end in states that fit together.
pub proof fn lemma_guards_fit_on_every_word(w: Seq<u8>)
    ensures
        guards_fit(
            dfa_run(w),
            NoBcaState::run(w),
            NoSingleCState::run(w),
            AbcInvState::run(w),
            NoBBBlockLen2State::run(w),
            NoCBlockAorBThenCState::run(w),
        ),
    decreases w.len(),
{
    if w.len() > 0 {
        let v = w.drop_last();
        lemma_guards_fit_on_every_word(v);
        lemma_guards_fit_step(
            dfa_run(v),
            NoBcaState::run(v),
            NoSingleCState::run(v),
            AbcInvState::run(v),
            NoBBBlockLen2State::run(v),
            NoCBlockAorBThenCState::run(v),
            w.last(),
        );
    }
}

/// The product of the six automata accepts exactly the words that the
/// deterministic automaton accepts: the five properties hold of every word of
/// its language.
pub proof fn lemma_product_agrees_with_dfa(w: Seq<u8>)
    ensures
        pka_accepts_word(w) == dfa_accepts_word(w),
{
    lemma_guards_fit_on_every_word(w);
    if dfa_accepts_word(w) {
        lemma_guards_fit_accepting(
            dfa_run(w),
            NoBcaState::run(w),
            NoSingleCState::run(w),
            AbcInvState::run(w),
            NoBBBlockLen2State::run(w),
            NoCBlockAorBThenCState::run(w),
        );
    }
}

} // verus!

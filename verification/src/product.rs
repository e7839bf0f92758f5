//! The product of the deterministic automaton with the five property automata:
//! a word is accepted when all six accept it.

use vstd::prelude::*;
use vstd::string::StringSliceAdditionalSpecFns;
use crate::dfa::{DfaState, dfa_run, dfa_accepts_word};
use crate::guards::{
    NoBcaState, NoSingleCState, AbcInvState, NoBBBlockLen2State, NoCBlockAorBThenCState,
};

verus! {

/// The product accepts `w` when each of its six automata ends in an accepting state.
pub open spec fn pka_accepts_word(w: Seq<u8>) -> bool {
    &&& dfa_accepts_word(w)
    &&& NoSingleCState::run(w).accepting()
    &&& AbcInvState::run(w).accepting()
    &&& NoBBBlockLen2State::run(w).accepting()
    &&& NoCBlockAorBThenCState::run(w).accepting()
    &&& NoBcaState::run(w).accepting()
}

/// Whether all six automata accept `word`, run side by side over its bytes.
pub fn pka_accepts(word: &str) -> (r: bool)
    ensures
        r == pka_accepts_word(word.spec_bytes()),
{
    let bytes = word.as_bytes();
    let ghost w = word.spec_bytes();
    let mut dfa = DfaState::Q0;
    let mut bc = NoBcaState::Bc0;
    let mut cc = NoSingleCState::Cc0;
    let mut abc = AbcInvState::Abc0;
    let mut bb = NoBBBlockLen2State::Bb0;
    let mut cb = NoCBlockAorBThenCState::Cb0;
    proof {
        assert(w.take(0) =~= Seq::<u8>::empty());
    }
    for i in 0..bytes.len()
        invariant
            bytes@ == w,
            w == word.spec_bytes(),
            dfa == dfa_run(w.take(i as int)),
            bc == NoBcaState::run(w.take(i as int)),
            cc == NoSingleCState::run(w.take(i as int)),
            abc == AbcInvState::run(w.take(i as int)),
            bb == NoBBBlockLen2State::run(w.take(i as int)),
            cb == NoCBlockAorBThenCState::run(w.take(i as int)),
    {
        let b: u8 = bytes[i];
        proof {
            assert(w.take(i + 1).drop_last() =~= w.take(i as int));
        }
        dfa = dfa.step(b);
        cc = cc.step(b);
        abc = abc.step(b);
        bb = bb.step(b);
        cb = cb.step(b);
        bc = bc.step(b);
    }
    proof {
        assert(w.take(w.len() as int) =~= w);
    }
    dfa.is_accepting() && cc.is_accepting() && abc.is_accepting() && bb.is_accepting()
        && cb.is_accepting() && bc.is_accepting()
}

} // verus!

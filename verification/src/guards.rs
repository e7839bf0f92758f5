//! Five small automata, each for one property of the words of the language.
//! Every byte outside the alphabet sends each of them to its dead state,
//! which it never leaves.

use vstd::prelude::*;
use crate::alphabet::{LETTER_A, LETTER_B, LETTER_C};

verus! {

/// Words without the factor `bca`.
#[derive(Copy, Clone, Debug, PartialEq, Eq, Structural)]
pub enum NoBcaState {
    Bc0,
    Bc1,
    Bc2,
    Dead,
}

impl NoBcaState {
    /// The state the automaton is in after reading `w` from `Bc0`.
    pub open spec fn run(w: Seq<u8>) -> NoBcaState
        decreases w.len(),
    {
        if w.len() == 0 {
            NoBcaState::Bc0
        } else {
            NoBcaState::run(w.drop_last()).next(w.last())
        }
    }

    /// The state reached on the byte `b`.
    pub open spec fn next(self, b: u8) -> NoBcaState {
        match self {
            NoBcaState::Bc0 => {
                if b == LETTER_B {
                    NoBcaState::Bc1
                } else if b == LETTER_A || b == LETTER_C {
                    NoBcaState::Bc0
                } else {
                    NoBcaState::Dead
                }
            },
            NoBcaState::Bc1 => {
                if b == LETTER_B {
                    NoBcaState::Bc1
                } else if b == LETTER_C {
                    NoBcaState::Bc2
                } else if b == LETTER_A {
                    NoBcaState::Bc0
                } else {
                    NoBcaState::Dead
                }
            },
            NoBcaState::Bc2 => {
                if b == LETTER_A {
                    NoBcaState::Dead
                } else if b == LETTER_B {
                    NoBcaState::Bc1
                } else if b == LETTER_C {
                    NoBcaState::Bc0
                } else {
                    NoBcaState::Dead
                }
            },
            NoBcaState::Dead => NoBcaState::Dead,
        }
    }

    /// Whether the state is accepting.
    pub open spec fn accepting(self) -> bool {
        self == NoBcaState::Bc0 || self == NoBcaState::Bc1 || self == NoBcaState::Bc2
    }

    /// The state reached on the byte `b`.
    pub fn step(self, b: u8) -> (r: NoBcaState)
        ensures
            r == self.next(b),
    {
        match self {
            NoBcaState::Bc0 => {
                if b == LETTER_B {
                    NoBcaState::Bc1
                } else if b == LETTER_A || b == LETTER_C {
                    NoBcaState::Bc0
                } else {
                    NoBcaState::Dead
                }
            },
            NoBcaState::Bc1 => {
                if b == LETTER_B {
                    NoBcaState::Bc1
                } else if b == LETTER_C {
                    NoBcaState::Bc2
                } else if b == LETTER_A {
                    NoBcaState::Bc0
                } else {
                    NoBcaState::Dead
                }
            },
            NoBcaState::Bc2 => {
                if b == LETTER_A {
                    NoBcaState::Dead
                } else if b == LETTER_B {
                    NoBcaState::Bc1
                } else if b == LETTER_C {
                    NoBcaState::Bc0
                } else {
                    NoBcaState::Dead
                }
            },
            NoBcaState::Dead => NoBcaState::Dead,
        }
    }

    /// Whether the state is accepting.
    pub fn is_accepting(self) -> (r: bool)
        ensures
            r == self.accepting(),
    {
        match self {
            NoBcaState::Bc0 | NoBcaState::Bc1 | NoBcaState::Bc2 => true,
            _ => false,
        }
    }
}

/// Words in which no block of `c` has length one.
#[derive(Copy, Clone, Debug, PartialEq, Eq, Structural)]
pub enum NoSingleCState {
    Cc0,
    Cc1,
    Cc2,
    Dead,
}

impl NoSingleCState {
    /// The state the automaton is in after reading `w` from `Cc0`.
    pub open spec fn run(w: Seq<u8>) -> NoSingleCState
        decreases w.len(),
    {
        if w.len() == 0 {
            NoSingleCState::Cc0
        } else {
            NoSingleCState::run(w.drop_last()).next(w.last())
        }
    }

    /// The state reached on the byte `b`.
    pub open spec fn next(self, b: u8) -> NoSingleCState {
        match self {
            NoSingleCState::Cc0 => {
                if b == LETTER_C {
                    NoSingleCState::Cc1
                } else if b == LETTER_A || b == LETTER_B {
                    NoSingleCState::Cc0
                } else {
                    NoSingleCState::Dead
                }
            },
            NoSingleCState::Cc1 => {
                if b == LETTER_C {
                    NoSingleCState::Cc2
                } else if b == LETTER_A || b == LETTER_B {
                    NoSingleCState::Dead
                } else {
                    NoSingleCState::Dead
                }
            },
            NoSingleCState::Cc2 => {
                if b == LETTER_C {
                    NoSingleCState::Cc2
                } else if b == LETTER_A || b == LETTER_B {
                    NoSingleCState::Cc0
                } else {
                    NoSingleCState::Dead
                }
            },
            NoSingleCState::Dead => NoSingleCState::Dead,
        }
    }

    /// Whether the state is accepting.
    pub open spec fn accepting(self) -> bool {
        self == NoSingleCState::Cc0 || self == NoSingleCState::Cc2
    }

    /// The state reached on the byte `b`.
    pub fn step(self, b: u8) -> (r: NoSingleCState)
        ensures
            r == self.next(b),
    {
        match self {
            NoSingleCState::Cc0 => {
                if b == LETTER_C {
                    NoSingleCState::Cc1
                } else if b == LETTER_A || b == LETTER_B {
                    NoSingleCState::Cc0
                } else {
                    NoSingleCState::Dead
                }
            },
            NoSingleCState::Cc1 => {
                if b == LETTER_C {
                    NoSingleCState::Cc2
                } else if b == LETTER_A || b == LETTER_B {
                    NoSingleCState::Dead
                } else {
                    NoSingleCState::Dead
                }
            },
            NoSingleCState::Cc2 => {
                if b == LETTER_C {
                    NoSingleCState::Cc2
                } else if b == LETTER_A || b == LETTER_B {
                    NoSingleCState::Cc0
                } else {
                    NoSingleCState::Dead
                }
            },
            NoSingleCState::Dead => NoSingleCState::Dead,
        }
    }

    /// Whether the state is accepting.
    pub fn is_accepting(self) -> (r: bool)
        ensures
            r == self.accepting(),
    {
        match self {
            NoSingleCState::Cc0 | NoSingleCState::Cc2 => true,
            _ => false,
        }
    }
}

/// Words in which every block of `c` that follows an `a` or a `b` has length at least two.
#[derive(Copy, Clone, Debug, PartialEq, Eq, Structural)]
pub enum AbcInvState {
    Abc0,
    AbcAB,
    AbcNE,
    AbcC,
    Dead,
}

impl AbcInvState {
    /// The state the automaton is in after reading `w` from `Abc0`.
    pub open spec fn run(w: Seq<u8>) -> AbcInvState
        decreases w.len(),
    {
        if w.len() == 0 {
            AbcInvState::Abc0
        } else {
            AbcInvState::run(w.drop_last()).next(w.last())
        }
    }

    /// The state reached on the byte `b`.
    pub open spec fn next(self, b: u8) -> AbcInvState {
        match self {
            AbcInvState::Abc0 => {
                if b == LETTER_A || b == LETTER_B {
                    AbcInvState::AbcAB
                } else if b == LETTER_C {
                    AbcInvState::AbcC
                } else {
                    AbcInvState::Dead
                }
            },
            AbcInvState::AbcAB => {
                if b == LETTER_A || b == LETTER_B {
                    AbcInvState::AbcAB
                } else if b == LETTER_C {
                    AbcInvState::AbcNE
                } else {
                    AbcInvState::Dead
                }
            },
            AbcInvState::AbcNE => {
                if b == LETTER_C {
                    AbcInvState::AbcC
                } else if b == LETTER_A || b == LETTER_B {
                    AbcInvState::Dead
                } else {
                    AbcInvState::Dead
                }
            },
            AbcInvState::AbcC => {
                if b == LETTER_C {
                    AbcInvState::AbcC
                } else if b == LETTER_A || b == LETTER_B {
                    AbcInvState::AbcAB
                } else {
                    AbcInvState::Dead
                }
            },
            AbcInvState::Dead => AbcInvState::Dead,
        }
    }

    /// Whether the state is accepting.
    pub open spec fn accepting(self) -> bool {
        self == AbcInvState::Abc0 || self == AbcInvState::AbcAB || self == AbcInvState::AbcC
    }

    /// The state reached on the byte `b`.
    pub fn step(self, b: u8) -> (r: AbcInvState)
        ensures
            r == self.next(b),
    {
        match self {
            AbcInvState::Abc0 => {
                if b == LETTER_A || b == LETTER_B {
                    AbcInvState::AbcAB
                } else if b == LETTER_C {
                    AbcInvState::AbcC
                } else {
                    AbcInvState::Dead
                }
            },
            AbcInvState::AbcAB => {
                if b == LETTER_A || b == LETTER_B {
                    AbcInvState::AbcAB
                } else if b == LETTER_C {
                    AbcInvState::AbcNE
                } else {
                    AbcInvState::Dead
                }
            },
            AbcInvState::AbcNE => {
                if b == LETTER_C {
                    AbcInvState::AbcC
                } else if b == LETTER_A || b == LETTER_B {
                    AbcInvState::Dead
                } else {
                    AbcInvState::Dead
                }
            },
            AbcInvState::AbcC => {
                if b == LETTER_C {
                    AbcInvState::AbcC
                } else if b == LETTER_A || b == LETTER_B {
                    AbcInvState::AbcAB
                } else {
                    AbcInvState::Dead
                }
            },
            AbcInvState::Dead => AbcInvState::Dead,
        }
    }

    /// Whether the state is accepting.
    pub fn is_accepting(self) -> (r: bool)
        ensures
            r == self.accepting(),
    {
        match self {
            AbcInvState::Abc0 | AbcInvState::AbcAB | AbcInvState::AbcC => true,
            _ => false,
        }
    }
}

/// Words in which no block of `b` has length exactly two.
#[derive(Copy, Clone, Debug, PartialEq, Eq, Structural)]
pub enum NoBBBlockLen2State {
    Bb0,
    Bb1,
    Bb2,
    Bb3,
    Dead,
}

impl NoBBBlockLen2State {
    /// The state the automaton is in after reading `w` from `Bb0`.
    pub open spec fn run(w: Seq<u8>) -> NoBBBlockLen2State
        decreases w.len(),
    {
        if w.len() == 0 {
            NoBBBlockLen2State::Bb0
        } else {
            NoBBBlockLen2State::run(w.drop_last()).next(w.last())
        }
    }

    /// The state reached on the byte `b`.
    pub open spec fn next(self, b: u8) -> NoBBBlockLen2State {
        match self {
            NoBBBlockLen2State::Bb0 => {
                if b == LETTER_B {
                    NoBBBlockLen2State::Bb1
                } else if b == LETTER_A || b == LETTER_C {
                    NoBBBlockLen2State::Bb0
                } else {
                    NoBBBlockLen2State::Dead
                }
            },
            NoBBBlockLen2State::Bb1 => {
                if b == LETTER_B {
                    NoBBBlockLen2State::Bb2
                } else if b == LETTER_A || b == LETTER_C {
                    NoBBBlockLen2State::Bb0
                } else {
                    NoBBBlockLen2State::Dead
                }
            },
            NoBBBlockLen2State::Bb2 => {
                if b == LETTER_B {
                    NoBBBlockLen2State::Bb3
                } else if b == LETTER_A || b == LETTER_C {
                    NoBBBlockLen2State::Dead
                } else {
                    NoBBBlockLen2State::Dead
                }
            },
            NoBBBlockLen2State::Bb3 => {
                if b == LETTER_B {
                    NoBBBlockLen2State::Bb3
                } else if b == LETTER_A || b == LETTER_C {
                    NoBBBlockLen2State::Bb0
                } else {
                    NoBBBlockLen2State::Dead
                }
            },
            NoBBBlockLen2State::Dead => NoBBBlockLen2State::Dead,
        }
    }

    /// Whether the state is accepting.
    pub open spec fn accepting(self) -> bool {
        self == NoBBBlockLen2State::Bb0 || self == NoBBBlockLen2State::Bb1 || self == NoBBBlockLen2State::Bb3
    }

    /// The state reached on the byte `b`.
    pub fn step(self, b: u8) -> (r: NoBBBlockLen2State)
        ensures
            r == self.next(b),
    {
        match self {
            NoBBBlockLen2State::Bb0 => {
                if b == LETTER_B {
                    NoBBBlockLen2State::Bb1
                } else if b == LETTER_A || b == LETTER_C {
                    NoBBBlockLen2State::Bb0
                } else {
                    NoBBBlockLen2State::Dead
                }
            },
            NoBBBlockLen2State::Bb1 => {
                if b == LETTER_B {
                    NoBBBlockLen2State::Bb2
                } else if b == LETTER_A || b == LETTER_C {
                    NoBBBlockLen2State::Bb0
                } else {
                    NoBBBlockLen2State::Dead
                }
            },
            NoBBBlockLen2State::Bb2 => {
                if b == LETTER_B {
                    NoBBBlockLen2State::Bb3
                } else if b == LETTER_A || b == LETTER_C {
                    NoBBBlockLen2State::Dead
                } else {
                    NoBBBlockLen2State::Dead
                }
            },
            NoBBBlockLen2State::Bb3 => {
                if b == LETTER_B {
                    NoBBBlockLen2State::Bb3
                } else if b == LETTER_A || b == LETTER_C {
                    NoBBBlockLen2State::Bb0
                } else {
                    NoBBBlockLen2State::Dead
                }
            },
            NoBBBlockLen2State::Dead => NoBBBlockLen2State::Dead,
        }
    }

    /// Whether the state is accepting.
    pub fn is_accepting(self) -> (r: bool)
        ensures
            r == self.accepting(),
    {
        match self {
            NoBBBlockLen2State::Bb0 | NoBBBlockLen2State::Bb1 | NoBBBlockLen2State::Bb3 => true,
            _ => false,
        }
    }
}

/// Words without a factor `c` `x` `c` where `x` is `a` or `b`.
#[derive(Copy, Clone, Debug, PartialEq, Eq, Structural)]
pub enum NoCBlockAorBThenCState {
    Cb0,
    CbC,
    Cb1,
    Dead,
}

impl NoCBlockAorBThenCState {
    /// The state the automaton is in after reading `w` from `Cb0`.
    pub open spec fn run(w: Seq<u8>) -> NoCBlockAorBThenCState
        decreases w.len(),
    {
        if w.len() == 0 {
            NoCBlockAorBThenCState::Cb0
        } else {
            NoCBlockAorBThenCState::run(w.drop_last()).next(w.last())
        }
    }

    /// The state reached on the byte `b`.
    pub open spec fn next(self, b: u8) -> NoCBlockAorBThenCState {
        match self {
            NoCBlockAorBThenCState::Cb0 => {
                if b == LETTER_C {
                    NoCBlockAorBThenCState::CbC
                } else if b == LETTER_A || b == LETTER_B {
                    NoCBlockAorBThenCState::Cb0
                } else {
                    NoCBlockAorBThenCState::Dead
                }
            },
            NoCBlockAorBThenCState::CbC => {
                if b == LETTER_C {
                    NoCBlockAorBThenCState::CbC
                } else if b == LETTER_A || b == LETTER_B {
                    NoCBlockAorBThenCState::Cb1
                } else {
                    NoCBlockAorBThenCState::Dead
                }
            },
            NoCBlockAorBThenCState::Cb1 => {
                if b == LETTER_C {
                    NoCBlockAorBThenCState::Dead
                } else if b == LETTER_A || b == LETTER_B {
                    NoCBlockAorBThenCState::Cb0
                } else {
                    NoCBlockAorBThenCState::Dead
                }
            },
            NoCBlockAorBThenCState::Dead => NoCBlockAorBThenCState::Dead,
        }
    }

    /// Whether the state is accepting.
    pub open spec fn accepting(self) -> bool {
        self == NoCBlockAorBThenCState::Cb0 || self == NoCBlockAorBThenCState::CbC || self == NoCBlockAorBThenCState::Cb1
    }

    /// The state reached on the byte `b`.
    pub fn step(self, b: u8) -> (r: NoCBlockAorBThenCState)
        ensures
            r == self.next(b),
    {
        match self {
            NoCBlockAorBThenCState::Cb0 => {
                if b == LETTER_C {
                    NoCBlockAorBThenCState::CbC
                } else if b == LETTER_A || b == LETTER_B {
                    NoCBlockAorBThenCState::Cb0
                } else {
                    NoCBlockAorBThenCState::Dead
                }
            },
            NoCBlockAorBThenCState::CbC => {
                if b == LETTER_C {
                    NoCBlockAorBThenCState::CbC
                } else if b == LETTER_A || b == LETTER_B {
                    NoCBlockAorBThenCState::Cb1
                } else {
                    NoCBlockAorBThenCState::Dead
                }
            },
            NoCBlockAorBThenCState::Cb1 => {
                if b == LETTER_C {
                    NoCBlockAorBThenCState::Dead
                } else if b == LETTER_A || b == LETTER_B {
                    NoCBlockAorBThenCState::Cb0
                } else {
                    NoCBlockAorBThenCState::Dead
                }
            },
            NoCBlockAorBThenCState::Dead => NoCBlockAorBThenCState::Dead,
        }
    }

    /// Whether the state is accepting.
    pub fn is_accepting(self) -> (r: bool)
        ensures
            r == self.accepting(),
    {
        match self {
            NoCBlockAorBThenCState::Cb0 | NoCBlockAorBThenCState::CbC | NoCBlockAorBThenCState::Cb1 => true,
            _ => false,
        }
    }
}

/// The dead state of each property automaton is never left and never accepts.
pub proof fn lemma_dead_states_absorb(b: u8)
    ensures
        NoBcaState::Dead.next(b) == NoBcaState::Dead && !NoBcaState::Dead.accepting(),
        NoSingleCState::Dead.next(b) == NoSingleCState::Dead && !NoSingleCState::Dead.accepting(),
        AbcInvState::Dead.next(b) == AbcInvState::Dead && !AbcInvState::Dead.accepting(),
        NoBBBlockLen2State::Dead.next(b) == NoBBBlockLen2State::Dead
            && !NoBBBlockLen2State::Dead.accepting(),
        NoCBlockAorBThenCState::Dead.next(b) == NoCBlockAorBThenCState::Dead
            && !NoCBlockAorBThenCState::Dead.accepting(),
{
}

} // verus!

//! Recognizers of one regular language over the letters `a`, `b` and `c`,
//! the language `A* B* A*` of pieces that `language` states and proves:
//! a nondeterministic automaton run as a subset simulation, a deterministic
//! automaton, and the product of the deterministic automaton with five
//! automata for properties of the words; and the harness that holds them
//! against two regular expressions on all short words and on random ones.

pub mod alphabet;
pub mod nfa;
pub mod dfa;
pub mod guards;
pub mod product;
pub mod properties;
pub mod nfa_agreement;
pub mod product_agreement;
pub mod agreement;
pub mod compiled;
pub mod pattern;
pub mod words;
pub mod random;
pub mod harness;
pub mod nfa_paths;
pub mod language;

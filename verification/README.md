# fuzz

Three recognizers of one regular language over the letters `a`, `b`, `c`,
verified with Verus, and the harness that holds them against two regular
expressions for the same language.

- `src/nfa.rs`: the nondeterministic automaton (26 states), run as a subset
  simulation over 64-bit masks; `src/nfa_paths.rs` proves that the masks hold
  exactly the states that paths of the automaton reach.
- `src/dfa.rs`: the deterministic automaton (54 states).
- `src/guards.rs`, `src/product.rs`: five small automata for properties of the
  words, and their product with the deterministic automaton;
  `src/properties.rs` states the property that each one checks.
- `src/nfa_agreement.rs`, `src/product_agreement.rs`, `src/agreement.rs`: the
  three recognizers accept the same words, and every accepted word has the five
  properties.
- `src/language.rs`: the language itself, `A* B* A*` over pieces, stated
  directly; the proof that both automata accept exactly its words, and that an
  A-piece put before or after an accepted word leaves it accepted.
- `src/compiled.rs`, `src/pattern.rs`, `src/words.rs`, `src/random.rs`,
  `src/harness.rs`: regular expressions of `fancy-regex` (`src/compiled.rs`
  holds each compiled regex with its source and is the only place that builds
  one), the listing of all words up to a length, random words of `rand` (with
  a record of every value drawn and of its range), and the checks on one word,
  on all short words and on random words.
- `app/main.rs`: the program: checks all words up to length 10, then ten
  million random words, and reports the first word on which the recognizers
  disagree.

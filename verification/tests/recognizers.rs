use fuzz::dfa::{dfa_accepts, DfaState, DFA_ACCEPT, DFA_TRANS};
use fuzz::guards::{
    AbcInvState, NoBBBlockLen2State, NoBcaState, NoCBlockAorBThenCState, NoSingleCState,
};
use fuzz::nfa::{
    epsilon_closure, nfa_accepts, nfa_bit, successors, NfaState, NFA_EPS, NFA_TRANS_A,
    NFA_TRANS_B, NFA_TRANS_C, N_NFA_STATES,
};
use fuzz::product::pka_accepts;
use fuzz::words::spell;

const REGEX1_WORDS: [(&str, bool); 27] = [
    ("", true),
    ("a", false),
    ("aa", true),
    ("aaa", true),
    ("aaaa", true),
    ("b", false),
    ("bbb", true),
    ("bbbb", true),
    ("bb", false),
    ("c", false),
    ("cc", true),
    ("ccc", false),
    ("ab", true),
    ("abccc", true),
    ("abc", false),
    ("aab", true),
    ("aabcc", true),
    ("bca", false),
    ("bbbca", false),
    ("ccab", true),
    ("aac", false),
    ("x", false),
    ("aax", false),
    ("ba", false),
    ("abb", false),
    ("cca", false),
    ("aabcca", false),
];

fn all_words(len: usize) -> Vec<String> {
    let mut out = Vec::new();
    let mut total = 1usize;
    for _ in 0..len {
        total *= 3;
    }
    let mut buf = vec![b'a'; len];
    for num in 0..total {
        spell(&mut buf, num);
        out.push(String::from_utf8(buf.clone()).unwrap());
    }
    out
}

#[test]
fn nfa_bit_is_the_single_state() {
    assert_eq!(nfa_bit(NfaState::ALStar), 1);
    assert_eq!(nfa_bit(NfaState::Mid), 2);
    assert_eq!(nfa_bit(NfaState::RStar), 1 << 17);
    assert_eq!(nfa_bit(NfaState::ARAbCc2), 1 << 25);
    assert_eq!(NfaState::RStar.index(), 17);
}

#[test]
fn successors_unite_the_rows() {
    // ALA moves on `a` to ALInAaa2 and ALStar; BInA to Mid and BInAab2.
    let s = nfa_bit(NfaState::ALA) | nfa_bit(NfaState::BInA);
    let expected = nfa_bit(NfaState::ALInAaa2)
        | nfa_bit(NfaState::ALStar)
        | nfa_bit(NfaState::Mid)
        | nfa_bit(NfaState::BInAab2);
    assert_eq!(successors(s, &NFA_TRANS_A), expected);
    assert_eq!(successors(0, &NFA_TRANS_B), 0);
    assert_eq!(successors(nfa_bit(NfaState::Mid), &NFA_TRANS_C), 0);
}

#[test]
fn epsilon_closure_follows_chains() {
    let start = epsilon_closure(nfa_bit(NfaState::ALStar), &NFA_EPS);
    assert_eq!(
        start,
        nfa_bit(NfaState::ALStar) | nfa_bit(NfaState::Mid) | nfa_bit(NfaState::RStar)
    );
    // The longest chain: ALAbLoop, ALStar, Mid, RStar.
    let loop_closure = epsilon_closure(nfa_bit(NfaState::ALAbLoop), &NFA_EPS);
    assert_eq!(loop_closure, nfa_bit(NfaState::ALAbLoop) | start);
    assert_eq!(epsilon_closure(0, &NFA_EPS), 0);
    let closed = nfa_bit(NfaState::ALA);
    assert_eq!(epsilon_closure(closed, &NFA_EPS), closed);
}

#[test]
fn epsilon_closure_is_closed_and_least() {
    for i in 0..N_NFA_STATES {
        let s = 1u64 << i;
        let r = epsilon_closure(s, &NFA_EPS);
        assert_eq!(r & s, s);
        assert_eq!(successors(r, &NFA_EPS) & !r, 0);
        assert_eq!(epsilon_closure(r, &NFA_EPS), r);
    }
}

#[test]
fn epsilon_closure_with_another_table() {
    let mut eps = [0u64; N_NFA_STATES];
    eps[3] = 1 << 4;
    eps[4] = 1 << 5;
    eps[5] = 1 << 3;
    assert_eq!(epsilon_closure(1 << 3, &eps), (1 << 3) | (1 << 4) | (1 << 5));
    assert_eq!(epsilon_closure(1 << 6, &eps), 1 << 6);
}

#[test]
fn recognizers_on_sample_words() {
    for (word, expected) in REGEX1_WORDS.iter() {
        assert_eq!(nfa_accepts(word), *expected, "nfa on {:?}", word);
        assert_eq!(dfa_accepts(word), *expected, "dfa on {:?}", word);
        assert_eq!(pka_accepts(word), *expected, "pka on {:?}", word);
    }
}

#[test]
fn recognizers_agree_on_all_short_words() {
    for len in 0..=8 {
        for word in all_words(len) {
            let d = dfa_accepts(&word);
            assert_eq!(nfa_accepts(&word), d, "{:?}", word);
            assert_eq!(pka_accepts(&word), d, "{:?}", word);
        }
    }
}

#[test]
fn bytes_outside_the_alphabet_are_rejected() {
    for word in ["d", "aa ", "A", "bbb\n", "ccé"] {
        assert!(!nfa_accepts(word));
        assert!(!dfa_accepts(word));
        assert!(!pka_accepts(word));
    }
}

#[test]
fn dfa_state_numbers() {
    assert_eq!(DfaState::from_u8(0), DfaState::Q0);
    assert_eq!(DfaState::from_u8(17), DfaState::Q17);
    assert_eq!(DfaState::from_u8(52), DfaState::Q52);
    assert_eq!(DfaState::from_u8(53), DfaState::Q53);
    assert_eq!(DfaState::from_u8(200), DfaState::Q53);
    assert_eq!(DfaState::Q31.idx(), 31);
    for v in 0..54u8 {
        assert_eq!(DfaState::from_u8(v).idx(), v as usize);
    }
}

#[test]
fn dfa_steps_follow_the_table() {
    assert_eq!(DfaState::Q0.step(b'a'), DfaState::Q19);
    assert_eq!(DfaState::Q0.step(b'b'), DfaState::Q20);
    assert_eq!(DfaState::Q0.step(b'c'), DfaState::Q21);
    assert_eq!(DfaState::Q17.step(b'b'), DfaState::Q52);
    assert_eq!(DfaState::Q5.step(b'z'), DfaState::Q53);
    for q in 0..54u8 {
        let s = DfaState::from_u8(q);
        assert_eq!(s.is_accepting(), DFA_ACCEPT[q as usize]);
        for (k, b) in [b'a', b'b', b'c'].iter().enumerate() {
            assert_eq!(s.step(*b).idx(), DFA_TRANS[q as usize][k]);
        }
    }
}

#[test]
fn dead_dfa_state_absorbs() {
    for b in 0..=255u8 {
        assert_eq!(DfaState::Q53.step(b), DfaState::Q53);
    }
    assert!(!DfaState::Q53.is_accepting());
}

#[test]
fn bca_automaton() {
    let run = |w: &str| w.bytes().fold(NoBcaState::Bc0, |s, b| s.step(b));
    assert_eq!(run("b"), NoBcaState::Bc1);
    assert_eq!(run("bc"), NoBcaState::Bc2);
    assert_eq!(run("bca"), NoBcaState::Dead);
    assert_eq!(run("bcb"), NoBcaState::Bc1);
    assert_eq!(run("bcc"), NoBcaState::Bc0);
    assert_eq!(run("abca"), NoBcaState::Dead);
    assert_eq!(run("ab!"), NoBcaState::Dead);
    assert!(run("acbcbc").is_accepting());
    assert!(!NoBcaState::Dead.is_accepting());
}

#[test]
fn single_c_automaton() {
    let run = |w: &str| w.bytes().fold(NoSingleCState::Cc0, |s, b| s.step(b));
    assert_eq!(run("c"), NoSingleCState::Cc1);
    assert_eq!(run("cc"), NoSingleCState::Cc2);
    assert_eq!(run("cca"), NoSingleCState::Cc0);
    assert_eq!(run("ca"), NoSingleCState::Dead);
    assert!(!run("c").is_accepting());
    assert!(run("accc").is_accepting());
    assert!(run("").is_accepting());
}

#[test]
fn abc_automaton() {
    let run = |w: &str| w.bytes().fold(AbcInvState::Abc0, |s, b| s.step(b));
    assert_eq!(run(""), AbcInvState::Abc0);
    assert_eq!(run("c"), AbcInvState::AbcC);
    assert_eq!(run("ca"), AbcInvState::AbcAB);
    assert_eq!(run("ac"), AbcInvState::AbcNE);
    assert_eq!(run("acc"), AbcInvState::AbcC);
    assert_eq!(run("aca"), AbcInvState::Dead);
    assert!(run("c").is_accepting());
    assert!(!run("ac").is_accepting());
}

#[test]
fn bb_automaton() {
    let run = |w: &str| w.bytes().fold(NoBBBlockLen2State::Bb0, |s, b| s.step(b));
    assert_eq!(run("b"), NoBBBlockLen2State::Bb1);
    assert_eq!(run("bb"), NoBBBlockLen2State::Bb2);
    assert_eq!(run("bbb"), NoBBBlockLen2State::Bb3);
    assert_eq!(run("bbba"), NoBBBlockLen2State::Bb0);
    assert_eq!(run("bba"), NoBBBlockLen2State::Dead);
    assert!(run("abbbb").is_accepting());
    assert!(!run("abb").is_accepting());
}

#[test]
fn cxc_automaton() {
    let run = |w: &str| w.bytes().fold(NoCBlockAorBThenCState::Cb0, |s, b| s.step(b));
    assert_eq!(run("c"), NoCBlockAorBThenCState::CbC);
    assert_eq!(run("cca"), NoCBlockAorBThenCState::Cb1);
    assert_eq!(run("ccab"), NoCBlockAorBThenCState::Cb0);
    assert_eq!(run("cac"), NoCBlockAorBThenCState::Dead);
    assert_eq!(run("cbc"), NoCBlockAorBThenCState::Dead);
    assert!(run("cabc").is_accepting());
    assert!(!run("c?").is_accepting());
}

#[test]
fn accepted_words_have_the_properties() {
    for len in 0..=7 {
        for word in all_words(len) {
            if dfa_accepts(&word) {
                assert!(!word.contains("bca"), "{:?}", word);
                assert!(!word.contains("cac") && !word.contains("cbc"), "{:?}", word);
                let bytes = word.as_bytes();
                for i in 0..bytes.len() {
                    let starts_c = bytes[i] == b'c' && (i == 0 || bytes[i - 1] != b'c');
                    let single = starts_c && (i + 1 == bytes.len() || bytes[i + 1] != b'c');
                    assert!(!single, "{:?}", word);
                    let starts_b = bytes[i] == b'b' && (i == 0 || bytes[i - 1] != b'b');
                    let bb = starts_b
                        && i + 1 < bytes.len()
                        && bytes[i + 1] == b'b'
                        && (i + 2 == bytes.len() || bytes[i + 2] != b'b');
                    assert!(!bb, "{:?}", word);
                }
            }
        }
    }
}

#[test]
fn spell_writes_base_three_digits() {
    let mut buf = vec![0u8; 3];
    spell(&mut buf, 5);
    assert_eq!(buf, b"cba".to_vec());
    spell(&mut buf, 0);
    assert_eq!(buf, b"aaa".to_vec());
    spell(&mut buf, 26);
    assert_eq!(buf, b"ccc".to_vec());
    let mut empty: Vec<u8> = Vec::new();
    spell(&mut empty, 7);
    assert!(empty.is_empty());
}

#[test]
fn tables_have_the_listed_moves() {
    assert_eq!(NFA_TRANS_B[NfaState::BInB2.index() as usize], nfa_bit(NfaState::Mid) | nfa_bit(NfaState::BInBbbb3));
    assert_eq!(NFA_TRANS_C[NfaState::ARAbCc2.index() as usize], nfa_bit(NfaState::ARAbLoop));
    assert_eq!(NFA_EPS[NfaState::ARAbLoop.index() as usize], nfa_bit(NfaState::RStar));
}

#[test]
fn spelled_words_list_every_word_once() {
    let words = all_words(3);
    assert_eq!(words.len(), 27);
    let mut sorted = words.clone();
    sorted.sort();
    sorted.dedup();
    assert_eq!(sorted.len(), 27);
    assert_eq!(words[0], "aaa");
    assert_eq!(words[1], "baa");
    assert_eq!(words[3], "aba");
}

#[test]
fn dead_property_states_absorb() {
    for b in [b'a', b'b', b'c', b'x'] {
        assert_eq!(NoBcaState::Dead.step(b), NoBcaState::Dead);
        assert_eq!(NoSingleCState::Dead.step(b), NoSingleCState::Dead);
        assert_eq!(AbcInvState::Dead.step(b), AbcInvState::Dead);
        assert_eq!(NoBBBlockLen2State::Dead.step(b), NoBBBlockLen2State::Dead);
        assert_eq!(NoCBlockAorBThenCState::Dead.step(b), NoCBlockAorBThenCState::Dead);
    }
    assert!(!NoSingleCState::Dead.is_accepting());
    assert!(!AbcInvState::Dead.is_accepting());
    assert!(!NoBBBlockLen2State::Dead.is_accepting());
    assert!(!NoCBlockAorBThenCState::Dead.is_accepting());
}

#[test]
fn epsilon_closure_of_a_union() {
    assert_eq!(epsilon_closure(0, &NFA_EPS), 0);
    let masks: [u64; 6] = [0, 1, 1 << 7, 1 << 15, (1 << 23) | (1 << 4), 0x3ff_ffff];
    for a in masks {
        for b in masks {
            assert_eq!(
                epsilon_closure(a | b, &NFA_EPS),
                epsilon_closure(a, &NFA_EPS) | epsilon_closure(b, &NFA_EPS)
            );
        }
    }
}

use fuzz::dfa::{dfa_accepts, DfaState};
use fuzz::nfa::nfa_accepts;
use fuzz::words::word_of_digits;

const A_PIECES: [&str; 6] = ["aa", "aaa", "bbb", "cc", "ab", "abccc"];

fn accepted(word: &str) -> bool {
    let d = dfa_accepts(word);
    assert_eq!(d, nfa_accepts(word), "word {:?}", word);
    d
}

#[test]
fn blocks_in_order_are_accepted() {
    assert!(accepted("aa"));
    assert!(accepted("bbbb"));
    assert!(accepted("aabcc"));
    assert!(accepted("cc"));
    assert!(accepted("ccaabccbbbbabccc"));
    assert!(accepted("abcccaabcccc"));
}

#[test]
fn words_that_split_into_no_blocks_are_rejected() {
    assert!(!accepted("abc"));
    assert!(!accepted("aabc"));
    assert!(!accepted("bb"));
    assert!(!accepted("c"));
    assert!(!accepted("aabccaabcca"));
}

#[test]
fn a_piece_joins_either_end_of_an_accepted_word() {
    for w in ["", "aa", "bbbb", "aabcc", "ccaab", "abccc"] {
        assert!(accepted(w), "word {:?}", w);
        for p in A_PIECES {
            let before = format!("{}{}", p, w);
            let after = format!("{}{}", w, p);
            assert!(accepted(&before), "word {:?}", before);
            assert!(accepted(&after), "word {:?}", after);
        }
    }
}

#[test]
fn dead_state_absorbs_every_word() {
    for w in ["", "a", "abc", "ccbbbaa", "x"] {
        let mut q = DfaState::Q53;
        for b in w.bytes() {
            q = q.step(b);
        }
        assert_eq!(q, DfaState::Q53);
        assert!(!q.is_accepting());
    }
}

#[test]
fn other_states_accept_within_two_letters() {
    for v in 0u8..53 {
        let q = DfaState::from_u8(v);
        let mut found = q.is_accepting();
        for x in [b'a', b'b', b'c'] {
            let q1 = q.step(x);
            found = found || q1.is_accepting();
            for y in [b'a', b'b', b'c'] {
                found = found || q1.step(y).is_accepting();
            }
        }
        assert!(found, "state {}", v);
    }
}

#[test]
fn word_of_digits_spells_letters() {
    assert_eq!(word_of_digits(&vec![]), Vec::<u8>::new());
    assert_eq!(word_of_digits(&vec![0, 1, 2, 2, 0]), b"abcca".to_vec());
    assert_eq!(word_of_digits(&vec![2]), b"c".to_vec());
}

#[test]
fn cc_in_front_keeps_acceptance() {
    for w in ["", "a", "aa", "bb", "bbb", "c", "abc", "aabcc", "ccaab", "abcca", "x", "cbbb"] {
        let front = format!("cc{}", w);
        assert_eq!(accepted(&front), accepted(w), "word {:?}", w);
    }
}

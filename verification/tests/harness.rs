use fuzz::harness::{check_all_words_up_to, check_word, fuzz_random, WordReport};
use fuzz::pattern::{Pattern, RegexFailure};
use fuzz::random::{random_word, Generator};

const REGEX1: &str = r"^(aaa|bbb|cc|ab(ccc)*|aa)*(aa|bbb|aab(cc)*|bbbb)*(aaa|bbb|cc|ab(ccc)*|aa)*$";
const REGEX2: &str = r"^((bbb|cc|a((?=b)b(ccc)*|aa?))+)?((bbb((?=b)b)?|aa((?=b)b(cc)*)?)+)?((bbb|cc|a((?=b)b(ccc)*|aa?))+)?$";

fn patterns() -> (Pattern, Pattern) {
    let re1 = match Pattern::new(REGEX1) {
        Ok(p) => p,
        Err(_) => panic!("bad regex1"),
    };
    let re2 = match Pattern::new(REGEX2) {
        Ok(p) => p,
        Err(_) => panic!("bad regex2"),
    };
    (re1, re2)
}

fn report(word: &str, regex1: bool, regex2: bool, nfa: bool, dfa: bool, pka: bool) -> WordReport {
    WordReport { word: word.to_string(), regex1, regex2, nfa, dfa, pka }
}

#[test]
fn pattern_rejects_a_broken_source() {
    assert!(matches!(Pattern::new("(ab"), Err(RegexFailure::Compile(_))));
    assert!(Pattern::new("a(?=b)").is_ok());
}

#[test]
fn pattern_searches() {
    let p = match Pattern::new("^a+$") {
        Ok(p) => p,
        Err(_) => panic!("bad pattern"),
    };
    assert!(matches!(p.is_match("aaa"), Ok(true)));
    assert!(matches!(p.is_match("aab"), Ok(false)));
    assert!(matches!(p.is_match(""), Ok(false)));
}

#[test]
fn check_word_reports_all_five() {
    let (re1, re2) = patterns();
    let rep = match check_word("abccc", &re1, &re2) {
        Ok(rep) => rep,
        Err(_) => panic!("search failed"),
    };
    assert_eq!(rep.word, "abccc");
    assert!(rep.regex1 && rep.regex2 && rep.nfa && rep.dfa && rep.pka);
    assert!(rep.is_consistent());
    let rep = match check_word("abc", &re1, &re2) {
        Ok(rep) => rep,
        Err(_) => panic!("search failed"),
    };
    assert!(!rep.regex1 && !rep.regex2 && !rep.nfa && !rep.dfa && !rep.pka);
    assert!(rep.is_consistent());
}

#[test]
fn check_word_sees_a_disagreeing_pattern() {
    let (re1, _) = patterns();
    let only_a = match Pattern::new("^(aa)*$") {
        Ok(p) => p,
        Err(_) => panic!("bad pattern"),
    };
    let rep = match check_word("ab", &re1, &only_a) {
        Ok(rep) => rep,
        Err(_) => panic!("search failed"),
    };
    assert!(rep.regex1 && !rep.regex2 && rep.nfa && rep.dfa && rep.pka);
    assert!(!rep.is_consistent());
}

#[test]
fn report_consistency() {
    assert!(report("a", true, true, true, true, true).is_consistent());
    assert!(report("a", false, false, false, false, false).is_consistent());
    assert!(!report("a", true, false, true, true, true).is_consistent());
    assert!(!report("a", false, false, false, false, true).is_consistent());
}

#[test]
fn all_short_words_agree() {
    let (re1, re2) = patterns();
    assert!(matches!(check_all_words_up_to(7, &re1, &re2), Ok(None)));
}

#[test]
fn enumeration_stops_at_first_disagreement() {
    let (re1, _) = patterns();
    let only_a = match Pattern::new("^(aa)*$") {
        Ok(p) => p,
        Err(_) => panic!("bad pattern"),
    };
    match check_all_words_up_to(4, &re1, &only_a) {
        Ok(Some(rep)) => {
            assert_eq!(rep.word, "ab");
            assert!(rep.regex1 && !rep.regex2 && rep.nfa && rep.dfa && rep.pka);
        }
        _ => panic!("expected a disagreement"),
    }
}

#[test]
fn enumeration_of_length_zero_checks_the_empty_word() {
    let (re1, _) = patterns();
    let never = match Pattern::new("^x$") {
        Ok(p) => p,
        Err(_) => panic!("bad pattern"),
    };
    match check_all_words_up_to(0, &re1, &never) {
        Ok(Some(rep)) => assert_eq!(rep.word, ""),
        _ => panic!("expected a disagreement"),
    }
    let (re1, re2) = patterns();
    assert!(matches!(check_all_words_up_to(0, &re1, &re2), Ok(None)));
}

#[test]
fn random_words_agree() {
    let (re1, re2) = patterns();
    assert!(matches!(fuzz_random(&mut Generator::new(), 2000, 30, &re1, &re2), Ok(None)));
}

#[test]
fn random_search_finds_a_disagreement() {
    let (re1, _) = patterns();
    let never = match Pattern::new("^x$") {
        Ok(p) => p,
        Err(_) => panic!("bad pattern"),
    };
    // Every word the automata accept disagrees with this pattern; among
    // 2000 random words of length at most 2, `""` or `aa` or `cc` comes up.
    match fuzz_random(&mut Generator::new(), 2000, 2, &re1, &never) {
        Ok(Some(rep)) => {
            assert!(rep.dfa && !rep.regex2);
            assert!(rep.word.len() <= 2);
        }
        _ => panic!("expected a disagreement"),
    }
}

#[test]
fn random_words_are_letters_within_the_length() {
    let mut rng = Generator::new();
    let mut buf = Vec::new();
    let mut lengths = [false; 6];
    for _ in 0..500 {
        random_word(&mut rng, 5, &mut buf);
        assert!(buf.len() <= 5);
        assert!(buf.iter().all(|b| *b == b'a' || *b == b'b' || *b == b'c'));
        lengths[buf.len()] = true;
    }
    assert!(lengths.iter().all(|seen| *seen));
    let mut letters = [false; 3];
    for _ in 0..200 {
        random_word(&mut rng, 5, &mut buf);
        for b in buf.iter() {
            letters[(*b - b'a') as usize] = true;
        }
    }
    assert!(letters.iter().all(|seen| *seen));
    random_word(&mut rng, 0, &mut buf);
    assert!(buf.is_empty());
}

#[test]
fn search_failure_is_reported() {
    let (re1, _) = patterns();
    let explosive = match Pattern::new(r"^(?=a)(a+)+$") {
        Ok(p) => p,
        Err(_) => panic!("bad pattern"),
    };
    let word = format!("{}b", "a".repeat(40));
    assert!(matches!(explosive.is_match(&word), Err(RegexFailure::Search(_))));
    assert!(matches!(check_word(&word, &re1, &explosive), Err(RegexFailure::Search(_))));
    assert!(matches!(check_word(&word, &explosive, &re1), Err(RegexFailure::Search(_))));
}

#[test]
fn random_words_of_length_zero() {
    let (re1, re2) = patterns();
    assert!(matches!(fuzz_random(&mut Generator::new(), 10, 0, &re1, &re2), Ok(None)));
    assert!(matches!(fuzz_random(&mut Generator::new(), 0, 5, &re1, &re2), Ok(None)));
}

//! Holds the three recognizers against two regular expressions for the same
//! language: on one word, on every word up to a length, and on random words.

use vstd::prelude::*;
use vstd::string::StringSliceAdditionalSpecFns;
use vstd::utf8::{valid_utf8, decode_utf8, encode_utf8_decode_utf8};
use crate::alphabet::{LETTER_A, is_letter, is_letter_word};
use crate::nfa::{nfa_accepts, nfa_accepts_word};
use crate::dfa::{dfa_accepts, dfa_accepts_word};
use crate::product::{pka_accepts, pka_accepts_word};
use crate::agreement::lemma_recognizers_agree;
use crate::pattern::{Pattern, RegexFailure, regex_search};
use crate::words::{
    pow3, spelled_word, spell, word_number, listed_before, lemma_spelled_word_letters,
    lemma_every_word_is_spelled, lemma_spelled_number,
};
use crate::random::{Generator, random_word, run_draws};

verus! {

#[verifier::external_type_specification]
#[verifier::external_body]
pub struct ExUtf8Error(core::str::Utf8Error);

/// Calls `std::str::from_utf8`. Trusted: it succeeds exactly on valid UTF-8,
/// and then gives the string slice of the same bytes.
#[verifier::external_body]
fn str_from_utf8(bytes: &[u8]) -> (r: Result<&str, core::str::Utf8Error>)
    ensures
        r is Ok <==> valid_utf8(bytes@),
        r matches Ok(s) ==> s.spec_bytes() == bytes@,
{
    std::str::from_utf8(bytes)
}

/// The text that the bytes `w` spell.
pub open spec fn text_of(w: Seq<u8>) -> Seq<char> {
    decode_utf8(w)
}

/// Both regular expressions can be run on the word `w`.
pub open spec fn searches_succeed(re1: Seq<char>, re2: Seq<char>, w: Seq<u8>) -> bool {
    regex_search(re1, text_of(w)) is Some && regex_search(re2, text_of(w)) is Some
}

/// The two regular expressions find a match in `w` exactly when the
/// deterministic automaton accepts `w` (and so, by the agreement of the
/// recognizers, exactly when the other two accept it).
pub open spec fn all_agree(re1: Seq<char>, re2: Seq<char>, w: Seq<u8>) -> bool {
    &&& regex_search(re1, text_of(w)) == Some(dfa_accepts_word(w))
    &&& regex_search(re2, text_of(w)) == Some(dfa_accepts_word(w))
}

/// The answers of the five recognizers on one word.
#[derive(Debug)]
pub struct WordReport {
    pub word: String,
    pub regex1: bool,
    pub regex2: bool,
    pub nfa: bool,
    pub dfa: bool,
    pub pka: bool,
}

impl WordReport {
    /// All five answers are the same.
    pub open spec fn consistent(&self) -> bool {
        ||| (self.regex1 && self.regex2 && self.nfa && self.dfa && self.pka)
        ||| (!self.regex1 && !self.regex2 && !self.nfa && !self.dfa && !self.pka)
    }

    /// The report holds the answers of the recognizers on the word `w`, for
    /// the patterns `re1` and `re2`.
    pub open spec fn describes(&self, re1: Seq<char>, re2: Seq<char>, w: Seq<u8>) -> bool {
        &&& self.word@ == text_of(w)
        &&& regex_search(re1, text_of(w)) == Some(self.regex1)
        &&& regex_search(re2, text_of(w)) == Some(self.regex2)
        &&& self.nfa == nfa_accepts_word(w)
        &&& self.dfa == dfa_accepts_word(w)
        &&& self.pka == pka_accepts_word(w)
    }

    /// All five answers are the same.
    pub fn is_consistent(&self) -> (r: bool)
        ensures
            r == self.consistent(),
            r == (self.regex1 == self.regex2 && self.regex2 == self.nfa && self.nfa == self.dfa
                && self.dfa == self.pka),
    {
        let all_true = self.regex1 && self.regex2 && self.nfa && self.dfa && self.pka;
        let all_false = !self.regex1 && !self.regex2 && !self.nfa && !self.dfa && !self.pka;
        all_true || all_false
    }
}

/// Whatever its fields, a report is consistent exactly when its five answers
/// are all equal; so changing any one answer of a consistent report, the
/// others kept, makes it inconsistent.
pub proof fn lemma_consistent_means_all_equal(rep: WordReport)
    ensures
        rep.consistent() <==> (rep.regex1 == rep.regex2 && rep.regex2 == rep.nfa
            && rep.nfa == rep.dfa && rep.dfa == rep.pka),
        rep.consistent() ==> !(WordReport { regex1: !rep.regex1, ..rep }).consistent(),
        rep.consistent() ==> !(WordReport { regex2: !rep.regex2, ..rep }).consistent(),
        rep.consistent() ==> !(WordReport { nfa: !rep.nfa, ..rep }).consistent(),
        rep.consistent() ==> !(WordReport { dfa: !rep.dfa, ..rep }).consistent(),
        rep.consistent() ==> !(WordReport { pka: !rep.pka, ..rep }).consistent(),
{
}

/// A report on a word is consistent exactly when the regular expressions
/// agree with the automata there.
pub proof fn lemma_report_consistency(rep: WordReport, re1: Seq<char>, re2: Seq<char>, w: Seq<u8>)
    requires
        rep.describes(re1, re2, w),
    ensures
        rep.nfa == rep.dfa,
        rep.pka == rep.dfa,
        rep.consistent() == all_agree(re1, re2, w),
{
    lemma_recognizers_agree(w);
}

/// Runs the five recognizers on `word`. Where a search of a regular
/// expression gives up on `word` (the engine reaches its backtracking limit),
/// the first one first, it returns `Err(RegexFailure::Search(..))` and leaves
/// it to the caller, which the program ends with a panic.
pub fn check_word(word: &str, re1: &Pattern, re2: &Pattern) -> (r: Result<WordReport, RegexFailure>)
    ensures
        r is Ok <==> searches_succeed(re1@, re2@, word.spec_bytes()),
        r matches Ok(rep) ==> rep.describes(re1@, re2@, word.spec_bytes()),
        r matches Ok(rep) ==> rep.word@ == word@,
        r matches Ok(rep) ==> rep.consistent() == all_agree(re1@, re2@, word.spec_bytes()),
        r matches Err(e) ==> e is Search,
{
    proof {
        encode_utf8_decode_utf8(word@);
    }
    let c1 = re1.is_match(word)?;
    let c2 = re2.is_match(word)?;
    let c3 = nfa_accepts(word);
    let c4 = dfa_accepts(word);
    let c5 = pka_accepts(word);
    let rep = WordReport { word: word.to_owned(), regex1: c1, regex2: c2, nfa: c3, dfa: c4, pka: c5 };
    proof {
        lemma_report_consistency(rep, re1@, re2@, word.spec_bytes());
    }
    Ok(rep)
}

/// Words of letters are valid UTF-8.
pub proof fn lemma_letter_words_are_utf8(w: Seq<u8>)
    requires
        is_letter_word(w),
    ensures
        valid_utf8(w),
{
    assert(w.subrange(0, 0) =~= Seq::<u8>::empty());
    assert forall|i: int| 0 <= 0 <= i < w.len() <= w.len() implies #[trigger] vstd::utf8::is_leading_byte_width_1(w[i]) by {
        assert(is_letter(w[i]));
    }
    vstd::utf8::partial_valid_utf8_extend_ascii_block(w, 0, w.len() as int);
    assert(w.subrange(0, w.len() as int) =~= w);
}

/// Three to a larger power is larger.
pub proof fn lemma_pow3_grows(a: nat, b: nat)
    requires
        a <= b,
    ensures
        1 <= pow3(a) <= pow3(b),
    decreases b,
{
    if b > 0 && a < b {
        lemma_pow3_grows(a, (b - 1) as nat);
    } else if b > 0 {
        lemma_pow3_grows((b - 1) as nat, (b - 1) as nat);
    }
}

/// Three to a power exceeds the power.
pub proof fn lemma_pow3_exceeds(n: nat)
    ensures
        n < pow3(n),
    decreases n,
{
    if n > 0 {
        lemma_pow3_exceeds((n - 1) as nat);
    }
}

/// Every word of letters listed before the word spelled by `num` at length
/// `len` is spelled at a shorter length, or at that length by a smaller number.
proof fn lemma_listed_before_spelled(u: Seq<u8>, num: nat, len: nat)
    requires
        is_letter_word(u),
        num < pow3(len),
        listed_before(u, spelled_word(num, len)),
    ensures
        u.len() < len || (u.len() == len && word_number(u) < num),
        spelled_word(word_number(u), u.len()) == u,
        word_number(u) < pow3(u.len()),
{
    lemma_spelled_word_letters(num, len);
    lemma_spelled_number(num, len);
    lemma_every_word_is_spelled(u);
}

/// All words of letters listed before `w` are words on which the
/// recognizers agree.
pub open spec fn agreed_before(re1: Seq<char>, re2: Seq<char>, w: Seq<u8>) -> bool {
    forall|u: Seq<u8>| is_letter_word(u) && listed_before(u, w) ==> #[trigger] all_agree(re1, re2, u)
}

/// `rep` reports on the first word of letters of length at most `max_len`
/// on which the recognizers do not all agree.
pub open spec fn first_disagreement(
    re1: Seq<char>,
    re2: Seq<char>,
    max_len: nat,
    rep: WordReport,
) -> bool {
    exists|w: Seq<u8>|
        {
            &&& is_letter_word(w)
            &&& w.len() <= max_len
            &&& #[trigger] rep.describes(re1, re2, w)
            &&& !rep.consistent()
            &&& agreed_before(re1, re2, w)
        }
}

/// Some word of letters of length at most `max_len` is one on which a
/// regular expression fails, and the recognizers agree on every word listed
/// before it.
pub open spec fn first_failure(re1: Seq<char>, re2: Seq<char>, max_len: nat) -> bool {
    exists|w: Seq<u8>|
        {
            &&& is_letter_word(w)
            &&& w.len() <= max_len
            &&& !#[trigger] searches_succeed(re1, re2, w)
            &&& agreed_before(re1, re2, w)
        }
}

/// Runs the five recognizers on every word of letters of length at most
/// `max_len`, shorter words first and words of one length by their numbers,
/// and stops at the first word on which they do not all agree, whose report
/// it returns, or at the first word on which a regular expression fails.
pub fn check_all_words_up_to(max_len: usize, re1: &Pattern, re2: &Pattern) -> (r: Result<
    Option<WordReport>,
    RegexFailure,
>)
    requires
        pow3(max_len as nat) <= usize::MAX,
    ensures
        r matches Ok(None) ==> forall|w: Seq<u8>|
            is_letter_word(w) && w.len() <= max_len ==> #[trigger] all_agree(re1@, re2@, w),
        r matches Ok(Some(rep)) ==> first_disagreement(re1@, re2@, max_len as nat, rep),
        r is Err ==> first_failure(re1@, re2@, max_len as nat),
        r matches Err(e) ==> e is Search,
{
    let ghost g1 = re1@;
    let ghost g2 = re2@;
    let ghost empty = spelled_word(0, 0);
    proof {
        lemma_spelled_word_letters(0, 0);
        lemma_letter_words_are_utf8(empty);
        assert(empty.len() == 0);
        assert forall|u: Seq<u8>| is_letter_word(u) && listed_before(u, empty) implies #[trigger] all_agree(
            g1,
            g2,
            u,
        ) by {
            assert(u.len() == 0);
            assert(word_number(u) == 0);
        }
    }
    let r0 = check_word("", re1, re2);
    proof {
        assert(("")@.len() == 0) by {
            reveal_strlit("");
        }
        assert(("").spec_bytes() =~= empty);
    }
    let first = match r0 {
        Ok(rep) => rep,
        Err(e) => {
            return Err(e);
        },
    };
    if !first.is_consistent() {
        proof {
            assert(first.describes(re1@, re2@, empty));
        }
        return Ok(Some(first));
    }
    let mut buf: Vec<u8> = Vec::new();
    let mut total: usize = 1;
    let mut len: usize = 1;
    while len <= max_len
        invariant
            g1 == re1@,
            g2 == re2@,
            pow3(max_len as nat) <= usize::MAX,
            1 <= len,
            len <= max_len + 1,
            total == pow3((len - 1) as nat),
            forall|n: nat, l: nat|
                l < len && n < pow3(l) ==> #[trigger] all_agree(g1, g2, spelled_word(n, l)),
        decreases max_len + 1 - len,
    {
        proof {
            lemma_pow3_grows(len as nat, max_len as nat);
        }
        total = total * 3;
        buf.resize(len, LETTER_A);
        let mut num: usize = 0;
        while num < total
            invariant
                g1 == re1@,
                g2 == re2@,
                pow3(max_len as nat) <= usize::MAX,
                1 <= len <= max_len,
                total == pow3(len as nat),
                buf@.len() == len,
                num <= total,
                forall|n: nat, l: nat|
                    l < len && n < pow3(l) ==> #[trigger] all_agree(g1, g2, spelled_word(n, l)),
                forall|n: nat|
                    n < num ==> #[trigger] all_agree(g1, g2, spelled_word(n, len as nat)),
            decreases total - num,
        {
            spell(&mut buf, num);
            let ghost w = buf@;
            proof {
                lemma_spelled_word_letters(num as nat, len as nat);
                lemma_letter_words_are_utf8(w);
            }
            let word = str_from_utf8(buf.as_slice()).unwrap();
            let checked = check_word(word, re1, re2);
            proof {
                assert forall|u: Seq<u8>| is_letter_word(u) && listed_before(u, w) implies #[trigger] all_agree(
                    g1,
                    g2,
                    u,
                ) by {
                    lemma_listed_before_spelled(u, num as nat, len as nat);
                    let k: nat = word_number(u);
                    if u.len() < len {
                        assert(all_agree(g1, g2, spelled_word(k, u.len())));
                    } else {
                        assert(all_agree(g1, g2, spelled_word(k, len as nat)));
                    }
                }
            }
            let rep = match checked {
                Ok(rep) => rep,
                Err(e) => {
                    return Err(e);
                },
            };
            if !rep.is_consistent() {
                proof {
                    assert(rep.describes(re1@, re2@, w));
                }
                return Ok(Some(rep));
            }
            num += 1;
        }
        proof {
            lemma_pow3_exceeds(max_len as nat);
        }
        len += 1;
    }
    proof {
        assert forall|w: Seq<u8>| is_letter_word(w) && w.len() <= max_len implies #[trigger] all_agree(
            g1,
            g2,
            w,
        ) by {
            lemma_every_word_is_spelled(w);
            assert(all_agree(g1, g2, spelled_word(word_number(w), w.len())));
        }
    }
    Ok(None)
}

/// Each word of `ws` is a word of letters of length at most `max_len` on
/// which the recognizers agree.
pub open spec fn agreeing_draws(
    re1: Seq<char>,
    re2: Seq<char>,
    max_len: nat,
    ws: Seq<Seq<u8>>,
) -> bool {
    forall|i: int|
        0 <= i < ws.len() ==> {
            &&& is_letter_word(#[trigger] ws[i])
            &&& ws[i].len() <= max_len
            &&& all_agree(re1, re2, ws[i])
        }
}

/// The recognizers agreed on the words `ws` drawn first; `w`, drawn next, is
/// a word of letters of length at most `max_len` on which they do not all
/// agree, and `rep` reports on it.
pub open spec fn stops_at_disagreement(
    re1: Seq<char>,
    re2: Seq<char>,
    max_len: nat,
    ws: Seq<Seq<u8>>,
    w: Seq<u8>,
    rep: WordReport,
) -> bool {
    &&& agreeing_draws(re1, re2, max_len, ws)
    &&& is_letter_word(w)
    &&& w.len() <= max_len
    &&& rep.describes(re1, re2, w)
    &&& !rep.consistent()
}

/// The recognizers agreed on the words `ws` drawn first; `w`, drawn next, is
/// a word of letters of length at most `max_len` on which a regular
/// expression fails.
pub open spec fn stops_at_failure(
    re1: Seq<char>,
    re2: Seq<char>,
    max_len: nat,
    ws: Seq<Seq<u8>>,
    w: Seq<u8>,
) -> bool {
    &&& agreeing_draws(re1, re2, max_len, ws)
    &&& is_letter_word(w)
    &&& w.len() <= max_len
    &&& !searches_succeed(re1, re2, w)
}

/// Draws `iterations` random words from `g`, each of a length drawn from
/// `0..=max_len` and of letters whose digits are drawn from `0..=2`, and runs
/// the five recognizers on each in turn. It stops at the first word on which
/// they do not all agree, whose report it returns, or at the first word on
/// which a regular expression fails. The record of `g` grows by exactly the
/// draws of the words it checked; which values come is left to chance.
pub fn fuzz_random(
    g: &mut Generator,
    iterations: usize,
    max_len: usize,
    re1: &Pattern,
    re2: &Pattern,
) -> (r: Result<Option<WordReport>, RegexFailure>)
    ensures
        r matches Ok(None) ==> exists|ws: Seq<Seq<u8>>|
            {
                &&& ws.len() == iterations
                &&& final(g).draws() == old(g).draws() + #[trigger] run_draws(max_len, ws)
                &&& agreeing_draws(re1@, re2@, max_len as nat, ws)
            },
        r matches Ok(Some(rep)) ==> exists|ws: Seq<Seq<u8>>, w: Seq<u8>|
            {
                &&& ws.len() < iterations
                &&& final(g).draws() == old(g).draws() + #[trigger] run_draws(max_len, ws.push(w))
                &&& stops_at_disagreement(re1@, re2@, max_len as nat, ws, w, rep)
            },
        r is Err ==> exists|ws: Seq<Seq<u8>>, w: Seq<u8>|
            {
                &&& ws.len() < iterations
                &&& final(g).draws() == old(g).draws() + #[trigger] run_draws(max_len, ws.push(w))
                &&& stops_at_failure(re1@, re2@, max_len as nat, ws, w)
            },
        r matches Err(e) ==> e is Search,
        iterations == 0 ==> (r matches Ok(None)),
        iterations == 0 ==> final(g).draws() == old(g).draws(),
{
    let ghost start = g.draws();
    let mut buf: Vec<u8> = Vec::new();
    let ghost mut drawn: Seq<Seq<u8>> = Seq::empty();
    proof {
        assert(start + run_draws(max_len, drawn) =~= start);
    }
    for i in 0..iterations
        invariant
            start == old(g).draws(),
            drawn.len() == i,
            agreeing_draws(re1@, re2@, max_len as nat, drawn),
            g.draws() == start + run_draws(max_len, drawn),
    {
        random_word(g, max_len, &mut buf);
        let ghost w = buf@;
        proof {
            lemma_letter_words_are_utf8(w);
            assert(drawn.push(w).drop_last() =~= drawn);
            assert(g.draws() =~= start + run_draws(max_len, drawn.push(w)));
        }
        let word = str_from_utf8(buf.as_slice()).unwrap();
        let rep = match check_word(word, re1, re2) {
            Ok(rep) => rep,
            Err(e) => {
                proof {
                    assert(stops_at_failure(re1@, re2@, max_len as nat, drawn, w));
                }
                return Err(e);
            },
        };
        if !rep.is_consistent() {
            proof {
                assert(rep.describes(re1@, re2@, w));
                assert(stops_at_disagreement(re1@, re2@, max_len as nat, drawn, w, rep));
            }
            return Ok(Some(rep));
        }
        proof {
            let before = drawn;
            drawn = drawn.push(w);
            assert forall|j: int| 0 <= j < drawn.len() implies {
                &&& is_letter_word(#[trigger] drawn[j])
                &&& drawn[j].len() <= max_len
                &&& all_agree(re1@, re2@, drawn[j])
            } by {
                if j < before.len() {
                    assert(drawn[j] == before[j]);
                }
            }
        }
    }
    Ok(None)
}

} // verus!

//! The language of the recognizers, stated directly: `A* B* A*`, where an
//! A-piece is `aa`, `aaa`, `bbb`, `cc`, or `ab` followed by a multiple of
//! three `c`, and a B-piece is `aa`, `bbb`, `bbbb`, or `aab` followed by an
//! even number of `c`; and the proof that the automata accept exactly it.

use vstd::prelude::*;
use crate::alphabet::{LETTER_A, LETTER_B, LETTER_C, is_letter};
use crate::nfa::{NfaState, bit, holds, nfa_step, nfa_start, nfa_run, nfa_accepts_word};
use crate::nfa_agreement::{
    lemma_letter_step, lemma_closure_is_three_rounds, a_moves, b_moves, c_moves, eps_round,
    lemma_a_step_bits, lemma_b_step_bits, lemma_c_step_bits, lemma_start_bits, lemma_nothing_holds,
};
use crate::dfa::dfa_accepts_word;
use crate::product::pka_accepts_word;
use crate::agreement::lemma_recognizers_agree;

verus! {

/// The word made of the words of `ps`, in order.
pub open spec fn concat(ps: Seq<Seq<u8>>) -> Seq<u8>
    decreases ps.len(),
{
    if ps.len() == 0 {
        Seq::empty()
    } else {
        concat(ps.drop_last()) + ps.last()
    }
}

/// `w` is made of zero or more words that `piece` holds of.
pub open spec fn star(piece: spec_fn(Seq<u8>) -> bool, w: Seq<u8>) -> bool {
    exists|ps: Seq<Seq<u8>>|
        #[trigger] concat(ps) == w && forall|i: int| 0 <= i < ps.len() ==> piece(#[trigger] ps[i])
}

/// Every word that `piece` holds of is not empty.
pub open spec fn nonempty_pieces(piece: spec_fn(Seq<u8>) -> bool) -> bool {
    forall|p: Seq<u8>| #[trigger] piece(p) ==> p.len() > 0
}

/// `v` is the one letter `x0`.
pub open spec fn spelled1(v: Seq<u8>, x0: u8) -> bool {
    v.len() == 1 && v[0] == x0
}

/// `v` is the two letters `x0 x1`.
pub open spec fn spelled2(v: Seq<u8>, x0: u8, x1: u8) -> bool {
    v.len() == 2 && v[0] == x0 && v[1] == x1
}

/// `v` is the three letters `x0 x1 x2`.
pub open spec fn spelled3(v: Seq<u8>, x0: u8, x1: u8, x2: u8) -> bool {
    v.len() == 3 && v[0] == x0 && v[1] == x1 && v[2] == x2
}

/// `v` is the four letters `x0 x1 x2 x3`.
pub open spec fn spelled4(v: Seq<u8>, x0: u8, x1: u8, x2: u8, x3: u8) -> bool {
    v.len() == 4 && v[0] == x0 && v[1] == x1 && v[2] == x2 && v[3] == x3
}

/// `v` is `ab` followed by a number of `c` that leaves `r` on division by three.
pub open spec fn ab_then_cs(v: Seq<u8>, r: int) -> bool {
    &&& v.len() >= 2
    &&& v[0] == LETTER_A
    &&& v[1] == LETTER_B
    &&& forall|i: int| 2 <= i < v.len() ==> #[trigger] v[i] == LETTER_C
    &&& (v.len() - 2) % 3 == r
}

/// `v` is `aab` followed by a number of `c` that leaves `r` on division by two.
pub open spec fn aab_then_cs(v: Seq<u8>, r: int) -> bool {
    &&& v.len() >= 3
    &&& v[0] == LETTER_A
    &&& v[1] == LETTER_A
    &&& v[2] == LETTER_B
    &&& forall|i: int| 3 <= i < v.len() ==> #[trigger] v[i] == LETTER_C
    &&& (v.len() - 3) % 2 == r
}

/// A piece of the two outer blocks: `aa`, `aaa`, `bbb`, `cc`, or `ab`
/// followed by a multiple of three `c`.
pub open spec fn a_piece(p: Seq<u8>) -> bool {
    ||| spelled2(p, LETTER_A, LETTER_A)
    ||| spelled3(p, LETTER_A, LETTER_A, LETTER_A)
    ||| spelled3(p, LETTER_B, LETTER_B, LETTER_B)
    ||| spelled2(p, LETTER_C, LETTER_C)
    ||| ab_then_cs(p, 0)
}

/// A piece of the middle block: `aa`, `bbb`, `bbbb`, or `aab` followed by an
/// even number of `c`.
pub open spec fn b_piece(p: Seq<u8>) -> bool {
    ||| spelled2(p, LETTER_A, LETTER_A)
    ||| spelled3(p, LETTER_B, LETTER_B, LETTER_B)
    ||| spelled4(p, LETTER_B, LETTER_B, LETTER_B, LETTER_B)
    ||| aab_then_cs(p, 0)
}

/// The A-pieces, as a predicate value.
pub open spec fn a_pieces() -> spec_fn(Seq<u8>) -> bool {
    |p: Seq<u8>| a_piece(p)
}

/// The B-pieces, as a predicate value.
pub open spec fn b_pieces() -> spec_fn(Seq<u8>) -> bool {
    |p: Seq<u8>| b_piece(p)
}

/// Words of A-pieces: the first block.
pub open spec fn first_block() -> spec_fn(Seq<u8>) -> bool {
    |u: Seq<u8>| star(a_pieces(), u)
}

/// Words of A-pieces followed by B-pieces: the first two blocks.
pub open spec fn two_blocks() -> spec_fn(Seq<u8>) -> bool {
    |u: Seq<u8>| after(first_block(), b_pieces(), u)
}

/// Words of the whole language `A* B* A*`.
pub open spec fn three_blocks() -> spec_fn(Seq<u8>) -> bool {
    |u: Seq<u8>| after(two_blocks(), a_pieces(), u)
}

/// The language `A* B* A*`: some split of `w` in three parts, the first and
/// last made of A-pieces and the middle one of B-pieces.
pub open spec fn in_language(w: Seq<u8>) -> bool {
    exists|i: int, j: int|
        0 <= i <= j <= w.len() && #[trigger] star(a_pieces(), w.take(i)) && star(
            b_pieces(),
            w.subrange(i, j),
        ) && #[trigger] star(a_pieces(), w.skip(j))
}

/// The unfinished piece that the automaton state numbered `j` stands for,
/// as the part of the word after the last complete block prefix.
pub open spec fn shape(j: int, v: Seq<u8>) -> bool {
    if j == 2 || j == 10 || j == 18 {
        spelled1(v, LETTER_A)
    } else if j == 3 || j == 11 || j == 19 {
        spelled2(v, LETTER_A, LETTER_A)
    } else if j == 4 || j == 12 || j == 20 {
        spelled1(v, LETTER_B)
    } else if j == 5 || j == 13 || j == 21 {
        spelled2(v, LETTER_B, LETTER_B)
    } else if j == 14 {
        spelled3(v, LETTER_B, LETTER_B, LETTER_B)
    } else if j == 6 || j == 22 {
        spelled1(v, LETTER_C)
    } else if j == 7 || j == 23 {
        ab_then_cs(v, 0)
    } else if j == 8 || j == 24 {
        ab_then_cs(v, 1)
    } else if j == 9 || j == 25 {
        ab_then_cs(v, 2)
    } else if j == 15 {
        aab_then_cs(v, 0)
    } else if j == 16 {
        aab_then_cs(v, 1)
    } else {
        false
    }
}

/// The states that stand for complete block prefixes: `ALStar`, `Mid` and `RStar`.
pub open spec fn is_hub(j: int) -> bool {
    j == 0 || j == 1 || j == 17
}

/// The state that the automaton moves from to the state `j` on the byte `x`,
/// or `-1` where there is none (each state has at most one).
pub open spec fn source(j: int, x: u8) -> int {
    if x == LETTER_A {
        if j == 2 { 0 } else if j == 3 { 2 } else if j == 10 { 1 } else if j == 11 { 10 }
        else if j == 18 { 17 } else if j == 19 { 18 } else { -1 }
    } else if x == LETTER_B {
        if j == 4 { 0 } else if j == 5 { 4 } else if j == 7 { 2 } else if j == 12 { 1 }
        else if j == 13 { 12 } else if j == 14 { 13 } else if j == 15 { 11 } else if j == 20 { 17 }
        else if j == 21 { 20 } else if j == 23 { 18 } else { -1 }
    } else if x == LETTER_C {
        if j == 6 { 0 } else if j == 7 { 9 } else if j == 8 { 7 } else if j == 9 { 8 }
        else if j == 15 { 16 } else if j == 16 { 15 } else if j == 22 { 17 } else if j == 23 { 25 }
        else if j == 24 { 23 } else if j == 25 { 24 } else { -1 }
    } else {
        -1
    }
}

/// What the part `v` must be for `v` followed by `x` to have the shape of
/// the state `j`.
pub open spec fn shape_before(j: int, x: u8, v: Seq<u8>) -> bool {
    let p = source(j, x);
    if p < 0 {
        false
    } else if is_hub(p) {
        v.len() == 0
    } else {
        shape(p, v)
    }
}

proof fn lemma_ab_push(v: Seq<u8>, x: u8, r: int)
    requires
        0 <= r < 3,
    ensures
        ab_then_cs(v.push(x), r) == if x == LETTER_C {
            ab_then_cs(v, (r + 2) % 3)
        } else if x == LETTER_B {
            r == 0 && spelled1(v, LETTER_A)
        } else {
            false
        },
{
    let w = v.push(x);
    assert(w.len() == v.len() + 1);
    assert(w[v.len() as int] == x);
    assert forall|i: int| 0 <= i < v.len() implies w[i] == v[i] by {}
    if ab_then_cs(w, r) && x == LETTER_C && v.len() < 2 {
        assert(w[1] == v[1] || v.len() == 1);
    }
    if x == LETTER_C && ab_then_cs(v, (r + 2) % 3) {
        assert forall|i: int| 2 <= i < w.len() implies #[trigger] w[i] == LETTER_C by {
            if i < v.len() {
                assert(v[i] == LETTER_C);
            }
        }
    }
    if x == LETTER_C && ab_then_cs(w, r) {
        assert forall|i: int| 2 <= i < v.len() implies #[trigger] v[i] == LETTER_C by {
            assert(w[i] == LETTER_C);
        }
    }
    if x == LETTER_B && ab_then_cs(w, r) && v.len() >= 2 {
        assert(w[v.len() as int] == LETTER_C);
    }
}

proof fn lemma_aab_push(v: Seq<u8>, x: u8, r: int)
    requires
        0 <= r < 2,
    ensures
        aab_then_cs(v.push(x), r) == if x == LETTER_C {
            aab_then_cs(v, 1 - r)
        } else if x == LETTER_B {
            r == 0 && spelled2(v, LETTER_A, LETTER_A)
        } else {
            false
        },
{
    let w = v.push(x);
    assert(w.len() == v.len() + 1);
    assert(w[v.len() as int] == x);
    assert forall|i: int| 0 <= i < v.len() implies w[i] == v[i] by {}
    if x == LETTER_C && aab_then_cs(v, 1 - r) {
        assert forall|i: int| 3 <= i < w.len() implies #[trigger] w[i] == LETTER_C by {
            if i < v.len() {
                assert(v[i] == LETTER_C);
            }
        }
    }
    if x == LETTER_C && aab_then_cs(w, r) {
        assert forall|i: int| 3 <= i < v.len() implies #[trigger] v[i] == LETTER_C by {
            assert(w[i] == LETTER_C);
        }
    }
    if x == LETTER_B && aab_then_cs(w, r) && v.len() >= 3 {
        assert(w[v.len() as int] == LETTER_C);
    }
}

/// Reading one more byte into the unfinished piece of a state: the part
/// before it has the shape of the state the automaton moves from.
pub proof fn lemma_shape_push(j: int, x: u8, v: Seq<u8>)
    requires
        2 <= j < 26,
        j != 17,
    ensures
        shape(j, v.push(x)) == shape_before(j, x, v),
{
    let w = v.push(x);
    assert(w.len() == v.len() + 1);
    assert(w[v.len() as int] == x);
    assert forall|i: int| 0 <= i < v.len() implies w[i] == v[i] by {}
    lemma_ab_push(v, x, 0);
    lemma_ab_push(v, x, 1);
    lemma_ab_push(v, x, 2);
    lemma_aab_push(v, x, 0);
    lemma_aab_push(v, x, 1);
}

/// `w` is a prefix that `h` holds of, followed by zero or more pieces.
pub open spec fn after(h: spec_fn(Seq<u8>) -> bool, piece: spec_fn(Seq<u8>) -> bool, w: Seq<u8>) -> bool {
    exists|i: int| 0 <= i <= w.len() && #[trigger] h(w.take(i)) && star(piece, w.skip(i))
}

/// A nonempty word made of pieces ends with a piece after a word made of pieces.
pub proof fn lemma_star_last_piece(piece: spec_fn(Seq<u8>) -> bool, w: Seq<u8>)
    requires
        nonempty_pieces(piece),
    ensures
        star(piece, w) <==> (w.len() == 0 || exists|k: int|
            0 <= k < w.len() && #[trigger] piece(w.skip(k)) && star(piece, w.take(k))),
{
    if w.len() == 0 {
        assert(concat(Seq::<Seq<u8>>::empty()) == w);
    }
    if star(piece, w) && w.len() > 0 {
        let ps = choose|ps: Seq<Seq<u8>>|
            #[trigger] concat(ps) == w && forall|i: int| 0 <= i < ps.len() ==> piece(#[trigger] ps[i]);
        assert(ps.len() > 0);
        let p = ps.last();
        let rest = ps.drop_last();
        assert(piece(ps[ps.len() - 1]));
        let k = w.len() - p.len();
        assert(w.take(k) =~= concat(rest));
        assert(w.skip(k) =~= p);
        assert forall|i: int| 0 <= i < rest.len() implies piece(#[trigger] rest[i]) by {
            assert(rest[i] == ps[i]);
        }
        assert(star(piece, w.take(k)));
    }
    if w.len() > 0 && exists|k: int| 0 <= k < w.len() && #[trigger] piece(w.skip(k)) && star(piece, w.take(k)) {
        let k = choose|k: int| 0 <= k < w.len() && #[trigger] piece(w.skip(k)) && star(piece, w.take(k));
        let ps = choose|ps: Seq<Seq<u8>>|
            #[trigger] concat(ps) == w.take(k) && forall|i: int| 0 <= i < ps.len() ==> piece(#[trigger] ps[i]);
        let qs = ps.push(w.skip(k));
        assert(qs.drop_last() =~= ps);
        assert(concat(qs) =~= w);
        assert forall|i: int| 0 <= i < qs.len() implies piece(#[trigger] qs[i]) by {
            if i < ps.len() {
                assert(qs[i] == ps[i]);
            }
        }
    }
}

/// `w` is a prefix that `h` holds of followed by a part that `s` holds of.
pub open spec fn ends_in(h: spec_fn(Seq<u8>) -> bool, s: spec_fn(Seq<u8>) -> bool, w: Seq<u8>) -> bool {
    exists|k: int| 0 <= k <= w.len() && #[trigger] h(w.take(k)) && s(w.skip(k))
}

/// Reading one more byte: the part after the prefix, less that byte, is one
/// that `d` holds of.
pub proof fn lemma_ends_in_push(
    h: spec_fn(Seq<u8>) -> bool,
    s: spec_fn(Seq<u8>) -> bool,
    d: spec_fn(Seq<u8>) -> bool,
    w: Seq<u8>,
    x: u8,
)
    requires
        forall|v: Seq<u8>| #[trigger] d(v) == s(v.push(x)),
        !s(Seq::empty()),
    ensures
        ends_in(h, s, w.push(x)) == ends_in(h, d, w),
{
    let wx = w.push(x);
    if ends_in(h, s, wx) {
        let k = choose|k: int| 0 <= k <= wx.len() && #[trigger] h(wx.take(k)) && s(wx.skip(k));
        if k == wx.len() {
            assert(wx.skip(k) =~= Seq::<u8>::empty());
        }
        assert(wx.take(k) =~= w.take(k));
        assert(wx.skip(k) =~= w.skip(k).push(x));
        assert(d(w.skip(k)));
        assert(h(w.take(k)));
    }
    if ends_in(h, d, w) {
        let k = choose|k: int| 0 <= k <= w.len() && #[trigger] h(w.take(k)) && d(w.skip(k));
        assert(wx.take(k) =~= w.take(k));
        assert(wx.skip(k) =~= w.skip(k).push(x));
        assert(h(wx.take(k)));
    }
}

/// A part that is one of two kinds.
pub proof fn lemma_ends_in_or(
    h: spec_fn(Seq<u8>) -> bool,
    d: spec_fn(Seq<u8>) -> bool,
    s1: spec_fn(Seq<u8>) -> bool,
    s2: spec_fn(Seq<u8>) -> bool,
    w: Seq<u8>,
)
    requires
        forall|v: Seq<u8>| #[trigger] d(v) == (s1(v) || s2(v)),
    ensures
        ends_in(h, d, w) == (ends_in(h, s1, w) || ends_in(h, s2, w)),
{
    if ends_in(h, d, w) {
        let k = choose|k: int| 0 <= k <= w.len() && #[trigger] h(w.take(k)) && d(w.skip(k));
        assert(d(w.skip(k)));
    }
    if ends_in(h, s1, w) {
        let k = choose|k: int| 0 <= k <= w.len() && #[trigger] h(w.take(k)) && s1(w.skip(k));
        assert(d(w.skip(k)));
    }
    if ends_in(h, s2, w) {
        let k = choose|k: int| 0 <= k <= w.len() && #[trigger] h(w.take(k)) && s2(w.skip(k));
        assert(d(w.skip(k)));
    }
}

/// Parts of the same kind.
pub proof fn lemma_ends_in_same(
    h: spec_fn(Seq<u8>) -> bool,
    d: spec_fn(Seq<u8>) -> bool,
    s1: spec_fn(Seq<u8>) -> bool,
    w: Seq<u8>,
)
    requires
        forall|v: Seq<u8>| #[trigger] d(v) == s1(v),
    ensures
        ends_in(h, d, w) == ends_in(h, s1, w),
{
    if ends_in(h, d, w) {
        let k = choose|k: int| 0 <= k <= w.len() && #[trigger] h(w.take(k)) && d(w.skip(k));
        assert(d(w.skip(k)));
    }
    if ends_in(h, s1, w) {
        let k = choose|k: int| 0 <= k <= w.len() && #[trigger] h(w.take(k)) && s1(w.skip(k));
        assert(d(w.skip(k)));
    }
}

/// An empty part: the prefix is the whole word.
pub proof fn lemma_ends_in_empty(h: spec_fn(Seq<u8>) -> bool, d: spec_fn(Seq<u8>) -> bool, w: Seq<u8>)
    requires
        forall|v: Seq<u8>| #[trigger] d(v) == (v.len() == 0),
    ensures
        ends_in(h, d, w) == h(w),
{
    if ends_in(h, d, w) {
        let k = choose|k: int| 0 <= k <= w.len() && #[trigger] h(w.take(k)) && d(w.skip(k));
        assert(d(w.skip(k)));
        assert(w.take(k) =~= w);
    }
    if h(w) {
        assert(w.take(w.len() as int) =~= w);
        assert(d(w.skip(w.len() as int)));
    }
}

/// A part of a kind that nothing is.
pub proof fn lemma_ends_in_none(h: spec_fn(Seq<u8>) -> bool, d: spec_fn(Seq<u8>) -> bool, w: Seq<u8>)
    requires
        forall|v: Seq<u8>| !#[trigger] d(v),
    ensures
        !ends_in(h, d, w),
{
    if ends_in(h, d, w) {
        let k = choose|k: int| 0 <= k <= w.len() && #[trigger] h(w.take(k)) && d(w.skip(k));
        assert(d(w.skip(k)));
    }
}

/// A word of pieces followed by one more byte ends in a piece that holds the byte.
pub proof fn lemma_star_push(
    piece: spec_fn(Seq<u8>) -> bool,
    hh: spec_fn(Seq<u8>) -> bool,
    d: spec_fn(Seq<u8>) -> bool,
    w: Seq<u8>,
    x: u8,
)
    requires
        nonempty_pieces(piece),
        forall|u: Seq<u8>| #[trigger] hh(u) == star(piece, u),
        forall|v: Seq<u8>| #[trigger] d(v) == piece(v.push(x)),
    ensures
        star(piece, w.push(x)) == ends_in(hh, d, w),
{
    let wx = w.push(x);
    lemma_star_last_piece(piece, wx);
    if star(piece, wx) {
        let k = choose|k: int| 0 <= k < wx.len() && #[trigger] piece(wx.skip(k)) && star(piece, wx.take(k));
        assert(wx.take(k) =~= w.take(k));
        assert(wx.skip(k) =~= w.skip(k).push(x));
        assert(d(w.skip(k)));
        assert(hh(w.take(k)));
    }
    if ends_in(hh, d, w) {
        let k = choose|k: int| 0 <= k <= w.len() && #[trigger] hh(w.take(k)) && d(w.skip(k));
        assert(wx.take(k) =~= w.take(k));
        assert(wx.skip(k) =~= w.skip(k).push(x));
        assert(piece(wx.skip(k)));
    }
}

/// A prefix followed by pieces, and one more byte: either the whole is the
/// prefix, or it ends in a piece that holds the byte.
pub proof fn lemma_after_push(
    h: spec_fn(Seq<u8>) -> bool,
    piece: spec_fn(Seq<u8>) -> bool,
    hh: spec_fn(Seq<u8>) -> bool,
    d: spec_fn(Seq<u8>) -> bool,
    w: Seq<u8>,
    x: u8,
)
    requires
        nonempty_pieces(piece),
        forall|u: Seq<u8>| #[trigger] hh(u) == after(h, piece, u),
        forall|v: Seq<u8>| #[trigger] d(v) == piece(v.push(x)),
    ensures
        after(h, piece, w.push(x)) == (h(w.push(x)) || ends_in(hh, d, w)),
{
    let wx = w.push(x);
    lemma_star_last_piece(piece, Seq::<u8>::empty());
    if after(h, piece, wx) && !h(wx) {
        let i = choose|i: int| 0 <= i <= wx.len() && #[trigger] h(wx.take(i)) && star(piece, wx.skip(i));
        if i == wx.len() {
            assert(wx.take(i) =~= wx);
        }
        let u = wx.skip(i);
        lemma_star_last_piece(piece, u);
        let kk = choose|kk: int| 0 <= kk < u.len() && #[trigger] piece(u.skip(kk)) && star(piece, u.take(kk));
        let k = i + kk;
        assert(u.skip(kk) =~= w.skip(k).push(x));
        assert(d(w.skip(k)));
        let wk = w.take(k);
        assert(wk.take(i) =~= wx.take(i));
        assert(wk.skip(i) =~= u.take(kk));
        assert(h(wk.take(i)));
        assert(after(h, piece, wk));
        assert(hh(w.take(k)));
    }
    if h(wx) {
        assert(wx.take(wx.len() as int) =~= wx);
        assert(wx.skip(wx.len() as int) =~= Seq::<u8>::empty());
        assert(h(wx.take(wx.len() as int)));
    }
    if ends_in(hh, d, w) {
        let k = choose|k: int| 0 <= k <= w.len() && #[trigger] hh(w.take(k)) && d(w.skip(k));
        let wk = w.take(k);
        assert(after(h, piece, wk));
        let i = choose|i: int| 0 <= i <= wk.len() && #[trigger] h(wk.take(i)) && star(piece, wk.skip(i));
        let u = wx.skip(i);
        let kk = k - i;
        assert(u.skip(kk) =~= w.skip(k).push(x));
        assert(u.take(kk) =~= wk.skip(i));
        assert(piece(u.skip(kk)));
        lemma_star_last_piece(piece, u);
        assert(star(piece, u));
        assert(wx.take(i) =~= wk.take(i));
        assert(h(wx.take(i)));
    }
}

/// The automaton starts in `ALStar`, `Mid` and `RStar`.
pub proof fn lemma_start_holds(j: int)
    requires
        0 <= j < 26,
    ensures
        holds(nfa_start(), j as u64) == is_hub(j),
{
    lemma_closure_is_three_rounds(bit(NfaState::ALStar));
    let one: u64 = 1u64 << 0u8;
    lemma_start_bits(j as u64, one, eps_round(one), eps_round(eps_round(one)), nfa_start());
}

/// After one more byte, a state other than `ALStar`, `Mid` and `RStar` is
/// held exactly when the state that moves to it on that byte was held before.
pub proof fn lemma_step_holds(s: u64, x: u8, j: int)
    requires
        2 <= j < 26,
        j != 17,
    ensures
        holds(nfa_step(s, x), j as u64) == (source(j, x) >= 0 && holds(s, source(j, x) as u64)),
{
    let z = nfa_step(s, x);
    if is_letter(x) {
        lemma_letter_step(s, x);
        if x == LETTER_A {
            lemma_a_step_bits(s, a_moves(s), eps_round(a_moves(s)), eps_round(eps_round(a_moves(s))), z);
        } else if x == LETTER_B {
            lemma_b_step_bits(s, b_moves(s), eps_round(b_moves(s)), eps_round(eps_round(b_moves(s))), z);
        } else {
            lemma_c_step_bits(s, c_moves(s), eps_round(c_moves(s)), eps_round(eps_round(c_moves(s))), z);
        }
    } else {
        lemma_nothing_holds(j as u64);
    }
    if j == 2 {
        } else if j == 3 {
        } else if j == 4 {
        } else if j == 5 {
        } else if j == 6 {
        } else if j == 7 {
        } else if j == 8 {
        } else if j == 9 {
        } else if j == 10 {
        } else if j == 11 {
        } else if j == 12 {
        } else if j == 13 {
        } else if j == 14 {
        } else if j == 15 {
        } else if j == 16 {
        } else if j == 18 {
        } else if j == 19 {
        } else if j == 20 {
        } else if j == 21 {
        } else if j == 22 {
        } else if j == 23 {
        } else if j == 24 {
        } else if j == 25 {
        }
}

/// After one more byte, `ALStar`, `Mid` and `RStar` are held exactly when a
/// piece of their block ends with the byte, or the block before them ends there.
pub proof fn lemma_step_holds_hubs(s: u64, x: u8)
    ensures
        holds(nfa_step(s, x), 0) == (x == LETTER_A && (holds(s, 2) || holds(s, 3))
            || x == LETTER_B && (holds(s, 5) || holds(s, 2))
            || x == LETTER_C && (holds(s, 6) || holds(s, 9))),
        holds(nfa_step(s, x), 1) == (holds(nfa_step(s, x), 0)
            || x == LETTER_A && holds(s, 10)
            || x == LETTER_B && (holds(s, 13) || holds(s, 14) || holds(s, 11))
            || x == LETTER_C && holds(s, 16)),
        holds(nfa_step(s, x), 17) == (holds(nfa_step(s, x), 1)
            || x == LETTER_A && (holds(s, 18) || holds(s, 19))
            || x == LETTER_B && (holds(s, 21) || holds(s, 18))
            || x == LETTER_C && (holds(s, 22) || holds(s, 25))),
{
    let z = nfa_step(s, x);
    if is_letter(x) {
        lemma_letter_step(s, x);
        if x == LETTER_A {
            lemma_a_step_bits(s, a_moves(s), eps_round(a_moves(s)), eps_round(eps_round(a_moves(s))), z);
        } else if x == LETTER_B {
            lemma_b_step_bits(s, b_moves(s), eps_round(b_moves(s)), eps_round(eps_round(b_moves(s))), z);
        } else {
            lemma_c_step_bits(s, c_moves(s), eps_round(c_moves(s)), eps_round(eps_round(c_moves(s))), z);
        }
    } else {
        lemma_nothing_holds(0);
        lemma_nothing_holds(1);
        lemma_nothing_holds(17);
    }
}

/// Every A-piece and every B-piece has a letter.
pub proof fn lemma_pieces_are_nonempty()
    ensures
        nonempty_pieces(a_pieces()),
        nonempty_pieces(b_pieces()),
{
}

/// An A-piece that ends with the byte `x`, less that byte.
pub proof fn lemma_a_piece_push(x: u8, v: Seq<u8>)
    ensures
        a_piece(v.push(x)) == (x == LETTER_A && (shape(2, v) || shape(3, v))
            || x == LETTER_B && (shape(5, v) || shape(2, v))
            || x == LETTER_C && (shape(6, v) || shape(9, v))),
{
    let w = v.push(x);
    assert(w.len() == v.len() + 1);
    assert(w[v.len() as int] == x);
    assert forall|i: int| 0 <= i < v.len() implies w[i] == v[i] by {}
    lemma_ab_push(v, x, 0);
}

/// A B-piece that ends with the byte `x`, less that byte.
pub proof fn lemma_b_piece_push(x: u8, v: Seq<u8>)
    ensures
        b_piece(v.push(x)) == (x == LETTER_A && shape(10, v)
            || x == LETTER_B && (shape(13, v) || shape(14, v) || shape(11, v))
            || x == LETTER_C && shape(16, v)),
{
    let w = v.push(x);
    assert(w.len() == v.len() + 1);
    assert(w[v.len() as int] == x);
    assert forall|i: int| 0 <= i < v.len() implies w[i] == v[i] by {}
    lemma_aab_push(v, x, 0);
}

/// The unfinished piece of the state `j`, as a predicate value.
pub open spec fn shape_of(j: int) -> spec_fn(Seq<u8>) -> bool {
    |v: Seq<u8>| shape(j, v)
}

/// The complete blocks before the unfinished piece of the state `j`: the
/// first block for the states of the left A-block, the first two for those
/// of the B-block, all three for those of the right A-block.
pub open spec fn blocks_of(j: int) -> spec_fn(Seq<u8>) -> bool {
    if j == 0 || 2 <= j <= 9 {
        first_block()
    } else if j == 1 || 10 <= j <= 16 {
        two_blocks()
    } else {
        three_blocks()
    }
}

/// The words after which a path of the automaton can end in the state
/// numbered `j`: for `ALStar`, `Mid` and `RStar` the complete blocks, for the
/// others complete blocks followed by the unfinished piece of the state.
pub open spec fn reaches_state(j: int, w: Seq<u8>) -> bool {
    if is_hub(j) {
        blocks_of(j)(w)
    } else {
        ends_in(blocks_of(j), shape_of(j), w)
    }
}

/// After the word `w` the subset simulation holds the state `j` exactly when
/// `w` is complete blocks followed by the unfinished piece of `j`.
pub proof fn lemma_run_holds_state(w: Seq<u8>, j: int)
    requires
        0 <= j < 26,
    ensures
        holds(nfa_run(w), j as u64) == reaches_state(j, w),
    decreases w.len(), j,
{
    lemma_pieces_are_nonempty();
    if w.len() == 0 {
        lemma_start_holds(j);
        lemma_star_last_piece(a_pieces(), w);
        lemma_star_last_piece(b_pieces(), w);
        assert(w.take(0) =~= w);
        assert(w.skip(0) =~= w);
        assert(first_block()(w.take(0)));
        assert(two_blocks()(w));
        assert(two_blocks()(w.take(0)));
        assert(three_blocks()(w));
        if !is_hub(j) && ends_in(blocks_of(j), shape_of(j), w) {
            let k = choose|k: int| 0 <= k <= w.len() && #[trigger] blocks_of(j)(w.take(k)) && shape_of(j)(w.skip(k));
            assert(w.skip(k).len() == 0);
        }
    } else {
        let v = w.drop_last();
        let x = w.last();
        assert(w =~= v.push(x));
        let s = nfa_run(v);
        assert(nfa_run(w) == nfa_step(s, x));
        lemma_step_holds_hubs(s, x);
        if !is_hub(j) {
            lemma_step_holds(s, x, j);
            let p = source(j, x);
            let d = |u: Seq<u8>| shape(j, u.push(x));
            assert forall|u: Seq<u8>| #[trigger] d(u) == shape_of(j)(u.push(x)) by {}
            lemma_ends_in_push(blocks_of(j), shape_of(j), d, v, x);
            assert forall|u: Seq<u8>| #[trigger] d(u) == shape_before(j, x, u) by {
                lemma_shape_push(j, x, u);
            }
            if p < 0 {
                lemma_ends_in_none(blocks_of(j), d, v);
            } else if is_hub(p) {
                assert forall|u: Seq<u8>| #[trigger] d(u) == (u.len() == 0) by {}
                lemma_ends_in_empty(blocks_of(j), d, v);
                lemma_run_holds_state(v, p);
                assert(blocks_of(p) == blocks_of(j));
            } else {
                assert forall|u: Seq<u8>| #[trigger] d(u) == shape_of(p)(u) by {}
                lemma_ends_in_same(blocks_of(j), d, shape_of(p), v);
                lemma_run_holds_state(v, p);
                assert(blocks_of(p) == blocks_of(j));
            }
        } else if j == 0 {
            let d = |u: Seq<u8>| a_pieces()(u.push(x));
            assert forall|u: Seq<u8>| #[trigger] first_block()(u) == star(a_pieces(), u) by {}
            assert forall|u: Seq<u8>| #[trigger] d(u) == a_pieces()(u.push(x)) by {}
            lemma_star_push(a_pieces(), first_block(), d, v, x);
            assert forall|u: Seq<u8>| #[trigger] d(u) == (x == LETTER_A && (shape(2, u) || shape(3, u))
                || x == LETTER_B && (shape(5, u) || shape(2, u))
                || x == LETTER_C && (shape(6, u) || shape(9, u))) by {
                lemma_a_piece_push(x, u);
            }
            if x == LETTER_A {
                lemma_ends_in_or(first_block(), d, shape_of(2), shape_of(3), v);
                lemma_run_holds_state(v, 2);
                lemma_run_holds_state(v, 3);
            } else if x == LETTER_B {
                lemma_ends_in_or(first_block(), d, shape_of(5), shape_of(2), v);
                lemma_run_holds_state(v, 5);
                lemma_run_holds_state(v, 2);
            } else if x == LETTER_C {
                lemma_ends_in_or(first_block(), d, shape_of(6), shape_of(9), v);
                lemma_run_holds_state(v, 6);
                lemma_run_holds_state(v, 9);
            } else {
                lemma_ends_in_none(first_block(), d, v);
            }
        } else if j == 1 {
            lemma_run_holds_state(w, 0);
            let d = |u: Seq<u8>| b_pieces()(u.push(x));
            assert forall|u: Seq<u8>| #[trigger] two_blocks()(u) == after(first_block(), b_pieces(), u) by {}
            assert forall|u: Seq<u8>| #[trigger] d(u) == b_pieces()(u.push(x)) by {}
            lemma_after_push(first_block(), b_pieces(), two_blocks(), d, v, x);
            assert forall|u: Seq<u8>| #[trigger] d(u) == (x == LETTER_A && shape(10, u)
                || x == LETTER_B && (shape(13, u) || shape(14, u) || shape(11, u))
                || x == LETTER_C && shape(16, u)) by {
                lemma_b_piece_push(x, u);
            }
            if x == LETTER_A {
                lemma_ends_in_same(two_blocks(), d, shape_of(10), v);
                lemma_run_holds_state(v, 10);
            } else if x == LETTER_B {
                let e = |u: Seq<u8>| shape(13, u) || shape(14, u);
                lemma_ends_in_or(two_blocks(), d, e, shape_of(11), v);
                lemma_ends_in_or(two_blocks(), e, shape_of(13), shape_of(14), v);
                lemma_run_holds_state(v, 11);
                lemma_run_holds_state(v, 13);
                lemma_run_holds_state(v, 14);
            } else if x == LETTER_C {
                lemma_ends_in_same(two_blocks(), d, shape_of(16), v);
                lemma_run_holds_state(v, 16);
            } else {
                lemma_ends_in_none(two_blocks(), d, v);
            }
        } else {
            lemma_run_holds_state(w, 1);
            let d = |u: Seq<u8>| a_pieces()(u.push(x));
            assert forall|u: Seq<u8>| #[trigger] three_blocks()(u) == after(two_blocks(), a_pieces(), u) by {}
            assert forall|u: Seq<u8>| #[trigger] d(u) == a_pieces()(u.push(x)) by {}
            lemma_after_push(two_blocks(), a_pieces(), three_blocks(), d, v, x);
            assert forall|u: Seq<u8>| #[trigger] d(u) == (x == LETTER_A && (shape(18, u) || shape(19, u))
                || x == LETTER_B && (shape(21, u) || shape(18, u))
                || x == LETTER_C && (shape(22, u) || shape(25, u))) by {
                lemma_a_piece_push(x, u);
            }
            if x == LETTER_A {
                lemma_ends_in_or(three_blocks(), d, shape_of(18), shape_of(19), v);
                lemma_run_holds_state(v, 18);
                lemma_run_holds_state(v, 19);
            } else if x == LETTER_B {
                lemma_ends_in_or(three_blocks(), d, shape_of(21), shape_of(18), v);
                lemma_run_holds_state(v, 21);
                lemma_run_holds_state(v, 18);
            } else if x == LETTER_C {
                lemma_ends_in_or(three_blocks(), d, shape_of(22), shape_of(25), v);
                lemma_run_holds_state(v, 22);
                lemma_run_holds_state(v, 25);
            } else {
                lemma_ends_in_none(three_blocks(), d, v);
            }
        }
    }
}

/// Words of the three blocks are the words of the language.
pub proof fn lemma_three_blocks_are_the_language(w: Seq<u8>)
    ensures
        three_blocks()(w) == in_language(w),
{
    if three_blocks()(w) {
        let j = choose|j: int| 0 <= j <= w.len() && #[trigger] two_blocks()(w.take(j)) && star(a_pieces(), w.skip(j));
        let u = w.take(j);
        let i = choose|i: int| 0 <= i <= u.len() && #[trigger] first_block()(u.take(i)) && star(b_pieces(), u.skip(i));
        assert(u.take(i) =~= w.take(i));
        assert(u.skip(i) =~= w.subrange(i, j));
        assert(star(a_pieces(), w.take(i)));
    }
    if in_language(w) {
        let (i, j) = choose|i: int, j: int|
            0 <= i <= j <= w.len() && #[trigger] star(a_pieces(), w.take(i)) && star(
                b_pieces(),
                w.subrange(i, j),
            ) && #[trigger] star(a_pieces(), w.skip(j));
        let u = w.take(j);
        assert(u.take(i) =~= w.take(i));
        assert(u.skip(i) =~= w.subrange(i, j));
        assert(first_block()(u.take(i)));
        assert(two_blocks()(w.take(j)));
    }
}

proof fn lemma_final_bit(a: u64)
    by (bit_vector)
    ensures
        (a & (1u64 << 17u8) != 0) == ((a >> 17u64) & 1 == 1),
{
}

/// The recognizers accept exactly the words of `A* B* A*`: the subset
/// simulation of the nondeterministic automaton, the deterministic automaton
/// and the product of automata each accept a word exactly when it splits into
/// a part made of A-pieces, a part made of B-pieces and a part made of
/// A-pieces.
pub proof fn lemma_accepted_words_are_the_language(w: Seq<u8>)
    ensures
        nfa_accepts_word(w) == in_language(w),
        dfa_accepts_word(w) == in_language(w),
        pka_accepts_word(w) == in_language(w),
{
    lemma_run_holds_state(w, 17);
    lemma_final_bit(nfa_run(w));
    lemma_three_blocks_are_the_language(w);
    lemma_recognizers_agree(w);
}

/// The word made of `p` and then the words of `ps` is `p` followed by their concatenation.
pub proof fn lemma_concat_prepend(p: Seq<u8>, ps: Seq<Seq<u8>>)
    ensures
        concat(seq![p] + ps) == p + concat(ps),
    decreases ps.len(),
{
    let qs = seq![p] + ps;
    if ps.len() == 0 {
        assert(qs.drop_last() =~= Seq::<Seq<u8>>::empty());
        assert(qs.last() == p);
        assert(concat(qs.drop_last()) =~= Seq::<u8>::empty());
        assert(concat(ps) =~= Seq::<u8>::empty());
        assert(concat(qs) =~= p + concat(ps));
    } else {
        lemma_concat_prepend(p, ps.drop_last());
        assert(qs.drop_last() =~= seq![p] + ps.drop_last());
        assert(qs.last() == ps.last());
        let a = concat(ps.drop_last());
        assert(concat(qs) == (p + a) + ps.last());
        assert(concat(ps) == a + ps.last());
        assert((p + a) + ps.last() =~= p + (a + ps.last()));
    }
}

/// A piece followed by a word of pieces is a word of pieces.
pub proof fn lemma_star_prepend(piece: spec_fn(Seq<u8>) -> bool, p: Seq<u8>, u: Seq<u8>)
    requires
        piece(p),
        star(piece, u),
    ensures
        star(piece, p + u),
{
    let ps = choose|ps: Seq<Seq<u8>>|
        #[trigger] concat(ps) == u && forall|i: int| 0 <= i < ps.len() ==> piece(#[trigger] ps[i]);
    let qs = seq![p] + ps;
    lemma_concat_prepend(p, ps);
    assert forall|i: int| 0 <= i < qs.len() implies piece(#[trigger] qs[i]) by {
        if i > 0 {
            assert(qs[i] == ps[i - 1]);
        }
    }
}

/// A word of pieces followed by a piece is a word of pieces.
pub proof fn lemma_star_append(piece: spec_fn(Seq<u8>) -> bool, u: Seq<u8>, p: Seq<u8>)
    requires
        piece(p),
        star(piece, u),
    ensures
        star(piece, u + p),
{
    let ps = choose|ps: Seq<Seq<u8>>|
        #[trigger] concat(ps) == u && forall|i: int| 0 <= i < ps.len() ==> piece(#[trigger] ps[i]);
    let qs = ps.push(p);
    assert(qs.drop_last() =~= ps);
    assert(concat(qs) =~= u + p);
    assert forall|i: int| 0 <= i < qs.len() implies piece(#[trigger] qs[i]) by {
        if i < ps.len() {
            assert(qs[i] == ps[i]);
        }
    }
}

/// An A-piece joins the first block when put before an accepted word, and
/// the last block when put after it: both words are accepted too.
pub proof fn lemma_a_piece_at_either_end(w: Seq<u8>, p: Seq<u8>)
    requires
        dfa_accepts_word(w),
        a_piece(p),
    ensures
        dfa_accepts_word(p + w),
        dfa_accepts_word(w + p),
{
    lemma_accepted_words_are_the_language(w);
    lemma_accepted_words_are_the_language(p + w);
    lemma_accepted_words_are_the_language(w + p);
    let (i, j) = choose|i: int, j: int|
        0 <= i <= j <= w.len() && #[trigger] star(a_pieces(), w.take(i)) && star(
            b_pieces(),
            w.subrange(i, j),
        ) && #[trigger] star(a_pieces(), w.skip(j));
    assert(a_pieces()(p));
    let pw = p + w;
    let n = p.len() as int;
    lemma_star_prepend(a_pieces(), p, w.take(i));
    assert(pw.take(i + n) =~= p + w.take(i));
    assert(pw.subrange(i + n, j + n) =~= w.subrange(i, j));
    assert(pw.skip(j + n) =~= w.skip(j));
    assert(star(a_pieces(), pw.take(i + n)));
    let wp = w + p;
    lemma_star_append(a_pieces(), w.skip(j), p);
    assert(wp.take(i) =~= w.take(i));
    assert(wp.subrange(i, j) =~= w.subrange(i, j));
    assert(wp.skip(j) =~= w.skip(j) + p);
    assert(star(a_pieces(), wp.take(i)));
}

/// A nonempty word made of pieces begins with a piece followed by a word
/// made of pieces.
pub proof fn lemma_star_first_piece(piece: spec_fn(Seq<u8>) -> bool, u: Seq<u8>)
    requires
        nonempty_pieces(piece),
        star(piece, u),
        u.len() > 0,
    ensures
        exists|k: int| 0 < k <= u.len() && #[trigger] piece(u.take(k)) && star(piece, u.skip(k)),
{
    let ps = choose|ps: Seq<Seq<u8>>|
        #[trigger] concat(ps) == u && forall|i: int| 0 <= i < ps.len() ==> piece(#[trigger] ps[i]);
    if ps.len() == 0 {
        assert(concat(ps) =~= Seq::<u8>::empty());
    }
    let p = ps[0];
    let qs = ps.subrange(1, ps.len() as int);
    assert(ps =~= seq![p] + qs);
    lemma_concat_prepend(p, qs);
    assert(piece(p));
    let k = p.len() as int;
    assert(u.take(k) =~= p);
    assert(u.skip(k) =~= concat(qs));
    assert forall|i: int| 0 <= i < qs.len() implies piece(#[trigger] qs[i]) by {
        assert(qs[i] == ps[i + 1]);
    }
    assert(star(piece, u.skip(k)));
}

/// Putting `cc` in front of a word does not change whether it is accepted:
/// the only piece of either kind that begins with `c` is `cc`.
pub proof fn lemma_cc_in_front(w: Seq<u8>)
    ensures
        dfa_accepts_word(seq![LETTER_C, LETTER_C] + w) == dfa_accepts_word(w),
        nfa_accepts_word(seq![LETTER_C, LETTER_C] + w) == nfa_accepts_word(w),
{
    let cc = seq![LETTER_C, LETTER_C];
    let u = cc + w;
    lemma_accepted_words_are_the_language(w);
    lemma_accepted_words_are_the_language(u);
    lemma_pieces_are_nonempty();
    if dfa_accepts_word(w) {
        assert(a_piece(cc));
        lemma_a_piece_at_either_end(w, cc);
    }
    if in_language(u) {
        let (i, j) = choose|i: int, j: int|
            0 <= i <= j <= u.len() && #[trigger] star(a_pieces(), u.take(i)) && star(
                b_pieces(),
                u.subrange(i, j),
            ) && #[trigger] star(a_pieces(), u.skip(j));
        assert(u[0] == LETTER_C);
        if i > 0 {
            let x = u.take(i);
            lemma_star_first_piece(a_pieces(), x);
            let k = choose|k: int| 0 < k <= x.len() && #[trigger] a_pieces()(x.take(k)) && star(a_pieces(), x.skip(k));
            assert(x.take(k)[0] == LETTER_C);
            assert(k == 2);
            assert(x.skip(2) =~= w.take(i - 2));
            assert(u.subrange(i, j) =~= w.subrange(i - 2, j - 2));
            assert(u.skip(j) =~= w.skip(j - 2));
            assert(star(a_pieces(), w.take(i - 2)));
            assert(star(a_pieces(), w.skip(j - 2)));
        } else if j > 0 {
            let y = u.subrange(i, j);
            lemma_star_first_piece(b_pieces(), y);
            let k = choose|k: int| 0 < k <= y.len() && #[trigger] b_pieces()(y.take(k)) && star(b_pieces(), y.skip(k));
            assert(y.take(k)[0] == LETTER_C);
        } else {
            assert(u.skip(0) =~= u);
            lemma_star_first_piece(a_pieces(), u);
            let k = choose|k: int| 0 < k <= u.len() && #[trigger] a_pieces()(u.take(k)) && star(a_pieces(), u.skip(k));
            assert(u.take(k)[0] == LETTER_C);
            assert(k == 2);
            assert(u.skip(2) =~= w);
            lemma_star_last_piece(a_pieces(), Seq::<u8>::empty());
            lemma_star_last_piece(b_pieces(), Seq::<u8>::empty());
            assert(w.take(0) =~= Seq::<u8>::empty());
            assert(w.subrange(0, 0) =~= Seq::<u8>::empty());
            assert(w.skip(0) =~= w);
            assert(star(a_pieces(), w.take(0)));
            assert(star(a_pieces(), w.skip(0)));
        }
    }
}

} // verus!

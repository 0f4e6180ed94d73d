//! Sequences: the first item that meets a condition, and pieces of them.

use vstd::prelude::*;

verus! {

/// `i` is the place of the first item of `s` that meets `p`.
pub open spec fn is_first<V>(s: Seq<V>, p: spec_fn(V) -> bool, i: int) -> bool {
    &&& 0 <= i < s.len()
    &&& p(s[i])
    &&& forall|j: int| 0 <= j < i ==> !p(#[trigger] s[j])
}

/// The place of the first item of `s` that meets `p`, if any does.
pub open spec fn first_where<V>(s: Seq<V>, p: spec_fn(V) -> bool) -> Option<int> {
    if exists|i: int| is_first(s, p, i) {
        Some(choose|i: int| is_first(s, p, i))
    } else {
        None
    }
}

pub proof fn lemma_first_where_found<V>(s: Seq<V>, p: spec_fn(V) -> bool, i: int)
    requires
        is_first(s, p, i),
    ensures
        first_where(s, p) == Some(i),
{
    let c = choose|c: int| is_first(s, p, c);
    assert(is_first(s, p, c));
    if c < i {
        assert(!p(s[c]));
    } else if i < c {
        assert(!p(s[i]));
    }
}

pub proof fn lemma_first_where_none<V>(s: Seq<V>, p: spec_fn(V) -> bool)
    requires
        forall|j: int| 0 <= j < s.len() ==> !p(#[trigger] s[j]),
    ensures
        first_where(s, p) is None,
{
    if exists|i: int| is_first(s, p, i) {
        let c = choose|c: int| is_first(s, p, c);
        assert(is_first(s, p, c));
        assert(!p(s[c]));
    }
}

/// What [`first_where`] says of the sequence.
pub proof fn lemma_first_where<V>(s: Seq<V>, p: spec_fn(V) -> bool)
    ensures
        match first_where(s, p) {
            Some(i) => is_first(s, p, i),
            None => forall|j: int| 0 <= j < s.len() ==> !p(#[trigger] s[j]),
        },
{
    if first_where(s, p) is None {
        assert forall|j: int| 0 <= j < s.len() implies !p(#[trigger] s[j]) by {
            lemma_no_first_below(s, p, j + 1);
        }
    }
}

proof fn lemma_no_first_below<V>(s: Seq<V>, p: spec_fn(V) -> bool, n: int)
    requires
        first_where(s, p) is None,
        0 <= n <= s.len(),
    ensures
        forall|j: int| 0 <= j < n ==> !p(#[trigger] s[j]),
    decreases n,
{
    if n > 0 {
        lemma_no_first_below(s, p, n - 1);
        if p(s[n - 1]) {
            assert(is_first(s, p, n - 1));
        }
    }
}

/// What a filter leaves comes from the sequence and meets the condition, and it
/// leaves all that does.
pub proof fn lemma_filtered<V>(s: Seq<V>, p: spec_fn(V) -> bool)
    ensures
        forall|i: int|
            0 <= i < s.filter(p).len() ==> p(#[trigger] s.filter(p)[i]) && s.contains(
                s.filter(p)[i],
            ),
        forall|i: int| 0 <= i < s.len() && p(#[trigger] s[i]) ==> s.filter(p).contains(s[i]),
    decreases s.len(),
{
    reveal(Seq::filter);
    let out = s.filter(p);
    if s.len() > 0 {
        let front = s.drop_last();
        let had = front.filter(p);
        lemma_filtered(front, p);
        assert forall|i: int| 0 <= i < out.len() implies p(#[trigger] out[i]) && s.contains(
            out[i],
        ) by {
            if i < had.len() {
                assert(out[i] == had[i]);
                let k = front.index_of(had[i]);
                assert(s[k] == out[i]);
            } else {
                assert(s[s.len() - 1] == out[i]);
            }
        }
        assert forall|i: int| 0 <= i < s.len() && p(#[trigger] s[i]) implies out.contains(
            s[i],
        ) by {
            if i < front.len() {
                assert(front[i] == s[i]);
                let k = had.index_of(front[i]);
                assert(out[k] == s[i]);
            } else {
                assert(out[out.len() - 1] == s[i]);
            }
        }
    }
}

/// Appending can be done piece by piece.
pub proof fn lemma_append<V>(a: Seq<V>, b: Seq<V>, c: Seq<V>)
    ensures
        a + (b + c) == (a + b) + c,
{
    assert(a + (b + c) =~= (a + b) + c);
}

pub proof fn lemma_append_3<V>(s: Seq<V>, a: Seq<V>, b: Seq<V>, c: Seq<V>)
    ensures
        s + (a + b + c) == s + a + b + c,
{
    lemma_append(s, a + b, c);
    lemma_append(s, a, b);
}

pub proof fn lemma_append_5<V>(
    s: Seq<V>,
    a: Seq<V>,
    b: Seq<V>,
    c: Seq<V>,
    d: Seq<V>,
    e: Seq<V>,
)
    ensures
        s + (a + b + c + d + e) == s + a + b + c + d + e,
{
    lemma_append(s, a + b + c + d, e);
    lemma_append(s, a + b + c, d);
    lemma_append_3(s, a, b, c);
}

/// `piece` stands somewhere in `s`.
pub open spec fn has_piece<V>(s: Seq<V>, piece: Seq<V>) -> bool {
    exists|a: Seq<V>, b: Seq<V>| s == #[trigger] (a + piece + b)
}

/// What ends with a piece has it.
pub proof fn lemma_piece_at_end<V>(a: Seq<V>, piece: Seq<V>)
    ensures
        has_piece(a + piece, piece),
{
    assert(a + piece =~= a + piece + Seq::<V>::empty());
}

/// A piece stays where more is appended.
pub proof fn lemma_piece_stays<V>(s: Seq<V>, piece: Seq<V>, more: Seq<V>)
    requires
        has_piece(s, piece),
    ensures
        has_piece(s + more, piece),
{
    let (a, b) = choose|a: Seq<V>, b: Seq<V>| s == #[trigger] (a + piece + b);
    assert(s + more =~= a + piece + (b + more));
}

/// A piece of a piece is a piece.
pub proof fn lemma_piece_of_piece<V>(s: Seq<V>, outer: Seq<V>, piece: Seq<V>)
    requires
        has_piece(s, outer),
        has_piece(outer, piece),
    ensures
        has_piece(s, piece),
{
    let (a, b) = choose|a: Seq<V>, b: Seq<V>| s == #[trigger] (a + outer + b);
    let (c, d) = choose|c: Seq<V>, d: Seq<V>| outer == #[trigger] (c + piece + d);
    assert(s =~= (a + c) + piece + (d + b));
}

} // verus!

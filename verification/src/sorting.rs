//! Stable sorting.
//!
//! Clips on a track, keyframes of a channel and segments of a render plan are
//! kept in order, and ties keep the order they came in. [`stably_sorted`] says
//! exactly that, and determines the result (see
//! [`lemma_stably_sorted_is_unique`]).

use vstd::prelude::*;

verus! {

/// What items are sorted by: first `major`, then `minor`.
pub struct Rank {
    pub major: int,
    pub minor: int,
}

/// Whether an item of rank `a` belongs strictly before one of rank `b`.
pub open spec fn before(a: Rank, b: Rank) -> bool {
    a.major < b.major || (a.major == b.major && a.minor < b.minor)
}

/// Whether an item has rank `k`.
pub open spec fn has_rank<V>(rank: spec_fn(V) -> Rank, k: Rank) -> spec_fn(V) -> bool {
    |v: V| rank(v) == k
}

/// The items of rank `k`, in the order in which they stand in `s`.
pub open spec fn of_rank<V>(s: Seq<V>, rank: spec_fn(V) -> Rank, k: Rank) -> Seq<V> {
    s.filter(has_rank(rank, k))
}

/// No item of `s` stands after one that belongs behind it.
pub open spec fn in_order<V>(s: Seq<V>, rank: spec_fn(V) -> Rank) -> bool {
    forall|i: int, j: int|
        #![trigger s[i], s[j]]
        0 <= i <= j < s.len() ==> !before(rank(s[j]), rank(s[i]))
}

/// `out` holds the items of `input` in order of rank, and items of one rank in
/// the order in which `input` has them.
pub open spec fn stably_sorted<V>(
    out: Seq<V>,
    input: Seq<V>,
    rank: spec_fn(V) -> Rank,
) -> bool {
    &&& in_order(out, rank)
    &&& forall|k: Rank| #[trigger] of_rank(out, rank, k) == of_rank(input, rank, k)
}

/// An item that can be put in order.
pub trait Ranked: Sized {
    spec fn rank(&self) -> Rank;

    /// Whether `self` belongs strictly behind `other`.
    fn goes_after(&self, other: &Self) -> (r: bool)
        ensures
            r == before(other.rank(), self.rank()),
    ;
}

pub open spec fn rank_of<T: Ranked>() -> spec_fn(T) -> Rank {
    |t: T| t.rank()
}

/// Moving the item at `i` left to `j`, past items that all belong behind it,
/// leaves the items of every single rank in their order.
proof fn lemma_move_left_keeps_ranks<V>(
    s: Seq<V>,
    j: int,
    i: int,
    rank: spec_fn(V) -> Rank,
    k: Rank,
)
    requires
        0 <= j <= i < s.len(),
        forall|m: int| j <= m < i ==> before(rank(s[i]), rank(#[trigger] s[m])),
    ensures
        of_rank(s.remove(i).insert(j, s[i]), rank, k) == of_rank(s, rank, k),
{
    let p = has_rank(rank, k);
    let head = s.subrange(0, j);
    let mid = s.subrange(j, i);
    let one = seq![s[i]];
    let tail = s.subrange(i + 1, s.len() as int);
    assert(s =~= (head + mid) + (one + tail));
    assert(s.remove(i).insert(j, s[i]) =~= (head + one) + (mid + tail));
    Seq::filter_distributes_over_add(head + mid, one + tail, p);
    Seq::filter_distributes_over_add(head, mid, p);
    Seq::filter_distributes_over_add(one, tail, p);
    Seq::filter_distributes_over_add(head + one, mid + tail, p);
    Seq::filter_distributes_over_add(head, one, p);
    Seq::filter_distributes_over_add(mid, tail, p);
    let (h, m, o, t) = (head.filter(p), mid.filter(p), one.filter(p), tail.filter(p));
    if rank(s[i]) == k {
        assert forall|x: int| 0 <= x < mid.len() implies !p(#[trigger] mid[x]) by {
            assert(mid[x] == s[j + x]);
        }
        mid.lemma_all_neg_filter_empty(p);
        assert(m =~= Seq::empty());
        assert((h + m) + (o + t) =~= (h + o) + (m + t));
    } else {
        assert forall|x: int| 0 <= x < one.len() implies !p(#[trigger] one[x]) by {}
        one.lemma_all_neg_filter_empty(p);
        assert(o =~= Seq::empty());
        assert((h + m) + (o + t) =~= (h + o) + (m + t));
    }
}

/// Sort by rank, keeping items of one rank in the order in which they stand.
pub fn sort_stable<T: Ranked>(v: &mut Vec<T>)
    ensures
        stably_sorted(final(v)@, old(v)@, rank_of::<T>()),
        final(v)@.len() == old(v)@.len(),
        final(v)@.to_multiset() == old(v)@.to_multiset(),
{
    let ghost rank = rank_of::<T>();
    let ghost input = v@;
    let mut i: usize = 0;
    while i < v.len()
        invariant
            0 <= i <= v.len(),
            v@.len() == input.len(),
            rank == rank_of::<T>(),
            in_order(v@.take(i as int), rank),
            v@.to_multiset() == input.to_multiset(),
            forall|k: Rank| #[trigger] of_rank(v@, rank, k) == of_rank(input, rank, k),
        decreases v.len() - i,
    {
        let mut j: usize = i;
        while j > 0 && v[j - 1].goes_after(&v[i])
            invariant
                0 <= j <= i < v.len(),
                rank == rank_of::<T>(),
                forall|m: int| j <= m < i ==> before(rank(v@[i as int]), rank(#[trigger] v@[m])),
            decreases j,
        {
            j = j - 1;
        }
        let ghost s = v@;
        proof {
            assert forall|m: int| 0 <= m < j implies !before(
                rank(s[i as int]),
                rank(#[trigger] s[m]),
            ) by {
                let t = s.take(i as int);
                assert(t[m] == s[m] && t[j - 1] == s[j - 1]);
            }
            assert forall|k: Rank| #[trigger]
                of_rank(s.remove(i as int).insert(j as int, s[i as int]), rank, k) == of_rank(
                input,
                rank,
                k,
            ) by {
                lemma_move_left_keeps_ranks(s, j as int, i as int, rank, k);
                assert(of_rank(s, rank, k) == of_rank(input, rank, k));
            }
        }
        let item = v.remove(i);
        v.insert(j, item);
        proof {
            let n = v@;
            assert(n == s.remove(i as int).insert(j as int, s[i as int]));
            assert(n.to_multiset() == input.to_multiset()) by {
                broadcast use vstd::seq_lib::group_to_multiset_ensures;

                vstd::seq_lib::to_multiset_remove(s, i as int);
                vstd::seq_lib::to_multiset_insert(s.remove(i as int), j as int, s[i as int]);
                assert(s.contains(s[i as int]));
                assert(s.to_multiset().count(s[i as int]) > 0);
                assert(s.to_multiset().remove(s[i as int]).insert(s[i as int])
                    =~= s.to_multiset());
            }
            let t = n.take(i + 1);
            let old_t = s.take(i as int);
            assert forall|a: int, b: int| 0 <= a <= b < t.len() implies !before(
                rank(#[trigger] t[b]),
                rank(#[trigger] t[a]),
            ) by {
                let sa = if a < j {
                    a
                } else if a == j {
                    i as int
                } else {
                    a - 1
                };
                let sb = if b < j {
                    b
                } else if b == j {
                    i as int
                } else {
                    b - 1
                };
                assert(t[a] == s[sa] && t[b] == s[sb]);
                if a != j && b != j {
                    assert(old_t[sa] == s[sa] && old_t[sb] == s[sb]);
                }
            }
        }
        i = i + 1;
    }
    assert(v@.take(i as int) =~= v@);
}

/// The order is determined: a sequence has only one stably sorted arrangement.
pub proof fn lemma_stably_sorted_is_unique<V>(
    a: Seq<V>,
    b: Seq<V>,
    input: Seq<V>,
    rank: spec_fn(V) -> Rank,
)
    requires
        stably_sorted(a, input, rank),
        stably_sorted(b, input, rank),
    ensures
        a == b,
{
    assert forall|k: Rank| #[trigger] of_rank(a, rank, k) == of_rank(b, rank, k) by {
        assert(of_rank(b, rank, k) == of_rank(input, rank, k));
    }
    lemma_same_ranks_same_order(a, b, rank);
}

proof fn lemma_rank_present<V>(s: Seq<V>, rank: spec_fn(V) -> Rank)
    requires
        s.len() > 0,
    ensures
        of_rank(s, rank, rank(s.last())).len() > 0,
        of_rank(s, rank, rank(s.last())).last() == s.last(),
{
    reveal(Seq::filter);
}

proof fn lemma_same_ranks_same_order<V>(a: Seq<V>, b: Seq<V>, rank: spec_fn(V) -> Rank)
    requires
        in_order(a, rank),
        in_order(b, rank),
        forall|k: Rank| #[trigger] of_rank(a, rank, k) == of_rank(b, rank, k),
    ensures
        a == b,
    decreases a.len(),
{
    reveal(Seq::filter);
    if a.len() == 0 {
        if b.len() > 0 {
            lemma_rank_present(b, rank);
            assert(of_rank(a, rank, rank(b.last())) =~= Seq::empty());
        }
        assert(a =~= b);
    } else {
        let ka = rank(a.last());
        lemma_rank_present(a, rank);
        assert(of_rank(a, rank, ka) == of_rank(b, rank, ka));
        assert(b.len() > 0);
        lemma_rank_present(b, rank);
        let kb = rank(b.last());
        assert(of_rank(a, rank, kb) == of_rank(b, rank, kb));
        // Each of the two has an item of the other's last rank, and both are in
        // order, so the two last ranks agree.
        let pa = has_rank(rank, ka);
        let pb = has_rank(rank, kb);
        assert(of_rank(b, rank, ka).contains(of_rank(b, rank, ka).last()));
        assert(of_rank(a, rank, kb).contains(of_rank(a, rank, kb).last()));
        b.lemma_filter_contains_rev(pa, of_rank(b, rank, ka).last());
        a.lemma_filter_contains_rev(pb, of_rank(a, rank, kb).last());
        b.lemma_filter_pred(pa, of_rank(b, rank, ka).len() - 1);
        a.lemma_filter_pred(pb, of_rank(a, rank, kb).len() - 1);
        let ib = choose|i: int| 0 <= i < b.len() && b[i] == of_rank(b, rank, ka).last();
        let ia = choose|i: int| 0 <= i < a.len() && a[i] == of_rank(a, rank, kb).last();
        assert(!before(rank(b[b.len() - 1]), rank(b[ib])));
        assert(!before(rank(a[a.len() - 1]), rank(a[ia])));
        assert(ka == kb);
        assert(a.last() == b.last());
        let (da, db) = (a.drop_last(), b.drop_last());
        assert forall|k: Rank| #[trigger] of_rank(da, rank, k) == of_rank(db, rank, k) by {
            assert(of_rank(a, rank, k) == of_rank(b, rank, k));
            if k == ka {
                assert(of_rank(a, rank, k).drop_last() =~= of_rank(da, rank, k));
                assert(of_rank(b, rank, k).drop_last() =~= of_rank(db, rank, k));
            }
        }
        lemma_same_ranks_same_order(da, db, rank);
        assert(a =~= da.push(a.last()));
        assert(b =~= db.push(b.last()));
    }
}

/// How often an item stands among those of its own rank is how often it stands
/// in the whole sequence.
proof fn lemma_count_within_rank<V>(s: Seq<V>, rank: spec_fn(V) -> Rank, v: V)
    ensures
        of_rank(s, rank, rank(v)).to_multiset().count(v) == s.to_multiset().count(v),
    decreases s.len(),
{
    broadcast use vstd::seq_lib::group_to_multiset_ensures;

    reveal(Seq::filter);
    if s.len() == 0 {
        assert(of_rank(s, rank, rank(v)) =~= s);
    } else {
        let head = s.drop_last();
        lemma_count_within_rank(head, rank, v);
        assert(s =~= head.push(s.last()));
        vstd::seq_lib::to_multiset_build(head, s.last());
        if rank(s.last()) == rank(v) {
            vstd::seq_lib::to_multiset_build(of_rank(head, rank, rank(v)), s.last());
        }
    }
}

/// Sorting neither loses nor adds items.
pub proof fn lemma_stably_sorted_is_permutation<V>(
    out: Seq<V>,
    input: Seq<V>,
    rank: spec_fn(V) -> Rank,
)
    requires
        stably_sorted(out, input, rank),
    ensures
        out.to_multiset() == input.to_multiset(),
        out.len() == input.len(),
{
    assert forall|v: V| #[trigger] out.to_multiset().count(v) == input.to_multiset().count(v) by {
        lemma_count_within_rank(out, rank, v);
        lemma_count_within_rank(input, rank, v);
        assert(of_rank(out, rank, rank(v)) == of_rank(input, rank, rank(v)));
    }
    assert(out.to_multiset() =~= input.to_multiset());
    broadcast use vstd::seq_lib::group_to_multiset_ensures;

    vstd::seq_lib::to_multiset_len(out);
    vstd::seq_lib::to_multiset_len(input);
}

/// Two places of a sequence have their like at two places of any arrangement
/// of it.
pub proof fn lemma_two_places<V>(a: Seq<V>, b: Seq<V>, i: int, j: int) -> (r: (int, int))
    requires
        a.to_multiset() == b.to_multiset(),
        0 <= i < a.len(),
        0 <= j < a.len(),
        i != j,
    ensures
        0 <= r.0 < b.len(),
        0 <= r.1 < b.len(),
        r.0 != r.1,
        b[r.0] == a[i],
        b[r.1] == a[j],
{
    broadcast use vstd::seq_lib::group_to_multiset_ensures;

    vstd::seq_lib::to_multiset_contains(a, a[i]);
    vstd::seq_lib::to_multiset_contains(b, a[i]);
    assert(a.contains(a[i]));
    let x = choose|x: int| 0 <= x < b.len() && b[x] == a[i];
    let ra = a.remove(i);
    let rb = b.remove(x);
    vstd::seq_lib::to_multiset_remove(a, i);
    vstd::seq_lib::to_multiset_remove(b, x);
    let k = if j < i {
        j
    } else {
        j - 1
    };
    assert(ra[k] == a[j]);
    assert(ra.contains(a[j]));
    vstd::seq_lib::to_multiset_contains(ra, a[j]);
    vstd::seq_lib::to_multiset_contains(rb, a[j]);
    assert(rb.contains(a[j]));
    let y = choose|y: int| 0 <= y < rb.len() && rb[y] == a[j];
    if y < x {
        assert(b[y] == rb[y]);
        (x, y)
    } else {
        assert(b[y + 1] == rb[y]);
        (x, y + 1)
    }
}

/// Sorting commutes with looking at the items through a function that keeps
/// their ranks.
pub proof fn lemma_stably_sorted_map<V, W>(
    out: Seq<V>,
    input: Seq<V>,
    rank: spec_fn(V) -> Rank,
    f: spec_fn(V) -> W,
    rank_w: spec_fn(W) -> Rank,
)
    requires
        stably_sorted(out, input, rank),
        forall|v: V| rank_w(#[trigger] f(v)) == rank(v),
    ensures
        stably_sorted(out.map_values(f), input.map_values(f), rank_w),
{
    assert forall|k: Rank| #[trigger]
        of_rank(out.map_values(f), rank_w, k) == of_rank(input.map_values(f), rank_w, k) by {
        lemma_of_rank_map(out, rank, f, rank_w, k);
        lemma_of_rank_map(input, rank, f, rank_w, k);
        assert(of_rank(out, rank, k) == of_rank(input, rank, k));
    }
    let m = out.map_values(f);
    assert forall|i: int, j: int| 0 <= i <= j < m.len() implies !before(
        rank_w(#[trigger] m[j]),
        rank_w(#[trigger] m[i]),
    ) by {
        assert(m[i] == f(out[i]) && m[j] == f(out[j]));
    }
}

proof fn lemma_of_rank_map<V, W>(
    s: Seq<V>,
    rank: spec_fn(V) -> Rank,
    f: spec_fn(V) -> W,
    rank_w: spec_fn(W) -> Rank,
    k: Rank,
)
    requires
        forall|v: V| rank_w(#[trigger] f(v)) == rank(v),
    ensures
        of_rank(s.map_values(f), rank_w, k) == of_rank(s, rank, k).map_values(f),
    decreases s.len(),
{
    reveal(Seq::filter);
    if s.len() == 0 {
        assert(of_rank(s.map_values(f), rank_w, k) =~= of_rank(s, rank, k).map_values(f));
    } else {
        lemma_of_rank_map(s.drop_last(), rank, f, rank_w, k);
        assert(s.map_values(f).drop_last() =~= s.drop_last().map_values(f));
        assert(s.map_values(f).last() == f(s.last()));
        assert(of_rank(s.map_values(f), rank_w, k) =~= of_rank(s, rank, k).map_values(f));
    }
}

} // verus!

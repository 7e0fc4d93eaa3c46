//! Orders of surfaces and shuffled tables: sequences of indices, and what
//! stays the same when two of their entries change places.

use vstd::prelude::*;

verus! {

/// The surfaces listed in `order` from `start` up to `end`.
pub open spec fn span_set(order: Seq<usize>, start: int, end: int) -> Set<usize> {
    Set::new(|v: usize| exists|j: int| start <= j < end && order[j] == v)
}

/// The numbers from zero up to `n`, in order.
pub open spec fn counting(n: nat) -> Seq<usize> {
    Seq::new(n, |i: int| i as usize)
}

/// Whether `p` holds the numbers below its length, each once, in some order.
pub open spec fn is_shuffle(p: Seq<usize>) -> bool {
    p.to_multiset() == counting(p.len()).to_multiset()
}

/// A shuffle holds only numbers below its length.
pub proof fn lemma_shuffle_bounds(p: Seq<usize>)
    requires
        is_shuffle(p),
        p.len() <= usize::MAX,
    ensures
        forall|i: int| 0 <= i < p.len() ==> (#[trigger] p[i]) < p.len(),
{
    let c = counting(p.len());
    assert forall|i: int| 0 <= i < p.len() implies (#[trigger] p[i]) < p.len() by {
        p.to_multiset_ensures();
        c.to_multiset_ensures();
        assert(p.contains(p[i]));
        assert(p.to_multiset().count(p[i]) > 0);
        assert(c.to_multiset().count(p[i]) > 0);
        assert(c.contains(p[i]));
        let k = choose|k: int| 0 <= k < c.len() && c[k] == p[i];
        assert(c[k] == k);
    }
}

/// `order` with the entries at `a` and `b` exchanged.
pub open spec fn exchanged(order: Seq<usize>, a: int, b: int) -> Seq<usize> {
    order.update(a, order[b]).update(b, order[a])
}

/// Exchanging two entries of a span keeps what the span lists, and keeps the
/// whole as a collection.
pub proof fn lemma_exchange_keeps(order: Seq<usize>, start: int, end: int, a: int, b: int)
    requires
        0 <= start <= a < end <= order.len(),
        start <= b < end,
    ensures
        span_set(exchanged(order, a, b), start, end) == span_set(order, start, end),
        exchanged(order, a, b).to_multiset() == order.to_multiset(),
{
    let after = exchanged(order, a, b);
    assert forall|v: usize| span_set(after, start, end).contains(v) == span_set(
        order,
        start,
        end,
    ).contains(v) by {
        if span_set(after, start, end).contains(v) {
            let j = choose|j: int| start <= j < end && after[j] == v;
            let k = if j == a {
                b
            } else if j == b {
                a
            } else {
                j
            };
            assert(start <= k < end && order[k] == v);
        }
        if span_set(order, start, end).contains(v) {
            let j = choose|j: int| start <= j < end && order[j] == v;
            let k = if j == a {
                b
            } else if j == b {
                a
            } else {
                j
            };
            assert(start <= k < end && after[k] == v);
        }
    }
    assert(span_set(after, start, end) =~= span_set(order, start, end));
    broadcast use vstd::seq_lib::to_multiset_update;
    broadcast use vstd::multiset::group_multiset_axioms;
    let mid = order.update(a, order[b]);
    order.to_multiset_ensures();
    mid.to_multiset_ensures();
    assert(order.to_multiset().count(order[a]) > 0);
    assert(mid.to_multiset().count(mid[b]) > 0);
    assert(mid[b] == order[b]);
    assert(mid.to_multiset() =~= order.to_multiset().insert(order[b]).remove(order[a]));
    assert(after.to_multiset() =~= mid.to_multiset().insert(order[a]).remove(order[b]));
    assert(after.to_multiset() =~= order.to_multiset());
}

/// Whether `draws` may be the draws of a shuffle of `n` entries.  A shuffle
/// goes through the places from the last down to the second and draws for
/// each a place at or before it: the first draw is at most `n - 1`, the
/// next at most `n - 2`, and the last, for the second place, at most 1.
/// There is no draw where there are fewer than two entries.
pub open spec fn draws_fit(draws: Seq<usize>, n: int) -> bool {
    &&& draws.len() == if n < 2 {
        0
    } else {
        n - 1
    }
    &&& forall|k: int| 0 <= k < draws.len() ==> #[trigger] draws[k] <= n - 1 - k
}

/// What a shuffle of the first `n` entries of `p` has made of `p` after its
/// first `k` steps: step `k` exchanges the entry at place `n - k` with the
/// one at the place drawn for it, `draws[k - 1]`.
pub open spec fn shuffled(p: Seq<usize>, n: int, draws: Seq<usize>, k: int) -> Seq<usize>
    decreases k,
{
    if k <= 0 {
        p
    } else {
        exchanged(shuffled(p, n, draws, k - 1), n - k, draws[k - 1] as int)
    }
}

/// A shuffle keeps the length, touches nothing beyond its `n` entries, and
/// keeps the whole as a collection.
pub proof fn lemma_shuffled_keeps(p: Seq<usize>, n: int, draws: Seq<usize>, k: int)
    requires
        0 <= n <= p.len(),
        draws_fit(draws, n),
        0 <= k <= draws.len(),
    ensures
        shuffled(p, n, draws, k).len() == p.len(),
        shuffled(p, n, draws, k).to_multiset() == p.to_multiset(),
        forall|j: int| n <= j < p.len() ==> shuffled(p, n, draws, k)[j] == p[j],
    decreases k,
{
    if k > 0 {
        lemma_shuffled_keeps(p, n, draws, k - 1);
        let before = shuffled(p, n, draws, k - 1);
        assert(draws[k - 1] <= n - 1 - (k - 1));
        lemma_exchange_keeps(before, 0, n, n - k, draws[k - 1] as int);
    }
}

/// Exchanges the entries at `a` and `b`.
pub fn exchange(order: &mut Vec<usize>, a: usize, b: usize)
    requires
        a < old(order).len(),
        b < old(order).len(),
    ensures
        final(order)@ == exchanged(old(order)@, a as int, b as int),
{
    let x = order[a];
    let y = order[b];
    order.set(a, y);
    order.set(b, x);
}

} // verus!

//! Stable sorting.

use crate::order::{is_order, Order};
use vstd::prelude::*;

verus! {

/// A value that is ordered by its view.
pub trait Sortable: View + Sized {
    spec fn relation() -> spec_fn(Self::V, Self::V) -> Order;

    fn compare(&self, other: &Self) -> (r: Order)
        ensures
            r == Self::relation()(self@, other@),
    ;
}

pub open spec fn views_of<T: View>(items: Seq<T>) -> Seq<T::V> {
    Seq::new(items.len(), |i: int| items[i]@)
}

/// The position behind the last element that does not come after `x`.
pub open spec fn slot_for<V>(sorted: Seq<V>, x: V, rel: spec_fn(V, V) -> Order) -> int
    decreases sorted.len(),
{
    if sorted.len() == 0 || rel(sorted.last(), x) != Order::Greater {
        sorted.len() as int
    } else {
        slot_for(sorted.drop_last(), x, rel)
    }
}

/// A sorted list with one more element, behind those that are equal to it.
pub open spec fn with_inserted<V>(sorted: Seq<V>, x: V, rel: spec_fn(V, V) -> Order) -> Seq<V> {
    let at = slot_for(sorted, x, rel);
    sorted.take(at).push(x) + sorted.skip(at)
}

/// The elements in order; elements that compare equal stay in the order in which they came.
pub open spec fn stable_sorted<V>(items: Seq<V>, rel: spec_fn(V, V) -> Order) -> Seq<V>
    decreases items.len(),
{
    if items.len() == 0 {
        items
    } else {
        with_inserted(stable_sorted(items.drop_last(), rel), items.last(), rel)
    }
}

pub open spec fn is_sorted<V>(items: Seq<V>, rel: spec_fn(V, V) -> Order) -> bool {
    forall|i: int, j: int|
        0 <= i < j < items.len() ==> rel(#[trigger] items[i], #[trigger] items[j]) != Order::Greater
}

proof fn lemma_slot<V>(sorted: Seq<V>, x: V, rel: spec_fn(V, V) -> Order)
    ensures
        0 <= slot_for(sorted, x, rel) <= sorted.len(),
        slot_for(sorted, x, rel) > 0 ==> rel(sorted[slot_for(sorted, x, rel) - 1], x)
            != Order::Greater,
        forall|i: int|
            slot_for(sorted, x, rel) <= i < sorted.len() ==> rel(#[trigger] sorted[i], x)
                == Order::Greater,
    decreases sorted.len(),
{
    if sorted.len() > 0 && rel(sorted.last(), x) == Order::Greater {
        lemma_slot(sorted.drop_last(), x, rel);
        let at = slot_for(sorted, x, rel);
        assert forall|i: int| at <= i < sorted.len() implies rel(#[trigger] sorted[i], x)
            == Order::Greater by {
            if i < sorted.len() - 1 {
                assert(sorted.drop_last()[i] == sorted[i]);
            }
        }
    }
}

proof fn lemma_inserted_sorted<V>(sorted: Seq<V>, x: V, rel: spec_fn(V, V) -> Order)
    requires
        is_order(rel),
        is_sorted(sorted, rel),
    ensures
        is_sorted(with_inserted(sorted, x, rel), rel),
        with_inserted(sorted, x, rel).to_multiset() == sorted.to_multiset().insert(x),
{
    lemma_slot(sorted, x, rel);
    let at = slot_for(sorted, x, rel);
    let out = with_inserted(sorted, x, rel);
    assert forall|i: int, j: int| 0 <= i < j < out.len() implies rel(
        #[trigger] out[i],
        #[trigger] out[j],
    ) != Order::Greater by {
        let a = if i < at { i } else { i - 1 };
        let b = if j < at { j } else { j - 1 };
        if i == at {
            assert(out[j] == sorted[b]);
            assert(rel(sorted[b], x) == Order::Greater);
            assert(rel(x, sorted[b]) == crate::order::flipped(rel(sorted[b], x)));
        } else if j == at {
            assert(out[i] == sorted[a]);
            if a < at - 1 {
                assert(rel(sorted[a], sorted[at - 1]) != Order::Greater);
                assert(rel(sorted[at - 1], x) != Order::Greater);
            }
        } else {
            assert(out[i] == sorted[a] && out[j] == sorted[b]);
        }
    }
    assert(out =~= sorted.insert(at, x));
    vstd::seq_lib::to_multiset_insert(sorted, at, x);
}

/// The elements that compare equal to `x`, in their order.
pub open spec fn equal_to<V>(items: Seq<V>, x: V, rel: spec_fn(V, V) -> Order) -> Seq<V>
    decreases items.len(),
{
    if items.len() == 0 {
        items
    } else {
        let before = equal_to(items.drop_last(), x, rel);
        if rel(items.last(), x) == Order::Equal {
            before.push(items.last())
        } else {
            before
        }
    }
}

proof fn lemma_equal_to_splits<V>(a: Seq<V>, b: Seq<V>, x: V, rel: spec_fn(V, V) -> Order)
    ensures
        equal_to(a + b, x, rel) == equal_to(a, x, rel) + equal_to(b, x, rel),
    decreases b.len(),
{
    if b.len() == 0 {
        assert(a + b =~= a);
        assert(equal_to(a, x, rel) + equal_to(b, x, rel) =~= equal_to(a, x, rel));
    } else {
        lemma_equal_to_splits(a, b.drop_last(), x, rel);
        assert((a + b).drop_last() =~= a + b.drop_last());
        assert((a + b).last() == b.last());
        assert(equal_to(a + b, x, rel) =~= equal_to(a, x, rel) + equal_to(b, x, rel));
    }
}

proof fn lemma_none_equal<V>(items: Seq<V>, x: V, rel: spec_fn(V, V) -> Order)
    requires
        forall|i: int| 0 <= i < items.len() ==> rel(#[trigger] items[i], x) != Order::Equal,
    ensures
        equal_to(items, x, rel).len() == 0,
    decreases items.len(),
{
    if items.len() > 0 {
        assert forall|i: int| 0 <= i < items.drop_last().len() implies rel(
            #[trigger] items.drop_last()[i],
            x,
        ) != Order::Equal by {
            assert(items.drop_last()[i] == items[i]);
        }
        lemma_none_equal(items.drop_last(), x, rel);
    }
}

proof fn lemma_inserted_behind_equals<V>(sorted: Seq<V>, y: V, x: V, rel: spec_fn(V, V) -> Order)
    requires
        is_order(rel),
    ensures
        equal_to(with_inserted(sorted, y, rel), x, rel) == equal_to(sorted.push(y), x, rel),
{
    lemma_slot(sorted, y, rel);
    let at = slot_for(sorted, y, rel);
    let (head, tail) = (sorted.take(at), sorted.skip(at));
    lemma_equal_to_splits(head.push(y), tail, x, rel);
    lemma_equal_to_splits(head, tail, x, rel);
    assert(sorted =~= head + tail);
    assert(head.push(y).drop_last() =~= head);
    assert(sorted.push(y).drop_last() =~= sorted);
    if rel(y, x) == Order::Equal {
        assert forall|i: int| 0 <= i < tail.len() implies rel(#[trigger] tail[i], x)
            != Order::Equal by {
            assert(tail[i] == sorted[at + i]);
            assert(rel(sorted[at + i], y) == Order::Greater);
            assert(rel(x, y) == crate::order::flipped(rel(y, x)));
        }
        lemma_none_equal(tail, x, rel);
        assert(equal_to(head, x, rel).push(y) + equal_to(tail, x, rel) =~= (equal_to(head, x, rel)
            + equal_to(tail, x, rel)).push(y));
    }
}

/// Stable sorting puts the elements in order, drops none and adds none; those that compare equal
/// stay in the order in which they came.
pub proof fn law_stable_sorted<V>(items: Seq<V>, rel: spec_fn(V, V) -> Order)
    requires
        is_order(rel),
    ensures
        is_sorted(stable_sorted(items, rel), rel),
        stable_sorted(items, rel).to_multiset() == items.to_multiset(),
        forall|x: V| #[trigger]
            equal_to(stable_sorted(items, rel), x, rel) == equal_to(items, x, rel),
    decreases items.len(),
{
    if items.len() > 0 {
        assert forall|x: V| #[trigger]
            equal_to(stable_sorted(items, rel), x, rel) == equal_to(items, x, rel) by {
            let sorted = stable_sorted(items.drop_last(), rel);
            law_stable_sorted(items.drop_last(), rel);
            lemma_inserted_behind_equals(sorted, items.last(), x, rel);
            assert(sorted.push(items.last()).drop_last() =~= sorted);
            assert(equal_to(sorted, x, rel) == equal_to(items.drop_last(), x, rel));
        }
        law_stable_sorted(items.drop_last(), rel);
        lemma_inserted_sorted(stable_sorted(items.drop_last(), rel), items.last(), rel);
        assert(items =~= items.drop_last().push(items.last()));
        broadcast use vstd::seq_lib::group_to_multiset_ensures;
    }
}

/// Sorts a list stably.
pub fn sort_stable<T: Sortable>(items: Vec<T>) -> (r: Vec<T>)
    ensures
        views_of(r@) == stable_sorted(views_of(items@), T::relation()),
{
    let mut rest = items;
    let mut out: Vec<T> = Vec::new();
    let ghost all = views_of(items@);
    let ghost rel = T::relation();
    // The list is taken apart from its end, so it is reversed first.
    let mut reversed: Vec<T> = Vec::new();
    let ghost n = items@.len() as int;
    while rest.len() > 0
        invariant
            rest@ == items@.take(rest@.len() as int),
            rest@.len() + reversed@.len() == n,
            n == items@.len(),
            forall|i: int| 0 <= i < reversed@.len() ==> #[trigger] reversed@[i] == items@[n - 1 - i],
        decreases rest.len(),
    {
        if let Some(item) = rest.pop() {
            reversed.push(item);
            assert(rest@ =~= items@.take(rest@.len() as int));
        }
    }
    assert(all.take(0) =~= Seq::<T::V>::empty());
    assert(views_of(out@) =~= Seq::<T::V>::empty());
    while reversed.len() > 0
        invariant
            reversed@.len() <= n,
            n == items@.len(),
            all == views_of(items@),
            rel == T::relation(),
            forall|i: int| 0 <= i < reversed@.len() ==> #[trigger] reversed@[i] == items@[n - 1 - i],
            views_of(out@) == stable_sorted(all.take(n - reversed@.len()), rel),
        decreases reversed.len(),
    {
        let ghost done = n - reversed@.len();
        if let Some(item) = reversed.pop() {
            assert(item == items@[done]);
            let ghost sorted = views_of(out@);
            let mut at: usize = out.len();
            proof {
                assert(sorted.take(at as int) =~= sorted);
            }
            while at > 0 && out[at - 1].compare(&item) == Order::Greater
                invariant
                    at <= out@.len(),
                    sorted == views_of(out@),
                    rel == T::relation(),
                    slot_for(sorted.take(at as int), item@, rel) == slot_for(sorted, item@, rel),
                decreases at,
            {
                assert(sorted.take(at as int).last() == sorted[at - 1]);
                assert(sorted.take(at as int).drop_last() =~= sorted.take(at - 1));
                at = at - 1;
            }
            assert(slot_for(sorted, item@, rel) == at) by {
                if at > 0 {
                    assert(sorted.take(at as int).last() == out@[at - 1]@);
                }
            }
            let ghost view = item@;
            let ghost raw = out@;
            out.insert(at, item);
            proof {
                assert(views_of(out@) =~= with_inserted(sorted, view, rel));
                let head = all.take(done + 1);
                assert(head.drop_last() =~= all.take(done));
                assert(head.last() == view);
            }
        }
    }
    assert(all.take(n) =~= all);
    out
}

} // verus!

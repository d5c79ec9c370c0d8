//! Ranking: ordering a sequence by a key, largest first, with items of equal
//! key kept in the order in which they came.

use vstd::prelude::*;

verus! {

/// `ranked` with `item` put in its place: behind every item of at least its
/// key, before every item of less.
pub open spec fn insert_ranked<T>(ranked: Seq<T>, item: T, key: spec_fn(T) -> nat) -> Seq<T>
    decreases ranked.len(),
{
    if ranked.len() == 0 {
        seq![item]
    } else if key(ranked.last()) >= key(item) {
        ranked.push(item)
    } else {
        insert_ranked(ranked.drop_last(), item, key).push(ranked.last())
    }
}

/// `items` ranked by `key`, largest first; items of equal key stay in the
/// order in which `items` has them.
pub open spec fn ranked<T>(items: Seq<T>, key: spec_fn(T) -> nat) -> Seq<T>
    decreases items.len(),
{
    if items.len() == 0 {
        items
    } else {
        insert_ranked(ranked(items.drop_last(), key), items.last(), key)
    }
}

/// The key never grows from one item to the next.
pub open spec fn descending<T>(items: Seq<T>, key: spec_fn(T) -> nat) -> bool {
    forall|i: int, j: int| 0 <= i < j < items.len() ==> key(items[i]) >= key(items[j])
}

/// Putting an item in its place keeps a ranked sequence ranked, makes it one
/// item longer, and adds that item and no other.
pub proof fn lemma_insert_ranked<T>(items: Seq<T>, item: T, key: spec_fn(T) -> nat)
    requires
        descending(items, key),
    ensures
        descending(insert_ranked(items, item, key), key),
        insert_ranked(items, item, key).len() == items.len() + 1,
        insert_ranked(items, item, key).to_multiset() == items.to_multiset().insert(item),
    decreases items.len(),
{
    broadcast use vstd::seq_lib::group_to_multiset_ensures;

    if items.len() > 0 && key(items.last()) < key(item) {
        let shorter = items.drop_last();
        lemma_insert_ranked(shorter, item, key);
        let inner = insert_ranked(shorter, item, key);
        let after = inner.push(items.last());
        assert(items =~= shorter.push(items.last()));
        assert forall|i: int, j: int| 0 <= i < j < after.len() implies key(after[i]) >= key(
            after[j],
        ) by {
            if j == after.len() - 1 {
                // Every item of `inner` is `item` or an item of `shorter`.
                assert(inner.to_multiset().count(inner[i]) > 0);
            }
        }
    }
}

/// Ranking orders the items by key, largest first, and neither drops nor
/// invents an item.
pub proof fn lemma_ranked<T>(items: Seq<T>, key: spec_fn(T) -> nat)
    ensures
        descending(ranked(items, key), key),
        ranked(items, key).len() == items.len(),
        ranked(items, key).to_multiset() == items.to_multiset(),
    decreases items.len(),
{
    broadcast use vstd::seq_lib::group_to_multiset_ensures;

    if items.len() > 0 {
        lemma_ranked(items.drop_last(), key);
        lemma_insert_ranked(ranked(items.drop_last(), key), items.last(), key);
        assert(items =~= items.drop_last().push(items.last()));
    }
}

/// An item that goes behind the first `position` items of a ranked sequence,
/// each of at least its key, and before the rest, each of less, is in its
/// place.
pub proof fn lemma_insert_ranked_at<T>(
    items: Seq<T>,
    item: T,
    key: spec_fn(T) -> nat,
    position: int,
)
    requires
        0 <= position <= items.len(),
        position > 0 ==> key(items[position - 1]) >= key(item),
        forall|k: int| position <= k < items.len() ==> key(items[k]) < key(item),
    ensures
        insert_ranked(items, item, key) == items.insert(position, item),
    decreases items.len(),
{
    if position < items.len() {
        lemma_insert_ranked_at(items.drop_last(), item, key, position);
    }
}

/// The items of `items` whose key is `k`, in order.
pub open spec fn with_key<T>(items: Seq<T>, key: spec_fn(T) -> nat, k: nat) -> Seq<T>
    decreases items.len(),
{
    if items.len() == 0 {
        items
    } else if key(items.last()) == k {
        with_key(items.drop_last(), key, k).push(items.last())
    } else {
        with_key(items.drop_last(), key, k)
    }
}

/// An item that is put in its place comes behind the items of its own key
/// and leaves the items of every key in the order they had.
pub proof fn lemma_insert_ranked_is_stable<T>(
    items: Seq<T>,
    item: T,
    key: spec_fn(T) -> nat,
    k: nat,
)
    ensures
        with_key(insert_ranked(items, item, key), key, k) == if key(item) == k {
            with_key(items, key, k).push(item)
        } else {
            with_key(items, key, k)
        },
    decreases items.len(),
{
    if items.len() == 0 {
        assert(seq![item].drop_last() =~= items);
    } else if key(items.last()) >= key(item) {
        assert(items.push(item).drop_last() =~= items);
    } else {
        let shorter = items.drop_last();
        lemma_insert_ranked_is_stable(shorter, item, key, k);
        let after = insert_ranked(shorter, item, key).push(items.last());
        assert(after.drop_last() =~= insert_ranked(shorter, item, key));
    }
}

/// Ranking is stable: the items of any one key come out in the order in
/// which they went in.
pub proof fn lemma_ranked_is_stable<T>(items: Seq<T>, key: spec_fn(T) -> nat, k: nat)
    ensures
        with_key(ranked(items, key), key, k) == with_key(items, key, k),
    decreases items.len(),
{
    if items.len() > 0 {
        lemma_ranked_is_stable(items.drop_last(), key, k);
        lemma_insert_ranked_is_stable(ranked(items.drop_last(), key), items.last(), key, k);
    }
}

} // verus!

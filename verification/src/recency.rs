//! Keeping a list newest first: a stable sort by time stamp, latest first.

use vstd::prelude::*;

verus! {

/// Something that happened at a time.
pub trait Stamped {
    /// When it happened, in seconds since the epoch.
    spec fn spec_stamp(&self) -> u64;

    /// When it happened, in seconds since the epoch.
    fn stamp(&self) -> (stamp: u64)
        ensures
            stamp == self.spec_stamp(),
    ;
}

/// A list that is newest first, with `item` put behind the items that are
/// not older than it.
pub open spec fn placed<T: Stamped>(sorted: Seq<T>, item: T) -> Seq<T>
    decreases sorted.len(),
{
    if sorted.len() == 0 || sorted.last().spec_stamp() >= item.spec_stamp() {
        sorted.push(item)
    } else {
        placed(sorted.drop_last(), item).push(sorted.last())
    }
}

/// The items of a list newest first, items of one time in the order they
/// had.
pub open spec fn newest_first<T: Stamped>(items: Seq<T>) -> Seq<T>
    decreases items.len(),
{
    if items.len() == 0 {
        items
    } else {
        placed(newest_first(items.drop_last()), items.last())
    }
}

/// Whether no item of a list is newer than one before it.
pub open spec fn is_newest_first<T: Stamped>(items: Seq<T>) -> bool {
    forall|i: int, j: int|
        0 <= i <= j < items.len() ==> (#[trigger] items[i]).spec_stamp() >= (
        #[trigger] items[j]).spec_stamp()
}

/// Placing an item is inserting it at the place behind which all items are
/// older and before which the last is not.
pub proof fn lemma_placed_is_insert<T: Stamped>(sorted: Seq<T>, item: T, at: int)
    requires
        0 <= at <= sorted.len(),
        forall|j: int| at <= j < sorted.len() ==> (#[trigger] sorted[j]).spec_stamp() < item.spec_stamp(),
        at == 0 || sorted[at - 1].spec_stamp() >= item.spec_stamp(),
    ensures
        placed(sorted, item) == sorted.insert(at, item),
    decreases sorted.len(),
{
    if at == sorted.len() {
        assert(sorted.insert(at, item) =~= sorted.push(item));
    } else {
        let shorter = sorted.drop_last();
        assert(sorted.last().spec_stamp() < item.spec_stamp());
        assert forall|j: int| at <= j < shorter.len() implies (#[trigger] shorter[j]).spec_stamp()
            < item.spec_stamp() by {
            assert(shorter[j] == sorted[j]);
        }
        lemma_placed_is_insert(shorter, item, at);
        assert(shorter.insert(at, item).push(sorted.last()) =~= sorted.insert(at, item));
    }
}

/// Placing an item keeps a list newest first, and makes it one longer.
pub proof fn lemma_placed_sorted<T: Stamped>(sorted: Seq<T>, item: T)
    requires
        is_newest_first(sorted),
    ensures
        is_newest_first(placed(sorted, item)),
        placed(sorted, item).len() == sorted.len() + 1,
        placed(sorted, item).to_multiset() == sorted.to_multiset().insert(item),
    decreases sorted.len(),
{
    broadcast use vstd::seq_lib::group_to_multiset_ensures;

    if sorted.len() == 0 || sorted.last().spec_stamp() >= item.spec_stamp() {
        let after = sorted.push(item);
        assert forall|i: int, j: int| 0 <= i <= j < after.len() implies (
        #[trigger] after[i]).spec_stamp() >= (#[trigger] after[j]).spec_stamp() by {
            if j == sorted.len() && i < sorted.len() {
                assert(sorted[i].spec_stamp() >= sorted.last().spec_stamp());
            }
        }
    } else {
        let shorter = sorted.drop_last();
        assert(is_newest_first(shorter)) by {
            assert forall|i: int, j: int| 0 <= i <= j < shorter.len() implies (
            #[trigger] shorter[i]).spec_stamp() >= (#[trigger] shorter[j]).spec_stamp() by {
                assert(shorter[i] == sorted[i] && shorter[j] == sorted[j]);
            }
        }
        lemma_placed_sorted(shorter, item);
        let inner = placed(shorter, item);
        let after = inner.push(sorted.last());
        assert forall|i: int, j: int| 0 <= i <= j < after.len() implies (
        #[trigger] after[i]).spec_stamp() >= (#[trigger] after[j]).spec_stamp() by {
            if j == inner.len() && i < inner.len() {
                assert(inner.to_multiset().count(inner[i]) > 0);
                if inner[i] != item {
                    assert(shorter.to_multiset().count(inner[i]) > 0);
                    let k = choose|k: int| 0 <= k < shorter.len() && shorter[k] == inner[i];
                    assert(sorted[k].spec_stamp() >= sorted.last().spec_stamp());
                }
            }
        }
        assert(sorted =~= shorter.push(sorted.last()));
    }
}

/// The sorted list is newest first and holds the items of the list it was
/// made from, each as often.
pub proof fn lemma_newest_first<T: Stamped>(items: Seq<T>)
    ensures
        is_newest_first(newest_first(items)),
        newest_first(items).len() == items.len(),
        newest_first(items).to_multiset() == items.to_multiset(),
    decreases items.len(),
{
    broadcast use vstd::seq_lib::group_to_multiset_ensures;

    if items.len() > 0 {
        lemma_newest_first(items.drop_last());
        lemma_placed_sorted(newest_first(items.drop_last()), items.last());
        assert(items =~= items.drop_last().push(items.last()));
    }
}

/// Puts `item` into a list that is kept newest first.
pub fn place<T: Stamped>(sorted: &mut Vec<T>, item: T)
    ensures
        final(sorted)@ == placed(old(sorted)@, item),
{
    let stamp: u64 = item.stamp();
    let mut at: usize = sorted.len();
    while at > 0 && sorted[at - 1].stamp() < stamp
        invariant
            at <= sorted@.len(),
            sorted@ == old(sorted)@,
            stamp == item.spec_stamp(),
            forall|j: int| at <= j < sorted@.len() ==> (#[trigger] sorted@[j]).spec_stamp() < stamp,
        decreases at,
    {
        at -= 1;
    }
    proof {
        lemma_placed_is_insert(sorted@, item, at as int);
    }
    sorted.insert(at, item);
}

/// Sorts a list newest first, items of one time in the order they had.
pub fn sort_newest_first<T: Stamped>(items: Vec<T>) -> (sorted: Vec<T>)
    ensures
        sorted@ == newest_first(items@),
{
    let ghost source = items@;
    let mut sorted: Vec<T> = Vec::new();
    for item in it: items
        invariant
            it.seq() == source,
            sorted@ == newest_first(source.take(it.index() as int)),
    {
        proof {
            let next = source.take(it.index() + 1);
            assert(next.drop_last() =~= source.take(it.index() as int));
            assert(next.last() == item);
        }
        place(&mut sorted, item);
    }
    assert(source.take(source.len() as int) =~= source);
    sorted
}

} // verus!

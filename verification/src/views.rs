//! Views of collections: the mathematical contents of a list or an optional value.

use vstd::prelude::*;

verus! {

/// The views of a sequence's elements.
pub open spec fn views<T: View>(items: Seq<T>) -> Seq<T::V> {
    items.map_values(|t: T| t@)
}

/// The view of an optional value.
pub open spec fn opt_view<T: View>(item: Option<T>) -> Option<T::V> {
    match item {
        Some(t) => Some(t@),
        None => None,
    }
}

/// The view of an optional list.
pub open spec fn opt_views<T: View>(items: Option<Vec<T>>) -> Option<Seq<T::V>> {
    match items {
        Some(v) => Some(views(v@)),
        None => None,
    }
}

/// Viewing distributes over appending one element.
pub broadcast proof fn lemma_views_push<T: View>(items: Seq<T>, item: T)
    ensures
        #[trigger] views(items.push(item)) == views(items).push(item@),
{
    assert(views(items.push(item)) =~= views(items).push(item@));
}

/// A prefix longer by one is the prefix with the next element appended.
pub proof fn lemma_take_push<T>(items: Seq<T>, n: int)
    requires
        0 <= n < items.len(),
    ensures
        items.take(n + 1) == items.take(n).push(items[n]),
        items.take(n + 1).drop_last() == items.take(n),
        items.take(n + 1).last() == items[n],
{
    assert(items.take(n + 1) =~= items.take(n).push(items[n]));
    assert(items.take(n + 1).drop_last() =~= items.take(n));
}

/// The prefix as long as the sequence is the sequence.
pub proof fn lemma_take_all<T>(items: Seq<T>)
    ensures
        items.take(items.len() as int) == items,
{
    assert(items.take(items.len() as int) =~= items);
}

} // verus!

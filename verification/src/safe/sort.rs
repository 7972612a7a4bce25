//! Sorting a slice in place, several ways, under one contract.
use vstd::prelude::*;
use crate::safe::order::lawful;
use crate::safe::order::le;

pub mod bubble_sort;
pub mod insertion_sort;
pub mod quick_sort;
pub mod selection_sort;

verus! {

/// No element comes after a later one.
pub open spec fn sorted<T: Ord>(s: Seq<T>) -> bool {
    forall|i: int, j: int| 0 <= i <= j < s.len() ==> le(s[i], s[j])
}

/// `s` with the elements at `i` and `j` exchanged.
pub open spec fn swapped<T>(s: Seq<T>, i: int, j: int) -> Seq<T> {
    s.update(i, s[j]).update(j, s[i])
}

/// `<[T]>::swap`: exchanges the elements at the two positions and leaves the
/// others where they are. It panics on a position outside the slice, which
/// the precondition rules out.
#[verifier::external_body]
pub(crate) fn swap<T>(slice: &mut [T], i: usize, j: usize)
    requires
        i < old(slice)@.len(),
        j < old(slice)@.len(),
    ensures
        final(slice)@ == swapped(old(slice)@, i as int, j as int),
{
    slice.swap(i, j)
}

/// `<[T]>::sort`: sorts the slice in place by `T`'s order, keeping what it
/// holds. It may panic where that order is not total, which the precondition
/// rules out.
#[verifier::external_body]
pub(crate) fn std_sort<T: Ord>(slice: &mut [T])
    requires
        lawful::<T>(),
    ensures
        sorted(final(slice)@),
        final(slice)@.to_multiset() == old(slice)@.to_multiset(),
{
    slice.sort()
}

/// `<[T]>::sort_unstable`: sorts the slice in place by `T`'s order, keeping
/// what it holds. It may panic where that order is not total, which the
/// precondition rules out.
#[verifier::external_body]
pub(crate) fn std_sort_unstable<T: Ord>(slice: &mut [T])
    requires
        lawful::<T>(),
    ensures
        sorted(final(slice)@),
        final(slice)@.to_multiset() == old(slice)@.to_multiset(),
{
    slice.sort_unstable()
}

/// An exchange keeps what the sequence holds.
pub proof fn lemma_swapped_keeps_elements<T>(s: Seq<T>, i: int, j: int)
    requires
        0 <= i < s.len(),
        0 <= j < s.len(),
    ensures
        swapped(s, i, j).to_multiset() == s.to_multiset(),
        swapped(s, i, j).len() == s.len(),
{
    broadcast use vstd::multiset::group_multiset_axioms;

    let once = s.update(i, s[j]);
    assert(once.len() == s.len());
    vstd::seq_lib::to_multiset_update(s, i, s[j]);
    vstd::seq_lib::to_multiset_update(once, j, s[i]);
    s.to_multiset_ensures();
    assert(s.contains(s[i]));
    assert(s.contains(s[j]));
    assert(once[j] == s[j]);
    assert(swapped(s, i, j).to_multiset() =~= s.to_multiset());
}

/// Where each element does not come after its right neighbour, none comes
/// after any later one.
pub proof fn lemma_neighbours_sorted<T: Ord>(s: Seq<T>)
    requires
        lawful::<T>(),
        forall|i: int| 0 < i < s.len() ==> le(#[trigger] s[i - 1], s[i]),
    ensures
        sorted(s),
{
    assert forall|i: int, j: int| 0 <= i <= j < s.len() implies le(s[i], s[j]) by {
        lemma_neighbours_reach(s, i, j);
    }
}

proof fn lemma_neighbours_reach<T: Ord>(s: Seq<T>, i: int, j: int)
    requires
        lawful::<T>(),
        forall|i: int| 0 < i < s.len() ==> le(#[trigger] s[i - 1], s[i]),
        0 <= i <= j < s.len(),
    ensures
        le(s[i], s[j]),
    decreases j - i,
{
    if i == j {
        assert(le(s[i], s[i]) || le(s[i], s[i]));
    } else {
        lemma_neighbours_reach(s, i, j - 1);
        assert(le(s[j - 1], s[j]));
    }
}

/// A way to sort a slice in place.
pub trait Sorter<T> {
    /// Leaves the slice sorted by `T`'s order, holding what it held.
    fn sort(&self, slice: &mut [T]) where T: Ord
        requires
            lawful::<T>(),
        ensures
            sorted(final(slice)@),
            final(slice)@.to_multiset() == old(slice)@.to_multiset(),
    ;
}

/// The standard library's stable sort.
pub struct StdSorter;

impl<T> Sorter<T> for StdSorter {
    fn sort(&self, slice: &mut [T]) where T: Ord {
        std_sort(slice);
    }
}

/// The standard library's unstable sort.
pub struct StdUnstableSorter;

impl<T> Sorter<T> for StdUnstableSorter {
    fn sort(&self, slice: &mut [T]) where T: Ord {
        std_sort_unstable(slice);
    }
}

} // verus!

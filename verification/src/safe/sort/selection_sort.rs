use vstd::prelude::*;
use crate::safe::order::greater;
use crate::safe::order::lawful;
use crate::safe::order::le;
use crate::safe::sort::Sorter;
use crate::safe::sort::lemma_swapped_keeps_elements;
use crate::safe::sort::sorted;
use crate::safe::sort::swap;

verus! {

pub struct SelectionSorter;

/// The first `k` elements are in order, and none of them comes after any
/// element behind them.
pub open spec fn settled_head<T: Ord>(s: Seq<T>, k: int) -> bool {
    forall|a: int, b: int| 0 <= a < k && a <= b < s.len() ==> le(s[a], s[b])
}

/// The position of the first smallest element from `from` on.
pub fn first_smallest<T: Ord>(slice: &[T], from: usize) -> (at: usize)
    requires
        lawful::<T>(),
        from < slice@.len(),
    ensures
        from <= at < slice@.len(),
        forall|k: int| from <= k < slice@.len() ==> le(slice@[at as int], slice@[k]),
        forall|k: int| from <= k < at ==> !le(slice@[k], slice@[at as int]),
{
    let len: usize = slice.len();
    let mut smallest: usize = from;
    let mut j: usize = from + 1;
    proof {
        assert(le(slice@[from as int], slice@[from as int]) || le(
            slice@[from as int],
            slice@[from as int],
        ));
    }
    while j < len
        invariant
            lawful::<T>(),
            len == slice@.len(),
            from <= smallest < j <= len,
            forall|k: int| from <= k < j ==> le(slice@[smallest as int], slice@[k]),
            forall|k: int| from <= k < smallest ==> !le(slice@[k], slice@[smallest as int]),
        decreases len - j,
    {
        if greater(&slice[smallest], &slice[j]) {
            proof {
                let s = slice@;
                assert forall|k: int| from <= k < j + 1 implies le(s[j as int], s[k]) by {
                    if k < j {
                        assert(le(s[j as int], s[smallest as int]));
                        assert(le(s[smallest as int], s[k]));
                    } else {
                        assert(le(s[j as int], s[j as int]) || le(s[j as int], s[j as int]));
                    }
                }
                assert forall|k: int| from <= k < j implies !le(s[k], s[j as int]) by {
                    if le(s[k], s[j as int]) {
                        assert(le(s[smallest as int], s[k]));
                        assert(le(s[smallest as int], s[j as int]));
                    }
                }
            }
            smallest = j;
        }
        j = j + 1;
    }
    smallest
}

impl<T> Sorter<T> for SelectionSorter {
    fn sort(&self, slice: &mut [T]) where T: Ord {
        let len: usize = slice.len();
        let mut unsorted: usize = 0;
        while unsorted < len
            invariant
                lawful::<T>(),
                slice@.len() == len,
                unsorted <= len,
                settled_head(slice@, unsorted as int),
                slice@.to_multiset() == old(slice)@.to_multiset(),
            decreases len - unsorted,
        {
            let smallest: usize = first_smallest(slice, unsorted);
            let ghost before = slice@;
            swap(slice, unsorted, smallest);
            proof {
                lemma_swapped_keeps_elements(before, unsorted as int, smallest as int);
                let s = slice@;
                assert forall|a: int, b: int| 0 <= a < unsorted + 1 && a <= b < s.len() implies le(
                    s[a],
                    s[b],
                ) by {
                    if a < unsorted {
                        if b == unsorted {
                            assert(le(before[a], before[smallest as int]));
                        } else if b == smallest {
                            assert(le(before[a], before[unsorted as int]));
                        } else {
                            assert(le(before[a], before[b]));
                        }
                    } else {
                        if b == smallest {
                            assert(le(before[smallest as int], before[unsorted as int]));
                        } else {
                            assert(le(before[smallest as int], before[b]));
                        }
                    }
                }
            }
            unsorted = unsorted + 1;
        }
    }
}

} // verus!

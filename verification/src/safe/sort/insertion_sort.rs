use vstd::prelude::*;
use crate::safe::order::greater;
use crate::safe::order::lawful;
use crate::safe::order::le;
use crate::safe::sort::Sorter;
use crate::safe::sort::lemma_swapped_keeps_elements;
use crate::safe::sort::sorted;
use crate::safe::sort::swap;
use crate::safe::sort::swapped;

verus! {

pub struct InsertionSorter;

/// The first `upto + 1` elements are in order, but for the one at `hole`,
/// which does not come after any of those behind it.
pub open spec fn sorted_around<T: Ord>(s: Seq<T>, hole: int, upto: int) -> bool {
    &&& forall|a: int, b: int| 0 <= a <= b <= upto && a != hole && b != hole ==> le(s[a], s[b])
    &&& forall|b: int| hole < b <= upto ==> le(s[hole], s[b])
}

impl<T> Sorter<T> for InsertionSorter {
    fn sort(&self, slice: &mut [T]) where T: Ord {
        let len: usize = slice.len();
        let mut unsorted: usize = 1;
        while unsorted < len
            invariant
                lawful::<T>(),
                slice@.len() == len,
                1 <= unsorted,
                len >= 1 ==> unsorted <= len,
                sorted(slice@.subrange(0, if len == 0 { 0 } else { unsorted as int })),
                slice@.to_multiset() == old(slice)@.to_multiset(),
            decreases len - unsorted,
        {
            let mut i: usize = unsorted;
            proof {
                let s = slice@;
                let head = s.subrange(0, unsorted as int);
                assert forall|a: int, b: int|
                    0 <= a <= b <= unsorted && a != i && b != i implies le(s[a], s[b]) by {
                    assert(le(head[a], head[b]));
                }
            }
            while i > 0 && greater(&slice[i - 1], &slice[i])
                invariant
                    lawful::<T>(),
                    slice@.len() == len,
                    i <= unsorted < len,
                    sorted_around(slice@, i as int, unsorted as int),
                    slice@.to_multiset() == old(slice)@.to_multiset(),
                decreases i,
            {
                let ghost before = slice@;
                swap(slice, i - 1, i);
                proof {
                    lemma_swapped_keeps_elements(before, i - 1, i as int);
                    let s = slice@;
                    let h = i - 1;
                    assert(le(before[i as int], before[h]));
                    assert forall|a: int, b: int|
                        0 <= a <= b <= unsorted && a != h && b != h implies le(s[a], s[b]) by {
                        if b == i {
                            // s[i] is the old s[i - 1]
                            if a != i {
                                assert(le(before[a], before[h]));
                            } else {
                                assert(le(s[a], s[a]) || le(s[a], s[a]));
                            }
                        } else if a == i {
                            assert(le(before[h], before[b]));
                        } else {
                            assert(le(before[a], before[b]));
                        }
                    }
                    assert forall|b: int| h < b <= unsorted implies le(s[h], s[b]) by {
                        if b == i {
                            assert(le(before[i as int], before[h]));
                        } else {
                            assert(le(before[i as int], before[b]));
                        }
                    }
                }
                i = i - 1;
            }
            proof {
                let s = slice@;
                let head = s.subrange(0, unsorted + 1);
                assert forall|a: int, b: int| 0 <= a <= b < head.len() implies le(
                    head[a],
                    head[b],
                ) by {
                    if a == b {
                        assert(le(s[a], s[a]) || le(s[a], s[a]));
                    } else if a != i && b != i {
                        assert(le(s[a], s[b]));
                    } else if a == i {
                        assert(le(s[i as int], s[b]));
                    } else {
                        // b == i, a < i: the loop stopped because s[i - 1] does not come after s[i]
                        assert(i > 0);
                        assert(le(s[i - 1], s[i as int]));
                        if a < i - 1 {
                            assert(le(s[a], s[i - 1]));
                        }
                    }
                }
            }
            unsorted = unsorted + 1;
        }
        proof {
            if len > 0 {
                assert(slice@.subrange(0, len as int) =~= slice@);
            } else {
                assert(sorted(slice@));
            }
        }
    }
}

} // verus!

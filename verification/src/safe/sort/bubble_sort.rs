use vstd::prelude::*;
use crate::safe::order::greater;
use crate::safe::order::lawful;
use crate::safe::order::le;
use crate::safe::sort::Sorter;
use crate::safe::sort::lemma_neighbours_sorted;
use crate::safe::sort::lemma_swapped_keeps_elements;
use crate::safe::sort::sorted;
use crate::safe::sort::swap;

verus! {

pub struct BubbleSorter;

/// The last `k` elements are in order, and none of them comes before any
/// element in front of them.
pub open spec fn settled_tail<T: Ord>(s: Seq<T>, k: int) -> bool {
    forall|a: int, b: int| 0 <= a <= b < s.len() && s.len() - k <= b ==> le(s[a], s[b])
}

/// No element in front of position `top` comes after the one at `top`.
pub open spec fn tops<T: Ord>(s: Seq<T>, top: int) -> bool {
    forall|a: int| 0 <= a <= top ==> le(s[a], s[top])
}

/// Each of the first `upto` elements but the first does not come before its
/// left neighbour.
pub open spec fn neighbours_in_order<T: Ord>(s: Seq<T>, upto: int) -> bool {
    forall|j: int| 0 < j < upto ==> le(#[trigger] s[j - 1], s[j])
}

impl<T> Sorter<T> for BubbleSorter {
    fn sort(&self, slice: &mut [T]) where T: Ord {
        let len: usize = slice.len();
        let mut swapped: bool = true;
        let ghost mut passes: int = 0;
        while swapped
            invariant
                lawful::<T>(),
                slice@.len() == len,
                0 <= passes <= len,
                settled_tail(slice@, passes),
                !swapped ==> sorted(slice@),
                slice@.to_multiset() == old(slice)@.to_multiset(),
            decreases
                    len - passes + if swapped {
                        1int
                    } else {
                        0int
                    },
        {
            swapped = false;
            let mut i: usize = 1;
            proof {
                if len > 0 {
                    assert(le(slice@[0], slice@[0]) || le(slice@[0], slice@[0]));
                }
            }
            while i < len
                invariant
                    lawful::<T>(),
                    slice@.len() == len,
                    1 <= i,
                    len >= 1 ==> i <= len,
                    0 <= passes <= len,
                    settled_tail(slice@, passes),
                    len >= 1 ==> tops(slice@, i - 1),
                    !swapped ==> neighbours_in_order(slice@, i as int),
                    swapped ==> passes < len,
                    passes < len && i >= len - passes ==> tops(slice@, len - passes - 1),
                    slice@.to_multiset() == old(slice)@.to_multiset(),
                decreases len - i,
            {
                let ghost before = slice@;
                if greater(&slice[i - 1], &slice[i]) {
                    proof {
                        // the pair lies in front of the settled tail
                        if i >= len - passes {
                            assert(le(before[i - 1], before[i as int]));
                        }
                    }
                    swap(slice, i - 1, i);
                    swapped = true;
                    proof {
                        lemma_swapped_keeps_elements(before, i - 1, i as int);
                        let s = slice@;
                        assert forall|a: int, b: int|
                            0 <= a <= b < s.len() && s.len() - passes <= b implies le(
                            s[a],
                            s[b],
                        ) by {
                            if a == i - 1 {
                                assert(le(before[i as int], before[b]));
                            } else if a == i {
                                assert(le(before[i - 1], before[b]));
                            } else {
                                assert(le(before[a], before[b]));
                            }
                        }
                        assert forall|a: int| 0 <= a <= i implies le(s[a], s[i as int]) by {
                            if a == i {
                                assert(le(s[a], s[a]) || le(s[a], s[a]));
                            } else if a == i - 1 {
                                assert(le(before[i as int], before[i - 1]));
                            } else {
                                assert(le(before[a], before[i - 1]));
                            }
                        }
                    }
                } else {
                    proof {
                        let s = slice@;
                        assert(le(s[i - 1], s[i as int]));
                        assert forall|a: int| 0 <= a <= i implies le(s[a], s[i as int]) by {
                            if a == i {
                                assert(le(s[a], s[a]) || le(s[a], s[a]));
                            } else {
                                assert(le(s[a], s[i - 1]));
                            }
                        }
                        if !swapped {
                            assert forall|j: int| 0 < j < i + 1 implies le(
                                #[trigger] s[j - 1],
                                s[j],
                            ) by {}
                        }
                    }
                }
                i = i + 1;
            }
            proof {
                let s = slice@;
                if passes < len {
                    assert forall|a: int, b: int|
                        0 <= a <= b < s.len() && s.len() - (passes + 1) <= b implies le(
                        s[a],
                        s[b],
                    ) by {
                        if b == len - passes - 1 {
                            assert(le(s[a], s[len - passes - 1]));
                        } else {
                            assert(le(s[a], s[b]));
                        }
                    }
                    passes = passes + 1;
                }
                if !swapped {
                    if len >= 1 {
                        lemma_neighbours_sorted(s);
                    } else {
                        assert(sorted(s));
                    }
                }
            }
        }
    }
}

} // verus!

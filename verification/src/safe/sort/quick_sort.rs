use vstd::prelude::*;
use crate::safe::order::greater;
use crate::safe::order::lawful;
use crate::safe::order::le;
use crate::safe::sort::Sorter;
use crate::safe::sort::lemma_swapped_keeps_elements;
use crate::safe::sort::sorted;
use crate::safe::sort::swap;
use crate::safe::sort::swapped;

verus! {

pub struct QuickSorter;

/// `after` differs from `before` only between `lo` and `hi`, and holds there
/// what `before` held there.
pub open spec fn rearranged_within<T>(before: Seq<T>, after: Seq<T>, lo: int, hi: int) -> bool {
    &&& after.len() == before.len()
    &&& forall|k: int| 0 <= k < before.len() && !(lo <= k < hi) ==> after[k] == before[k]
    &&& after.subrange(lo, hi).to_multiset() == before.subrange(lo, hi).to_multiset()
}

/// An exchange of two positions between `lo` and `hi` rearranges within them.
proof fn lemma_swap_within<T>(s: Seq<T>, lo: int, hi: int, i: int, j: int)
    requires
        0 <= lo <= i < hi <= s.len(),
        lo <= j < hi,
    ensures
        rearranged_within(s, swapped(s, i, j), lo, hi),
{
    let part = s.subrange(lo, hi);
    lemma_swapped_keeps_elements(part, i - lo, j - lo);
    let whole = swapped(s, i, j);
    let inner = swapped(part, i - lo, j - lo);
    assert(whole.len() == s.len());
    assert(whole.subrange(lo, hi).len() == inner.len());
    let once = s.update(i, s[j]);
    let inner_once = part.update(i - lo, part[j - lo]);
    assert(once.len() == s.len());
    assert(inner_once.len() == part.len());
    assert(part[i - lo] == s[i]);
    assert(part[j - lo] == s[j]);
    assert(whole[j] == s[i]);
    assert(inner[j - lo] == part[i - lo]);
    if i != j {
        assert(whole[i] == once[i]);
        assert(once[i] == s[j]);
        assert(inner[i - lo] == inner_once[i - lo]);
        assert(inner_once[i - lo] == part[j - lo]);
    }
    assert forall|k: int| 0 <= k < inner.len() implies whole.subrange(lo, hi)[k] == inner[k] by {
        let p = k + lo;
        assert(whole.subrange(lo, hi)[k] == whole[p]);
        assert(part[k] == s[p]);
        if p != j && p != i {
            assert(whole[p] == once[p]);
            assert(once[p] == s[p]);
            assert(inner[k] == inner_once[k]);
            assert(inner_once[k] == part[k]);
        }
    }
    assert(whole.subrange(lo, hi) =~= inner);
}

/// Rearranging twice within the same bounds rearranges within them.
proof fn lemma_rearranged_twice<T>(a: Seq<T>, b: Seq<T>, c: Seq<T>, lo: int, hi: int)
    requires
        rearranged_within(a, b, lo, hi),
        rearranged_within(b, c, lo, hi),
    ensures
        rearranged_within(a, c, lo, hi),
{
}

/// Rearranging within narrower bounds rearranges within wider ones.
proof fn lemma_rearranged_wider<T>(a: Seq<T>, b: Seq<T>, lo: int, hi: int, wlo: int, whi: int)
    requires
        0 <= wlo <= lo <= hi <= whi <= a.len(),
        rearranged_within(a, b, lo, hi),
    ensures
        rearranged_within(a, b, wlo, whi),
{
    let wa = a.subrange(wlo, whi);
    let wb = b.subrange(wlo, whi);
    assert(wa =~= a.subrange(wlo, lo) + a.subrange(lo, hi) + a.subrange(hi, whi));
    assert(wb =~= b.subrange(wlo, lo) + b.subrange(lo, hi) + b.subrange(hi, whi));
    assert(a.subrange(wlo, lo) =~= b.subrange(wlo, lo));
    assert(a.subrange(hi, whi) =~= b.subrange(hi, whi));
    vstd::seq_lib::lemma_multiset_commutative(a.subrange(wlo, lo), a.subrange(lo, hi));
    vstd::seq_lib::lemma_multiset_commutative(
        a.subrange(wlo, lo) + a.subrange(lo, hi),
        a.subrange(hi, whi),
    );
    vstd::seq_lib::lemma_multiset_commutative(b.subrange(wlo, lo), b.subrange(lo, hi));
    vstd::seq_lib::lemma_multiset_commutative(
        b.subrange(wlo, lo) + b.subrange(lo, hi),
        b.subrange(hi, whi),
    );
}

/// What holds of every element between the bounds before a rearrangement
/// within them holds of every element between them after it.
proof fn lemma_rearranged_keeps_bound<T>(
    before: Seq<T>,
    after: Seq<T>,
    lo: int,
    hi: int,
    bound: spec_fn(T) -> bool,
)
    requires
        0 <= lo <= hi <= before.len(),
        rearranged_within(before, after, lo, hi),
        forall|k: int| lo <= k < hi ==> bound(#[trigger] before[k]),
    ensures
        forall|k: int| lo <= k < hi ==> bound(#[trigger] after[k]),
{
    let b = before.subrange(lo, hi);
    let a = after.subrange(lo, hi);
    a.to_multiset_ensures();
    b.to_multiset_ensures();
    assert(after.len() == before.len());
    assert(a.len() == hi - lo);
    assert forall|k: int| lo <= k < hi implies bound(#[trigger] after[k]) by {
        assert(a[k - lo] == after[k]);
        assert(a.contains(a[k - lo]));
        assert(a.to_multiset().count(after[k]) > 0);
        assert(b.to_multiset().count(after[k]) > 0);
        assert(b.contains(after[k]));
        let w = choose|w: int| 0 <= w < b.len() && b[w] == after[k];
        assert(before[w + lo] == after[k]);
    }
}

/// Sorts the elements from `lo` up to `hi` and leaves the others alone.
pub fn quick_sort_range<T: Ord>(slice: &mut [T], lo: usize, hi: usize)
    requires
        lawful::<T>(),
        lo <= hi <= old(slice)@.len(),
    ensures
        rearranged_within(old(slice)@, final(slice)@, lo as int, hi as int),
        sorted(final(slice)@.subrange(lo as int, hi as int)),
    decreases hi - lo,
{
    if hi - lo <= 1 {
        proof {
            let part = slice@.subrange(lo as int, hi as int);
            if part.len() == 1 {
                assert(le(part[0], part[0]) || le(part[0], part[0]));
            }
        }
        return ;
    }
    let ghost start = slice@;
    let half: usize = (hi - lo) >> 1;
    assert(half < hi - lo) by (bit_vector)
        requires
            half == (hi - lo) as usize >> 1,
            hi - lo > 1,
    ;
    let pivot_index: usize = lo + half;
    let last: usize = hi - 1;
    swap(slice, pivot_index, last);
    proof {
        lemma_swap_within(start, lo as int, hi as int, pivot_index as int, last as int);
    }
    let mut left: usize = lo;
    let mut right: usize = last;
    while left < right
        invariant
            lawful::<T>(),
            lo <= left <= right <= last,
            last == hi - 1,
            hi <= slice@.len(),
            rearranged_within(start, slice@, lo as int, hi as int),
            forall|a: int| lo <= a < left ==> le(#[trigger] slice@[a], slice@[last as int]),
            forall|b: int| right <= b < last ==> le(slice@[last as int], #[trigger] slice@[b]),
        decreases right - left,
    {
        if !greater(&slice[left], &slice[last]) {
            left = left + 1;
        } else if greater(&slice[right - 1], &slice[last]) {
            right = right - 1;
        } else {
            let ghost before = slice@;
            proof {
                if left == right - 1 {
                    assert(false);
                }
            }
            swap(slice, left, right - 1);
            proof {
                lemma_swap_within(before, lo as int, hi as int, left as int, right - 1);
                lemma_rearranged_twice(start, before, slice@, lo as int, hi as int);
                let s = slice@;
                assert(s[last as int] == before[last as int]);
                assert forall|a: int| lo <= a < left + 1 implies le(
                    #[trigger] s[a],
                    s[last as int],
                ) by {
                    if a < left {
                        assert(s[a] == before[a]);
                    }
                }
                assert forall|b: int| right - 1 <= b < last implies le(
                    s[last as int],
                    #[trigger] s[b],
                ) by {
                    if b >= right {
                        assert(s[b] == before[b]);
                    }
                }
            }
            left = left + 1;
            right = right - 1;
        }
    }
    let ghost parted = slice@;
    swap(slice, last, left);
    let ghost pivoted = slice@;
    proof {
        lemma_swap_within(parted, lo as int, hi as int, last as int, left as int);
        lemma_rearranged_twice(start, parted, pivoted, lo as int, hi as int);
        assert forall|a: int| lo <= a < left implies le(#[trigger] pivoted[a], pivoted[left as int]) by {
            assert(pivoted[a] == parted[a]);
        }
        assert forall|b: int| left < b < hi implies le(pivoted[left as int], #[trigger] pivoted[b]) by {
            if b == last {
                assert(pivoted[b] == parted[left as int]);
                assert(le(parted[last as int], parted[left as int]));
            } else {
                assert(pivoted[b] == parted[b]);
            }
        }
    }
    quick_sort_range(slice, lo, left);
    let ghost lower = slice@;
    quick_sort_range(slice, left + 1, hi);
    proof {
        let s = slice@;
        let pivot = pivoted[left as int];
        lemma_rearranged_keeps_bound(pivoted, lower, lo as int, left as int, |x: T| le(x, pivot));
        lemma_rearranged_keeps_bound(lower, s, left + 1, hi as int, |x: T| le(pivot, x));
        lemma_rearranged_wider(pivoted, lower, lo as int, left as int, lo as int, hi as int);
        lemma_rearranged_wider(lower, s, left + 1, hi as int, lo as int, hi as int);
        lemma_rearranged_twice(start, pivoted, lower, lo as int, hi as int);
        lemma_rearranged_twice(start, lower, s, lo as int, hi as int);
        assert(s[left as int] == pivot);
        let part = s.subrange(lo as int, hi as int);
        let low_part = lower.subrange(lo as int, left as int);
        let high_part = s.subrange(left + 1, hi as int);
        assert forall|i: int, j: int| 0 <= i <= j < part.len() implies le(part[i], part[j]) by {
            let a = i + lo;
            let b = j + lo;
            if b < left {
                assert(s[a] == lower[a] && s[b] == lower[b]);
                assert(le(low_part[i], low_part[j]));
            } else if a > left {
                assert(le(high_part[a - left - 1], high_part[b - left - 1]));
            } else if a == left && b == left {
                assert(le(pivot, pivot) || le(pivot, pivot));
            } else if a == left {
                assert(le(pivot, s[b]));
            } else if b == left {
                assert(s[a] == lower[a]);
                assert(le(lower[a], pivot));
            } else {
                assert(s[a] == lower[a]);
                assert(le(lower[a], pivot));
                assert(le(pivot, s[b]));
            }
        }
    }
}

/// Sorts the slice: a pivot from the middle goes to the end, the rest is
/// parted around it from both sides, the pivot goes between the parts, and
/// each part is sorted the same way.
pub fn quick_sort<T: Ord>(slice: &mut [T])
    requires
        lawful::<T>(),
    ensures
        sorted(final(slice)@),
        final(slice)@.to_multiset() == old(slice)@.to_multiset(),
{
    let len: usize = slice.len();
    let ghost before = slice@;
    quick_sort_range(slice, 0, len);
    proof {
        assert(slice@.subrange(0, len as int) =~= slice@);
        assert(before.subrange(0, len as int) =~= before);
    }
}

impl<T> Sorter<T> for QuickSorter {
    fn sort(&self, slice: &mut [T]) where T: Ord {
        quick_sort(slice);
    }
}

} // verus!

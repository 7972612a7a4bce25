//! A growable array that keeps its own account of its capacity: none until
//! the first item comes, then doubled whenever it is full.
use vstd::prelude::*;
use std::collections::VecDeque;
use vstd::layout::size_of;
use crate::safe::flatten::deque_from;

verus! {

/// The capacity after one growth.
pub open spec fn grown(cap: usize) -> int {
    if cap == 0 {
        1
    } else {
        2 * cap
    }
}

/// The capacity after as many growths as it takes to hold `need` items.
pub open spec fn grown_to(cap: usize, need: int) -> int
    decreases
            if cap < need {
                need - cap
            } else {
                0
            },
{
    if cap >= need || grown(cap) > usize::MAX {
        cap as int
    } else {
        grown_to(grown(cap) as usize, need)
    }
}

/// Growing never takes capacity away.
pub proof fn lemma_grown_to_at_least(cap: usize, need: int)
    ensures
        grown_to(cap, need) >= cap,
    decreases
            if cap < need {
                need - cap
            } else {
                0
            },
{
    if !(cap >= need || grown(cap) > usize::MAX) {
        lemma_grown_to_at_least(grown(cap) as usize, need);
    }
}

/// Where the capacity that the growths end at can be allocated, so can the
/// capacity after the first of them, and the growths end where they would
/// have ended.
pub proof fn lemma_growth_step<T>(cap: usize, need: int)
    requires
        cap < need,
        allocatable::<T>(grown_to(cap, need)),
    ensures
        grown(cap) <= usize::MAX,
        allocatable::<T>(grown(cap)),
        grown_to(grown(cap) as usize, need) == grown_to(cap, need),
{
    let size = size_of::<T>();
    let end = grown_to(cap, need);
    lemma_grown_to_at_least(cap, need);
    assert(end <= isize::MAX) by (nonlinear_arith)
        requires
            end * size <= isize::MAX,
            size >= 1,
            end >= 0,
    ;
    if grown(cap) > usize::MAX {
        assert(end == cap);
        assert(false);
    }
    lemma_grown_to_at_least(grown(cap) as usize, need);
    assert(grown(cap) * size <= end * size) by (nonlinear_arith)
        requires
            grown(cap) <= end,
            size >= 0,
    ;
}

/// The capacity of an array that holds nothing yet: items of no size need
/// no room, so there is room for any number of them.
pub open spec fn initial_cap<T>() -> usize {
    if size_of::<T>() == 0 {
        usize::MAX
    } else {
        0
    }
}

/// An array of `cap` items of type `T` can be allocated.
pub open spec fn allocatable<T>(cap: int) -> bool {
    size_of::<T>() != 0 && cap * size_of::<T>() <= isize::MAX
}

pub struct Vec<T> {
    buf: std::vec::Vec<T>,
    cap: usize,
}

/// The items that were taken out of a `Vec` by `drain`, to be taken from
/// either end.
pub struct Drain<T> {
    iter: VecDeque<T>,
}

/// The items of a `Vec` that was given up, to be taken from either end.
pub struct IntoIter<T> {
    iter: VecDeque<T>,
}

impl<T> View for Vec<T> {
    type V = Seq<T>;

    closed spec fn view(&self) -> Seq<T> {
        self.buf@
    }
}

impl<T> View for Drain<T> {
    type V = Seq<T>;

    closed spec fn view(&self) -> Seq<T> {
        self.iter@
    }
}

impl<T> View for IntoIter<T> {
    type V = Seq<T>;

    closed spec fn view(&self) -> Seq<T> {
        self.iter@
    }
}

impl<T> Vec<T> {
    /// The capacity.
    pub closed spec fn capacity(&self) -> usize {
        self.cap
    }

    /// The array holds no more than its capacity.
    pub closed spec fn wf(&self) -> bool {
        self.buf@.len() <= self.cap
    }

    /// There is room for one more item, or room for it can be made.
    pub open spec fn can_take_one(&self) -> bool {
        self@.len() < self.capacity() || allocatable::<T>(grown(self.capacity()))
    }

    /// There is room for `more` more items, or room for them can be made.
    pub open spec fn can_take(&self, more: int) -> bool {
        self@.len() + more <= self.capacity() || allocatable::<T>(
            grown_to(self.capacity(), self@.len() + more),
        )
    }

    pub fn new() -> (vec: Self)
        ensures
            vec.wf(),
            vec@.len() == 0,
            vec.capacity() == initial_cap::<T>(),
    {
        let cap: usize = if core::mem::size_of::<T>() == 0 {
            usize::MAX
        } else {
            0
        };
        Vec { buf: std::vec::Vec::new(), cap }
    }

    /// The capacity; the array never holds more.
    pub fn cap(&self) -> (cap: usize)
        requires
            self.wf(),
        ensures
            cap == self.capacity(),
            self@.len() <= cap,
    {
        self.cap
    }

    pub fn len(&self) -> (len: usize)
        requires
            self.wf(),
        ensures
            len == self@.len(),
            len <= self.capacity(),
    {
        self.buf.len()
    }

    /// The items as a slice.
    pub fn as_slice(&self) -> (slice: &[T])
        ensures
            slice@ == self@,
    {
        self.buf.as_slice()
    }

    /// The items as a slice through which they can be replaced.
    pub fn as_mut_slice(&mut self) -> (slice: &mut [T])
        requires
            old(self).wf(),
        ensures
            slice@ == old(self)@,
            final(self)@ == final(slice)@,
            final(slice)@.len() == old(self)@.len() ==> final(self).wf(),
            final(self).capacity() == old(self).capacity(),
    {
        self.buf.as_mut_slice()
    }

    /// Doubles the capacity, or makes it one where it was none.
    fn grow(&mut self)
        requires
            old(self).wf(),
            allocatable::<T>(grown(old(self).capacity())),
        ensures
            final(self).wf(),
            final(self)@ == old(self)@,
            final(self).capacity() == grown(old(self).capacity()),
    {
        proof {
            assert(grown(self.cap) <= isize::MAX) by (nonlinear_arith)
                requires
                    grown(self.cap) * size_of::<T>() <= isize::MAX,
                    size_of::<T>() >= 1,
                    grown(self.cap) >= 0,
            ;
        }
        self.cap = if self.cap == 0 {
            1
        } else {
            self.cap * 2
        };
    }

    /// Appends `value`, growing first where the array is full.
    pub fn push(&mut self, value: T)
        requires
            old(self).wf(),
            old(self).can_take_one(),
        ensures
            final(self).wf(),
            final(self)@ == old(self)@.push(value),
            final(self).capacity() == if old(self)@.len() == old(self).capacity() {
                grown(old(self).capacity())
            } else {
                old(self).capacity() as int
            },
    {
        if self.buf.len() == self.cap {
            self.grow();
        }
        self.buf.push(value);
    }

    /// Takes the last item off, if there is one. The capacity stays.
    pub fn pop(&mut self) -> (value: Option<T>)
        requires
            old(self).wf(),
        ensures
            final(self).wf(),
            final(self).capacity() == old(self).capacity(),
            old(self)@.len() == 0 ==> value is None && final(self)@ == old(self)@,
            old(self)@.len() > 0 ==> value == Some(old(self)@.last()) && final(self)@ == old(
                self,
            )@.drop_last(),
    {
        self.buf.pop()
    }

    /// Puts `value` at `index` and moves what stood there and behind it one
    /// place back, growing first where the array is full.
    pub fn insert(&mut self, index: usize, value: T)
        requires
            old(self).wf(),
            index <= old(self)@.len(),
            old(self).can_take_one(),
        ensures
            final(self).wf(),
            final(self)@ == old(self)@.insert(index as int, value),
            final(self).capacity() == if old(self)@.len() == old(self).capacity() {
                grown(old(self).capacity())
            } else {
                old(self).capacity() as int
            },
    {
        if self.buf.len() == self.cap {
            self.grow();
        }
        self.buf.insert(index, value);
    }

    /// Takes the item at `index` out and moves what stood behind it one
    /// place forward. The capacity stays.
    pub fn remove(&mut self, index: usize) -> (value: T)
        requires
            old(self).wf(),
            index < old(self)@.len(),
        ensures
            final(self).wf(),
            value == old(self)@[index as int],
            final(self)@ == old(self)@.remove(index as int),
            final(self).capacity() == old(self).capacity(),
    {
        self.buf.remove(index)
    }

    /// Appends the items in their order. Room for all of them is made
    /// before the first one is moved, by growing as often as it takes.
    pub fn extend(&mut self, items: std::vec::Vec<T>)
        requires
            old(self).wf(),
            old(self).can_take(items@.len() as int),
        ensures
            final(self).wf(),
            final(self)@ == old(self)@ + items@,
            final(self).capacity() == grown_to(
                old(self).capacity(),
                (old(self)@.len() + items@.len()) as int,
            ),
    {
        let need_more: usize = items.len();
        let ghost need: int = self.buf@.len() + need_more;
        let ghost target: int = grown_to(self.cap, need);
        while self.cap - self.buf.len() < need_more
            invariant
                self.wf(),
                self.buf@ == old(self).buf@,
                need == self.buf@.len() + need_more,
                grown_to(self.cap, need) == target,
                target == grown_to(old(self).cap, need),
                self.cap < need ==> allocatable::<T>(target),
            decreases
                    if self.cap < need {
                        need - self.cap
                    } else {
                        0
                    },
        {
            proof {
                lemma_growth_step::<T>(self.cap, need);
            }
            self.grow();
        }
        let mut items = items;
        self.buf.append(&mut items);
    }

    /// Takes all the items out. The capacity stays.
    pub fn drain(&mut self) -> (drain: Drain<T>)
        requires
            old(self).wf(),
        ensures
            final(self).wf(),
            drain@ == old(self)@,
            final(self)@.len() == 0,
            final(self).capacity() == old(self).capacity(),
    {
        let mut taken: std::vec::Vec<T> = std::vec::Vec::new();
        taken.append(&mut self.buf);
        Drain { iter: deque_from(taken) }
    }

    /// Gives the array up for its items.
    pub fn into_iter(self) -> (iter: IntoIter<T>)
        ensures
            iter@ == self@,
    {
        IntoIter { iter: deque_from(self.buf) }
    }
}

impl<T> Drain<T> {
    pub fn next(&mut self) -> (item: Option<T>)
        ensures
            old(self)@.len() == 0 ==> item is None && final(self)@ == old(self)@,
            old(self)@.len() > 0 ==> item == Some(old(self)@.first()) && final(self)@ == old(
                self,
            )@.drop_first(),
    {
        let item = self.iter.pop_front();
        assert(old(self)@.len() > 0 ==> self@ =~= old(self)@.drop_first());
        item
    }

    pub fn next_back(&mut self) -> (item: Option<T>)
        ensures
            old(self)@.len() == 0 ==> item is None && final(self)@ == old(self)@,
            old(self)@.len() > 0 ==> item == Some(old(self)@.last()) && final(self)@ == old(
                self,
            )@.drop_last(),
    {
        let item = self.iter.pop_back();
        assert(old(self)@.len() > 0 ==> self@ =~= old(self)@.drop_last());
        item
    }

    pub fn size_hint(&self) -> (hint: (usize, Option<usize>))
        ensures
            hint.0 == self@.len(),
            hint.1 == Some(hint.0),
    {
        let len: usize = self.iter.len();
        (len, Some(len))
    }
}

impl<T> IntoIter<T> {
    pub fn next(&mut self) -> (item: Option<T>)
        ensures
            old(self)@.len() == 0 ==> item is None && final(self)@ == old(self)@,
            old(self)@.len() > 0 ==> item == Some(old(self)@.first()) && final(self)@ == old(
                self,
            )@.drop_first(),
    {
        let item = self.iter.pop_front();
        assert(old(self)@.len() > 0 ==> self@ =~= old(self)@.drop_first());
        item
    }

    pub fn next_back(&mut self) -> (item: Option<T>)
        ensures
            old(self)@.len() == 0 ==> item is None && final(self)@ == old(self)@,
            old(self)@.len() > 0 ==> item == Some(old(self)@.last()) && final(self)@ == old(
                self,
            )@.drop_last(),
    {
        let item = self.iter.pop_back();
        assert(old(self)@.len() > 0 ==> self@ =~= old(self)@.drop_last());
        item
    }

    pub fn size_hint(&self) -> (hint: (usize, Option<usize>))
        ensures
            hint.0 == self@.len(),
            hint.1 == Some(hint.0),
    {
        let len: usize = self.iter.len();
        (len, Some(len))
    }
}

} // verus!

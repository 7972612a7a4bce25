//! Applying a function to each item of a run as it is taken.
use vstd::prelude::*;
use std::collections::VecDeque;
use crate::safe::flatten::deque_from;

verus! {

/// A run of items together with the function that each item goes through.
pub struct Mapped<I, F> {
    iter: I,
    f: F,
}

impl<I, F> Mapped<I, F> {
    /// The run that has not been taken yet.
    pub closed spec fn inner(&self) -> I {
        self.iter
    }

    /// The function.
    pub closed spec fn function(&self) -> F {
        self.f
    }

    pub fn new(iter: I, f: F) -> (mapped: Self)
        ensures
            mapped.inner() == iter,
            mapped.function() == f,
    {
        Self { iter, f }
    }

    pub fn into_inner(self) -> (iter: I)
        ensures
            iter == self.inner(),
    {
        self.iter
    }
}

impl<T, R, F: Fn(T) -> R> Mapped<VecDeque<T>, F> {
    /// Takes the first item and hands back what the function makes of it.
    pub fn next(&mut self) -> (item: Option<R>)
        requires
            old(self).inner()@.len() > 0 ==> old(self).function().requires(
                (old(self).inner()@.first(),),
            ),
        ensures
            final(self).function() == old(self).function(),
            old(self).inner()@.len() == 0 ==> item is None && final(self).inner()@.len() == 0,
            old(self).inner()@.len() > 0 ==> item is Some && old(self).function().ensures(
                (old(self).inner()@.first(),),
                item->0,
            ) && final(self).inner()@ == old(self).inner()@.drop_first(),
    {
        match self.iter.pop_front() {
            Some(x) => {
                proof {
                    assert(self.iter@ =~= old(self).iter@.drop_first());
                }
                Some((self.f)(x))
            },
            None => None,
        }
    }

    /// Takes the last item and hands back what the function makes of it.
    pub fn next_back(&mut self) -> (item: Option<R>)
        requires
            old(self).inner()@.len() > 0 ==> old(self).function().requires(
                (old(self).inner()@.last(),),
            ),
        ensures
            final(self).function() == old(self).function(),
            old(self).inner()@.len() == 0 ==> item is None && final(self).inner()@.len() == 0,
            old(self).inner()@.len() > 0 ==> item is Some && old(self).function().ensures(
                (old(self).inner()@.last(),),
                item->0,
            ) && final(self).inner()@ == old(self).inner()@.drop_last(),
    {
        match self.iter.pop_back() {
            Some(x) => {
                proof {
                    assert(self.iter@ =~= old(self).iter@.drop_last());
                }
                Some((self.f)(x))
            },
            None => None,
        }
    }

    /// A lower and an upper bound on how many items are still to come.
    pub fn size_hint(&self) -> (hint: (usize, Option<usize>))
        ensures
            hint.0 == self.inner()@.len(),
            hint.1 == Some(hint.0),
    {
        let len: usize = self.iter.len();
        (len, Some(len))
    }
}

/// Adaptors as methods.
pub trait IteratorExt<T>: Sized {
    spec fn items(&self) -> Seq<T>;

    /// The items, each to go through `f` as it is taken.
    fn my_map<F>(self, f: F) -> (mapped: Mapped<VecDeque<T>, F>)
        ensures
            mapped.inner()@ == self.items(),
            mapped.function() == f,
    ;
}

impl<T> IteratorExt<T> for Vec<T> {
    open spec fn items(&self) -> Seq<T> {
        self@
    }

    fn my_map<F>(self, f: F) -> (mapped: Mapped<VecDeque<T>, F>) {
        Mapped::new(deque_from(self), f)
    }
}

} // verus!

//! Flattening rows of items into one run of items that can be taken from
//! either end.
use vstd::prelude::*;
use std::collections::VecDeque;

verus! {

/// The vector's items in the same order, as a deque.
pub fn deque_from<T>(items: Vec<T>) -> (deque: VecDeque<T>)
    ensures
        deque@ == items@,
{
    let ghost all = items@;
    let mut rest = items;
    let mut deque: VecDeque<T> = VecDeque::new();
    while rest.len() > 0
        invariant
            rest@ + deque@ == all,
        decreases rest@.len(),
    {
        let ghost before_rest = rest@;
        let ghost before_deque = deque@;
        match rest.pop() {
            Some(item) => {
                deque.push_front(item);
                proof {
                    assert(before_rest =~= rest@.push(item));
                    assert(deque@ =~= seq![item] + before_deque);
                    assert(rest@ + deque@ =~= before_rest + before_deque);
                }
            },
            None => {},
        }
    }
    proof {
        assert(rest@ + deque@ =~= deque@);
    }
    deque
}

/// The rows one after the other.
pub open spec fn concat<T>(rows: Seq<Vec<T>>) -> Seq<T>
    decreases rows.len(),
{
    if rows.len() == 0 {
        Seq::empty()
    } else {
        rows.first()@ + concat(rows.drop_first())
    }
}

/// What is left of a row that has been opened, if one has been.
pub open spec fn opened<T>(row: Option<VecDeque<T>>) -> Seq<T> {
    match row {
        Some(items) => items@,
        None => Seq::empty(),
    }
}

/// The rows can as well be put together from the back.
pub proof fn lemma_concat_from_back<T>(rows: Seq<Vec<T>>)
    requires
        rows.len() > 0,
    ensures
        concat(rows) == concat(rows.drop_last()) + rows.last()@,
    decreases rows.len(),
{
    if rows.len() == 1 {
        assert(rows.drop_first() =~= Seq::<Vec<T>>::empty());
        assert(rows.drop_last() =~= Seq::<Vec<T>>::empty());
        assert(concat(rows) =~= rows.last()@);
        assert(concat(rows.drop_last()) + rows.last()@ =~= rows.last()@);
    } else {
        let tail = rows.drop_first();
        lemma_concat_from_back(tail);
        assert(tail.drop_last() =~= rows.drop_last().drop_first());
        assert(rows.drop_last().first() == rows.first());
        assert(tail.last() == rows.last());
        assert(concat(rows) =~= concat(rows.drop_last()) + rows.last()@);
    }
}

/// Rows of items, read as one run. `outer` holds the rows that have not been
/// opened; `front_iter` and `back_iter` hold what is left of the row that was
/// opened last from the front and from the back.
pub struct Flatten<T> {
    pub outer: VecDeque<Vec<T>>,
    pub front_iter: Option<VecDeque<T>>,
    pub back_iter: Option<VecDeque<T>>,
}

impl<T> View for Flatten<T> {
    type V = Seq<T>;

    /// The items that are still to come, front to back.
    open spec fn view(&self) -> Seq<T> {
        opened(self.front_iter) + concat(self.outer@) + opened(self.back_iter)
    }
}

impl<T> Flatten<T> {
    pub fn new(outer: Vec<Vec<T>>) -> (flat: Self)
        ensures
            flat@ == concat(outer@),
            flat.front_iter is None,
            flat.back_iter is None,
            flat.outer@ == outer@,
    {
        let flat = Flatten { outer: deque_from(outer), front_iter: None, back_iter: None };
        assert(flat@ =~= concat(outer@));
        flat
    }

    /// Takes the first of the items that are still to come.
    pub fn next(&mut self) -> (item: Option<T>)
        ensures
            old(self)@.len() == 0 ==> item is None && final(self)@.len() == 0,
            old(self)@.len() > 0 ==> item == Some(old(self)@.first()) && final(self)@ == old(
                self,
            )@.drop_first(),
    {
        loop
            invariant
                self@ == old(self)@,
            decreases
                    2 * self.outer@.len() + if self.front_iter is Some {
                        1int
                    } else {
                        0int
                    },
        {
            let ghost before = *self;
            if let Some(mut inner) = self.front_iter.take() {
                match inner.pop_front() {
                    Some(item) => {
                        self.front_iter = Some(inner);
                        proof {
                            let rest = concat(self.outer@) + opened(self.back_iter);
                            assert(before@ =~= seq![item] + (inner@ + rest));
                            assert(self@ =~= inner@ + rest);
                            assert(before@.drop_first() =~= self@);
                        }
                        return Some(item);
                    },
                    None => {
                        assert(self@ =~= before@);
                    },
                }
            }
            match self.outer.pop_front() {
                Some(row) => {
                    self.front_iter = Some(deque_from(row));
                    proof {
                        assert(before.outer@.drop_first() =~= self.outer@);
                        assert(before.outer@.first() == row);
                        assert(self@ =~= before@);
                    }
                },
                None => {
                    proof {
                        assert(concat(self.outer@) =~= Seq::<T>::empty());
                        assert(self@ =~= opened(self.back_iter));
                    }
                    match self.back_iter.take() {
                        Some(mut back) => {
                            let item = back.pop_front();
                            self.back_iter = Some(back);
                            proof {
                                assert(self@ =~= back@);
                            }
                            return item;
                        },
                        None => {
                            return None;
                        },
                    }
                },
            }
        }
    }

    /// Takes the last of the items that are still to come.
    pub fn next_back(&mut self) -> (item: Option<T>)
        ensures
            old(self)@.len() == 0 ==> item is None && final(self)@.len() == 0,
            old(self)@.len() > 0 ==> item == Some(old(self)@.last()) && final(self)@ == old(
                self,
            )@.drop_last(),
    {
        loop
            invariant
                self@ == old(self)@,
            decreases
                    2 * self.outer@.len() + if self.back_iter is Some {
                        1int
                    } else {
                        0int
                    },
        {
            let ghost before = *self;
            if let Some(mut inner) = self.back_iter.take() {
                match inner.pop_back() {
                    Some(item) => {
                        self.back_iter = Some(inner);
                        proof {
                            let rest = opened(self.front_iter) + concat(self.outer@);
                            assert(before@ =~= (rest + inner@).push(item));
                            assert(self@ =~= rest + inner@);
                            assert(before@.drop_last() =~= self@);
                        }
                        return Some(item);
                    },
                    None => {
                        assert(self@ =~= before@);
                    },
                }
            }
            match self.outer.pop_back() {
                Some(row) => {
                    self.back_iter = Some(deque_from(row));
                    proof {
                        lemma_concat_from_back(before.outer@);
                        assert(before.outer@.drop_last() =~= self.outer@);
                        assert(before.outer@.last() == row);
                        assert(self@ =~= before@);
                    }
                },
                None => {
                    proof {
                        assert(concat(self.outer@) =~= Seq::<T>::empty());
                        assert(self@ =~= opened(self.front_iter));
                    }
                    match self.front_iter.take() {
                        Some(mut front) => {
                            let item = front.pop_back();
                            self.front_iter = Some(front);
                            proof {
                                assert(self@ =~= front@);
                            }
                            return item;
                        },
                        None => {
                            return None;
                        },
                    }
                },
            }
        }
    }

    /// How many items are still to come; they are taken in the counting.
    pub fn count(self) -> (total: usize)
        requires
            self@.len() <= usize::MAX,
        ensures
            total == self@.len(),
    {
        let ghost all = self@;
        let mut rest = self;
        let mut total: usize = 0;
        loop
            invariant
                all == self@,
                all.len() <= usize::MAX,
                total + rest@.len() == all.len(),
            decreases rest@.len(),
        {
            match rest.next() {
                Some(_) => {
                    total = total + 1;
                },
                None => {
                    return total;
                },
            }
        }
    }
}

/// The rows of `outer`, read as one run.
pub fn flatten<T>(outer: Vec<Vec<T>>) -> (flat: Flatten<T>)
    ensures
        flat@ == concat(outer@),
{
    Flatten::new(outer)
}

/// Adaptors as methods.
pub trait IteratorExt<T>: Sized {
    spec fn rows(&self) -> Seq<Vec<T>>;

    /// The rows read as one run.
    fn my_flatten(self) -> (flat: Flatten<T>)
        ensures
            flat@ == concat(self.rows()),
    ;
}

impl<T> IteratorExt<T> for Vec<Vec<T>> {
    open spec fn rows(&self) -> Seq<Vec<T>> {
        self@
    }

    fn my_flatten(self) -> (flat: Flatten<T>) {
        Flatten::new(self)
    }
}

} // verus!

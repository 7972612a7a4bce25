//! The owner counts of shared allocations: who may free the allocation, and
//! when. The counts guard no memory themselves: they are the bookkeeping
//! alone, for pointers that are shared on one thread or across threads.
use vstd::prelude::*;
use std::sync::atomic::AtomicUsize;
use std::sync::atomic::Ordering;
use vstd::predicate::Predicate;
use crate::cell::Cell;

verus! {

/// The most owners that a count shared across threads lets in.
pub const MAX_OWNERS: usize = usize::MAX / 2;

/// Whether the owner that found `previous` owners when it joined is one too
/// many: the process has to stop before the count can wrap.
pub open spec fn clone_overflows(previous: usize) -> bool {
    previous >= MAX_OWNERS
}

/// Whether the owner that found `previous` owners when it left was the last
/// one, who frees the allocation.
pub open spec fn drop_frees(previous: usize) -> bool {
    previous == 1
}

pub fn joined_one_too_many(previous: usize) -> (overflow: bool)
    ensures
        overflow == clone_overflows(previous),
{
    previous >= MAX_OWNERS
}

pub fn left_as_last(previous: usize) -> (last: bool)
    ensures
        last == drop_frees(previous),
{
    previous == 1
}

/// The owner count of an allocation that is shared across threads.
pub struct SharedCount {
    rc: AtomicUsize,
}

impl SharedCount {
    /// The count of an allocation with one owner.
    pub fn new() -> (count: Self) {
        SharedCount { rc: AtomicUsize::new(1) }
    }

    /// One more owner. Returns whether that was one too many; the caller
    /// then stops the process.
    pub fn increment(&self) -> (overflow: bool) {
        let previous: usize = self.rc.fetch_add(1, Ordering::Relaxed);
        joined_one_too_many(previous)
    }

    /// One owner less. Returns whether it was the last one; the caller then
    /// frees the allocation, which no other thread can reach any more.
    pub fn decrement(&self) -> (last: bool) {
        let previous: usize = self.rc.fetch_sub(1, Ordering::Release);
        if !left_as_last(previous) {
            return false;
        }
        self.rc.load(Ordering::Acquire);
        true
    }
}

/// The rule of a count that is asked only by owners: whoever asks is
/// counted, so the count is never zero.
pub struct AtLeastOne;

impl Predicate<usize> for AtLeastOne {
    open spec fn predicate(&self, owners: usize) -> bool {
        owners >= 1
    }
}

/// The count after one more owner; `None` where the count is at its limit.
pub open spec fn after_join(owners: usize) -> Option<usize> {
    if owners < usize::MAX {
        Some((owners + 1) as usize)
    } else {
        None
    }
}

pub fn one_more(owners: usize) -> (next: Option<usize>)
    ensures
        next == after_join(owners),
{
    if owners < usize::MAX {
        Some(owners + 1)
    } else {
        None
    }
}

/// The owner count of an allocation that is shared on one thread.
pub struct LocalCount {
    strong: Cell<usize, AtLeastOne>,
}

impl LocalCount {
    /// The count of an allocation with one owner.
    pub fn new() -> (count: Self) {
        LocalCount { strong: Cell::with_rule(1, Ghost(AtLeastOne)) }
    }

    /// How many owners there are: at least the one that asks.
    pub fn strong(&self) -> (owners: usize)
        ensures
            owners >= 1,
    {
        self.strong.get()
    }

    /// One more owner. Returns `false`, and counts nothing, where the count
    /// is at its limit.
    pub fn increment(&self) -> (counted: bool) {
        match one_more(self.strong.get()) {
            Some(owners) => {
                self.strong.set(owners);
                true
            },
            None => false,
        }
    }

    /// One owner less. Returns whether it was the last one; the caller then
    /// frees the allocation, and the count is left as it is.
    pub fn decrement(&self) -> (last: bool) {
        let owners: usize = self.strong.get();
        if left_as_last(owners) {
            return true;
        }
        self.strong.set(owners - 1);
        false
    }
}

/// The count together with the owners that are alive.
pub struct CountModel {
    pub count: nat,
    pub owners: nat,
    pub freed: bool,
}

pub enum CountEvent {
    /// An owner makes another one.
    Clone,
    /// An owner goes away.
    Drop,
}

pub open spec fn count_initial() -> CountModel {
    CountModel { count: 1, owners: 1, freed: false }
}

pub open spec fn count_enabled(m: CountModel, e: CountEvent) -> bool {
    match e {
        CountEvent::Clone => m.owners > 0 && m.count < MAX_OWNERS,
        CountEvent::Drop => m.owners > 0,
    }
}

pub open spec fn count_apply(m: CountModel, e: CountEvent) -> CountModel {
    match e {
        CountEvent::Clone => CountModel { count: m.count + 1, owners: m.owners + 1, freed: m.freed },
        CountEvent::Drop => CountModel {
            count: (m.count - 1) as nat,
            owners: (m.owners - 1) as nat,
            freed: m.freed || (m.count <= usize::MAX && drop_frees(m.count as usize)),
        },
    }
}

pub open spec fn count_valid_run(m: CountModel, events: Seq<CountEvent>) -> bool
    decreases events.len(),
{
    events.len() == 0 || (count_enabled(m, events[0]) && count_valid_run(
        count_apply(m, events[0]),
        events.drop_first(),
    ))
}

pub open spec fn count_run(m: CountModel, events: Seq<CountEvent>) -> CountModel
    decreases events.len(),
{
    if events.len() == 0 {
        m
    } else {
        count_run(count_apply(m, events[0]), events.drop_first())
    }
}

/// The count is the number of owners, and the allocation is freed exactly
/// when there is none.
pub open spec fn count_consistent(m: CountModel) -> bool {
    &&& m.count == m.owners
    &&& m.count <= MAX_OWNERS
    &&& m.freed <==> m.owners == 0
}

proof fn lemma_count_run_keeps_consistent(m: CountModel, events: Seq<CountEvent>)
    requires
        count_consistent(m),
        count_valid_run(m, events),
    ensures
        count_consistent(count_run(m, events)),
    decreases events.len(),
{
    if events.len() > 0 {
        lemma_count_run_keeps_consistent(count_apply(m, events[0]), events.drop_first());
    }
}

/// Freed once, by the last owner: however owners come and go, the
/// allocation is freed exactly when no owner is left, nothing happens to it
/// after that, and no owner ever finds the count at zero.
pub proof fn lemma_freed_by_the_last_owner(events: Seq<CountEvent>)
    requires
        count_valid_run(count_initial(), events),
    ensures
        ({
            let m = count_run(count_initial(), events);
            &&& m.freed <==> m.owners == 0
            &&& m.count == m.owners
            &&& m.freed ==> !count_enabled(m, CountEvent::Clone) && !count_enabled(
                m,
                CountEvent::Drop,
            )
        }),
{
    lemma_count_run_keeps_consistent(count_initial(), events);
}

} // verus!

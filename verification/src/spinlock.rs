//! The smallest exclusive lock: one flag, taken by compare-and-swap and
//! waited for by spinning. It never parks.
//!
//! The lock carries no data: it is the protocol alone. The guard is the
//! capability that the protocol hands out; whoever holds it calls `unlock`.
use vstd::prelude::*;
use std::sync::atomic::AtomicBool;
use std::sync::atomic::Ordering;
use crate::futex::spin_hint;

verus! {

pub struct SpinLock {
    locked: AtomicBool,
}

pub struct SpinLockGuard<'a> {
    lock: &'a SpinLock,
}

impl<'a> SpinLockGuard<'a> {
    /// The lock that this guard stands for.
    pub closed spec fn spinlock(&self) -> &'a SpinLock {
        self.lock
    }

    /// A guard for `lock`. It takes nothing: the caller must have set the
    /// flag, as `SpinLock::lock` does before it calls this.
    pub fn new(lock: &'a SpinLock) -> (guard: Self)
        ensures
            guard.spinlock() == lock,
    {
        SpinLockGuard { lock }
    }

    /// Clears the flag.
    pub fn unlock(self) -> (lock: &'a SpinLock)
        ensures
            lock == self.spinlock(),
    {
        self.lock.locked.store(false, Ordering::Release);
        self.lock
    }
}

impl SpinLock {
    /// An unlocked lock.
    pub fn new() -> (lock: SpinLock) {
        SpinLock { locked: AtomicBool::new(false) }
    }

    /// Takes the lock by compare-and-swap from clear to set, spinning at most
    /// `spins` times in between. It never blocks.
    ///
    /// Whether a compare-and-swap wins depends on the other threads, so
    /// nothing here promises a guard.
    pub fn lock(&self, spins: u64) -> (result: Option<SpinLockGuard<'_>>)
        ensures
            result matches Some(guard) ==> guard.spinlock() == self,
    {
        let mut left: u64 = spins;
        loop
            decreases left,
        {
            if self.locked.compare_exchange_weak(
                false,
                true,
                Ordering::Acquire,
                Ordering::Relaxed,
            ).is_ok() {
                return Some(SpinLockGuard::new(self));
            }
            if left == 0 {
                return None;
            }
            left = left - 1;
            spin_hint();
        }
    }
}

/// The flag together with the guards that are alive.
pub struct SpinModel {
    pub locked: bool,
    pub holders: nat,
}

pub enum SpinEvent {
    /// A compare-and-swap from clear to set succeeds.
    Acquire,
    /// A guard is released.
    Release,
}

pub open spec fn spin_initial() -> SpinModel {
    SpinModel { locked: false, holders: 0 }
}

pub open spec fn spin_enabled(m: SpinModel, e: SpinEvent) -> bool {
    match e {
        SpinEvent::Acquire => !m.locked,
        SpinEvent::Release => m.holders > 0,
    }
}

pub open spec fn spin_apply(m: SpinModel, e: SpinEvent) -> SpinModel {
    match e {
        SpinEvent::Acquire => SpinModel { locked: true, holders: m.holders + 1 },
        SpinEvent::Release => SpinModel { locked: false, holders: (m.holders - 1) as nat },
    }
}

pub open spec fn spin_valid_run(m: SpinModel, events: Seq<SpinEvent>) -> bool
    decreases events.len(),
{
    events.len() == 0 || (spin_enabled(m, events[0]) && spin_valid_run(
        spin_apply(m, events[0]),
        events.drop_first(),
    ))
}

pub open spec fn spin_run(m: SpinModel, events: Seq<SpinEvent>) -> SpinModel
    decreases events.len(),
{
    if events.len() == 0 {
        m
    } else {
        spin_run(spin_apply(m, events[0]), events.drop_first())
    }
}

/// The flag is set exactly while one guard is alive, and never more than one is.
pub open spec fn spin_exclusive(m: SpinModel) -> bool {
    m.holders == if m.locked {
        1nat
    } else {
        0nat
    }
}

proof fn lemma_spin_run_keeps_exclusive(m: SpinModel, events: Seq<SpinEvent>)
    requires
        spin_exclusive(m),
        spin_valid_run(m, events),
    ensures
        spin_exclusive(spin_run(m, events)),
    decreases events.len(),
{
    if events.len() > 0 {
        lemma_spin_run_keeps_exclusive(spin_apply(m, events[0]), events.drop_first());
    }
}

/// Mutual exclusion: however acquisitions and releases interleave, at most
/// one guard is alive, and while one is no compare-and-swap succeeds.
pub proof fn lemma_spin_mutual_exclusion(events: Seq<SpinEvent>)
    requires
        spin_valid_run(spin_initial(), events),
    ensures
        spin_run(spin_initial(), events).holders <= 1,
        spin_run(spin_initial(), events).holders == 1 ==> !spin_enabled(
            spin_run(spin_initial(), events),
            SpinEvent::Acquire,
        ),
{
    lemma_spin_run_keeps_exclusive(spin_initial(), events);
}

} // verus!

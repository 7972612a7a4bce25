//! A condition variable for `Mutex`: a notification counter that doubles as
//! the word to park on, and a count of waiters that lets a notifier skip its
//! work when nobody waits.
use vstd::prelude::*;
use std::sync::atomic::AtomicU32;
use std::sync::atomic::AtomicUsize;
use std::sync::atomic::Ordering;
use crate::futex::wake_all;
use crate::futex::wake_one;
use crate::mutex::Mutex;
use crate::mutex::MutexGuard;

verus! {

/// Whether a notifier that found `waiters` registered has nothing to do.
pub open spec fn notify_skips(waiters: usize) -> bool {
    waiters == 0
}

pub fn nobody_waits(waiters: usize) -> (skip: bool)
    ensures
        skip == notify_skips(waiters),
{
    waiters == 0
}

pub struct Condvar {
    counter: AtomicU32,
    waiter: AtomicUsize,
}

/// A waiter between releasing the mutex and parking: the mutex to take
/// again, and the counter as it was while the mutex was still held.
pub struct Waiting<'a> {
    mutex: &'a Mutex,
    sampled: u32,
}

impl<'a> Waiting<'a> {
    /// The mutex that was released.
    pub closed spec fn mutex(&self) -> &'a Mutex {
        self.mutex
    }
}

impl Condvar {
    pub fn new() -> (condvar: Condvar) {
        Condvar { counter: AtomicU32::new(0), waiter: AtomicUsize::new(0) }
    }

    /// The first half of a wait: samples the counter, registers as a waiter
    /// and releases the mutex, in this order. The sample is taken while the
    /// mutex is still held, so every notification that follows the release
    /// finds the counter at the sample or moves it on.
    pub fn release_for_wait<'a>(&self, guard: MutexGuard<'a>) -> (waiting: Waiting<'a>)
        ensures
            waiting.mutex() == guard.mutex(),
    {
        let sampled: u32 = self.counter.load(Ordering::Relaxed);
        self.waiter.fetch_add(1, Ordering::Relaxed);
        let mutex: &'a Mutex = guard.unlock();
        Waiting { mutex, sampled }
    }

    /// The second half of a wait: parks until the counter differs from the
    /// sample or a wake comes, deregisters, and takes the mutex again,
    /// backing off at most `rounds` times. The park returns at once where a
    /// notification has moved the counter since the sample was taken.
    ///
    /// The guard that comes back is for the mutex that was released. Where
    /// the mutex was not taken again within `rounds` rounds the result is
    /// `None`, and the caller holds nothing.
    pub fn park_and_relock<'a>(&self, waiting: Waiting<'a>, rounds: u64) -> (result: Option<
        MutexGuard<'a>,
    >)
        ensures
            result matches Some(back) ==> back.mutex() == waiting.mutex(),
    {
        atomic_wait::wait(&self.counter, waiting.sampled);
        self.waiter.fetch_sub(1, Ordering::Relaxed);
        waiting.mutex.lock(rounds)
    }

    /// Releases the mutex, parks until notified, and takes the mutex again:
    /// `release_for_wait`, then `park_and_relock`.
    ///
    /// The guard that comes back is for the mutex of the guard that went in.
    /// Where the mutex was not taken again within `rounds` rounds the result
    /// is `None`, and the caller holds nothing.
    pub fn wait<'a>(&self, guard: MutexGuard<'a>, rounds: u64) -> (result: Option<MutexGuard<'a>>)
        ensures
            result matches Some(back) ==> back.mutex() == guard.mutex(),
    {
        let waiting = self.release_for_wait(guard);
        self.park_and_relock(waiting, rounds)
    }

    /// Wakes at most one waiter; does nothing where none is registered.
    pub fn notify_one(&self) {
        if nobody_waits(self.waiter.load(Ordering::Relaxed)) {
            return;
        }
        self.counter.fetch_add(1, Ordering::Relaxed);
        wake_one(&self.counter);
    }

    /// Wakes all waiters; does nothing where none is registered.
    pub fn notify_all(&self) {
        if nobody_waits(self.waiter.load(Ordering::Relaxed)) {
            return;
        }
        self.counter.fetch_add(1, Ordering::Relaxed);
        wake_all(&self.counter);
    }
}

} // verus!

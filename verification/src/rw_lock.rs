//! A reader/writer lock with writer preference, built on one state word and
//! the wait/wake primitive.
//!
//! The state word counts readers in steps of two. The low bit says that a
//! writer is waiting, and the all-ones word says that a writer holds the lock.
//! A second word, the write waker, is only a rendezvous for parked writers.
//!
//! The lock carries no data: it is the protocol alone. A guard is the
//! capability that the protocol hands out; whoever holds it calls `release`.
use vstd::prelude::*;
use std::sync::atomic::AtomicU32;
use std::sync::atomic::Ordering;
use crate::futex::wake_one;
use crate::futex::wake_all;

verus! {

/// The state word while a writer holds the lock.
pub const WRITE_LOCKED: u32 = 0xffff_ffff;

/// What a reader does after it has seen a state word.
pub enum ReadPlan {
    /// No writer holds or waits: try to swap the word for `next`.
    Admit { next: u32 },
    /// A writer holds or waits: park on the state word.
    Park,
    /// One more reader would not fit in the word.
    Overflow,
}

/// What a writer does after it has seen a state word.
pub enum WritePlan {
    /// No reader is active: try to swap the word for `WRITE_LOCKED`.
    Claim,
    /// Readers are active and none has been told: try to swap the word for `next`.
    MarkPending { next: u32 },
    /// Readers are active and know that a writer waits: park on the write waker.
    Park,
}

/// The reader's rule.
pub open spec fn read_plan(state: u32) -> ReadPlan {
    if state % 2 == 1 {
        ReadPlan::Park
    } else if state < WRITE_LOCKED - 2 {
        ReadPlan::Admit { next: (state + 2) as u32 }
    } else {
        ReadPlan::Overflow
    }
}

/// The writer's rule.
pub open spec fn write_plan(state: u32) -> WritePlan {
    if state <= 1 {
        WritePlan::Claim
    } else if state % 2 == 0 {
        WritePlan::MarkPending { next: (state + 1) as u32 }
    } else {
        WritePlan::Park
    }
}

/// Whether a writer that is about to park still has a reason to: readers
/// were active when it looked again.
pub open spec fn writer_should_park(state: u32) -> bool {
    state > 2
}

/// Whether the reader that found `previous` in the word when it left was the
/// last one, with a writer waiting.
pub open spec fn last_reader_left_writer_waiting(previous: u32) -> bool {
    previous == 3
}

pub fn plan_read(state: u32) -> (plan: ReadPlan)
    ensures
        plan == read_plan(state),
{
    if state % 2 == 1 {
        ReadPlan::Park
    } else if state < WRITE_LOCKED - 2 {
        ReadPlan::Admit { next: state + 2 }
    } else {
        ReadPlan::Overflow
    }
}

pub fn plan_write(state: u32) -> (plan: WritePlan)
    ensures
        plan == write_plan(state),
{
    if state <= 1 {
        WritePlan::Claim
    } else if state % 2 == 0 {
        WritePlan::MarkPending { next: state + 1 }
    } else {
        WritePlan::Park
    }
}

pub struct RwLock {
    state: AtomicU32,
    write_waker: AtomicU32,
}

/// Held by one of possibly many readers.
pub struct ReadGuard<'a> {
    lock: &'a RwLock,
}

/// Held by the one writer.
pub struct WriteGuard<'a> {
    lock: &'a RwLock,
}

/// How one round of `read` ended.
pub enum ReadStep<'a> {
    Acquired(ReadGuard<'a>),
    /// Not acquired; the payload is the state word as last seen.
    Retry(u32),
}

/// Why a read acquisition handed out no guard.
#[derive(Clone, Copy, PartialEq, Eq, Structural, Debug)]
pub enum ReadError {
    /// One more reader would not fit in the word.
    TooManyReaders,
    /// The rounds that the caller allowed are used up.
    OutOfRounds,
}

/// How one round of `write` ended.
pub enum WriteStep<'a> {
    Acquired(WriteGuard<'a>),
    /// Not acquired; the payload is the state word as last seen.
    Retry(u32),
}

impl<'a> ReadGuard<'a> {
    /// The lock that this guard was issued by.
    pub closed spec fn rwlock(&self) -> &'a RwLock {
        self.lock
    }

    /// Gives the read access back. The last reader to leave while a writer
    /// waits bumps the write waker and wakes one writer.
    pub fn release(self) {
        let previous: u32 = self.lock.state.fetch_sub(2, Ordering::Release);
        if reader_must_wake(previous) {
            self.lock.write_waker.fetch_add(1, Ordering::Release);
            wake_one(&self.lock.write_waker);
        }
    }
}

impl<'a> WriteGuard<'a> {
    /// The lock that this guard was issued by.
    pub closed spec fn rwlock(&self) -> &'a RwLock {
        self.lock
    }

    /// Gives the write access back: the word goes to zero, one parked writer
    /// and all parked readers are woken.
    pub fn release(self) {
        self.lock.state.store(0, Ordering::Release);
        self.lock.write_waker.fetch_add(1, Ordering::Release);
        wake_one(&self.lock.write_waker);
        wake_all(&self.lock.state);
    }
}

/// The test a leaving reader makes on the word it found.
pub fn reader_must_wake(previous: u32) -> (wake: bool)
    ensures
        wake == last_reader_left_writer_waiting(previous),
{
    previous == 3
}

/// The test a reader makes before it parks.
pub fn reader_parks(seen: u32) -> (park: bool)
    ensures
        park == (read_plan(seen) is Park),
{
    seen % 2 == 1
}

/// The test a writer makes before it parks.
pub fn writer_parks(state: u32) -> (park: bool)
    ensures
        park == writer_should_park(state),
{
    state > 2
}

impl RwLock {
    /// An unlocked lock: no reader, no writer, nobody waiting.
    pub fn new() -> (lock: RwLock) {
        RwLock { state: AtomicU32::new(0), write_waker: AtomicU32::new(0) }
    }

    /// The state word as it is now. Another thread may change it at once.
    pub fn observe(&self) -> u32 {
        self.state.load(Ordering::Relaxed)
    }

    /// One round of a read acquisition, for a reader that last saw `state`;
    /// the caller repeats it with the word of each `Retry` until it is let
    /// in. A round parks where a writer holds or waits.
    ///
    /// A word at which one more reader would not fit is a fault of the
    /// program and is not taken: `read_checked` tests for it. A guard is
    /// handed out only where the reader's rule admits `state`.
    pub fn read(&self, state: u32) -> (step: ReadStep<'_>)
        requires
            !(read_plan(state) is Overflow),
        ensures
            step matches ReadStep::Acquired(guard) ==> read_plan(state) is Admit && guard.rwlock()
                == self,
    {
        let mut seen: u32 = state;
        match plan_read(seen) {
            ReadPlan::Admit { next } => {
                match self.state.compare_exchange_weak(
                    seen,
                    next,
                    Ordering::Acquire,
                    Ordering::Relaxed,
                ) {
                    Ok(_) => {
                        return ReadStep::Acquired(ReadGuard { lock: self });
                    },
                    Err(current) => {
                        seen = current;
                    },
                }
            },
            _ => {},
        }
        if reader_parks(seen) {
            atomic_wait::wait(&self.state, seen);
            seen = self.state.load(Ordering::Relaxed);
        }
        ReadStep::Retry(seen)
    }

    /// One round of a read acquisition for a reader that last saw `state`,
    /// whatever `state` is: the round is refused exactly where one more
    /// reader would not fit in the word, and nothing is touched then.
    pub fn read_checked(&self, state: u32) -> (result: Result<ReadStep<'_>, ReadError>)
        ensures
            result is Err <==> read_plan(state) is Overflow,
            result matches Err(error) ==> error == ReadError::TooManyReaders,
            result matches Ok(ReadStep::Acquired(guard)) ==> read_plan(state) is Admit
                && guard.rwlock() == self,
    {
        match plan_read(state) {
            ReadPlan::Overflow => Err(ReadError::TooManyReaders),
            _ => Ok(self.read(state)),
        }
    }

    /// One round of a write acquisition, for a writer that last saw `state`;
    /// the caller repeats it with the word of each `Retry` until it is let
    /// in. A round parks where readers are active. A writer that has started
    /// must go on until it is in and then release: the waiting bit it may
    /// have set holds readers back until a writer's release wakes them.
    ///
    /// A guard is handed out only where the writer's rule lets it claim.
    pub fn write(&self, state: u32) -> (step: WriteStep<'_>)
        ensures
            match step {
                WriteStep::Acquired(guard) => write_plan(state) is Claim && guard.rwlock() == self,
                WriteStep::Retry(_) => true,
            },
    {
        match plan_write(state) {
            WritePlan::Claim => {
                match self.state.compare_exchange(
                    state,
                    WRITE_LOCKED,
                    Ordering::Acquire,
                    Ordering::Relaxed,
                ) {
                    Ok(_) => {
                        return WriteStep::Acquired(WriteGuard { lock: self });
                    },
                    Err(current) => {
                        return WriteStep::Retry(current);
                    },
                }
            },
            WritePlan::MarkPending { next } => {
                match self.state.compare_exchange(
                    state,
                    next,
                    Ordering::Acquire,
                    Ordering::Relaxed,
                ) {
                    Ok(_) => {},
                    Err(current) => {
                        return WriteStep::Retry(current);
                    },
                }
            },
            WritePlan::Park => {},
        }
        let ticket: u32 = self.write_waker.load(Ordering::Acquire);
        let mut seen: u32 = self.state.load(Ordering::Relaxed);
        if writer_parks(seen) {
            atomic_wait::wait(&self.write_waker, ticket);
            seen = self.state.load(Ordering::Relaxed);
        }
        WriteStep::Retry(seen)
    }

    /// Acquires read access in at most `rounds` rounds of `read_checked`,
    /// beginning with the word as it is. A reader that gives up leaves
    /// nothing behind.
    ///
    /// Whether a round wins depends on the other threads, so no guard is
    /// promised; with no round allowed none is tried.
    pub fn read_within(&self, rounds: u64) -> (result: Result<ReadGuard<'_>, ReadError>)
        ensures
            rounds == 0 ==> result is Err && result->Err_0 == ReadError::OutOfRounds,
            result matches Ok(guard) ==> guard.rwlock() == self,
    {
        let mut state: u32 = self.state.load(Ordering::Relaxed);
        let mut left: u64 = rounds;
        while left > 0
            invariant
                left <= rounds,
            decreases left,
        {
            match self.read_checked(state) {
                Ok(ReadStep::Acquired(guard)) => {
                    return Ok(guard);
                },
                Ok(ReadStep::Retry(seen)) => {
                    state = seen;
                },
                Err(error) => {
                    return Err(error);
                },
            }
            left = left - 1;
        }
        Err(ReadError::OutOfRounds)
    }

    /// Acquires write access in at most `rounds` rounds of `write`, beginning
    /// with the word as it is. A writer that gives up after a round has set
    /// the waiting bit leaves the bit in the word: readers are then held
    /// back until a writer has been in and released, so the caller comes
    /// back for the lock.
    ///
    /// Whether a round wins depends on the other threads, so no guard is
    /// promised; with no round allowed none is tried.
    pub fn write_within(&self, rounds: u64) -> (result: Option<WriteGuard<'_>>)
        ensures
            rounds == 0 ==> result is None,
            result matches Some(guard) ==> guard.rwlock() == self,
    {
        let mut state: u32 = self.state.load(Ordering::Relaxed);
        let mut left: u64 = rounds;
        while left > 0
            invariant
                left <= rounds,
            decreases left,
        {
            match self.write(state) {
                WriteStep::Acquired(guard) => {
                    return Some(guard);
                },
                WriteStep::Retry(seen) => {
                    state = seen;
                },
            }
            left = left - 1;
        }
        None
    }
}

} // verus!

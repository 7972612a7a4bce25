//! A mutual-exclusion lock on one state word: a lock-free fast path, a short
//! spin, then parking on the wait/wake primitive.
//!
//! The lock carries no data: it is the protocol alone. The guard is the
//! capability that the protocol hands out; whoever holds it calls `unlock`.
use vstd::prelude::*;
use std::sync::atomic::AtomicU32;
use std::sync::atomic::Ordering;
use crate::futex::spin_hint;
use crate::futex::wake_one;

verus! {

/// Nobody holds the lock.
pub const UNLOCKED: u32 = 0;

/// Somebody holds the lock and nobody has contended for it since.
pub const LOCKED: u32 = 1;

/// Somebody holds the lock, and a thread has contended for it: the release
/// has to wake one.
pub const CONTENDED: u32 = 2;

/// How many rounds of the contended path give the spin hint before parking.
pub const SPIN_LIMIT: u32 = 100;

/// Whether the swap that found `previous` in the word took the lock.
pub open spec fn swap_acquires(previous: u32) -> bool {
    previous == UNLOCKED
}

/// Whether the release that found `previous` in the word has to wake a thread.
pub open spec fn release_wakes(previous: u32) -> bool {
    previous == CONTENDED
}

/// The spin count after one more failed round.
pub open spec fn spin_after(spin_count: u32) -> u32 {
    if spin_count < SPIN_LIMIT {
        (spin_count + 1) as u32
    } else {
        spin_count
    }
}

/// The spin count after `rounds` failed rounds, beginning at none.
pub open spec fn spins_after_rounds(rounds: int) -> int {
    if rounds <= SPIN_LIMIT {
        rounds
    } else {
        SPIN_LIMIT as int
    }
}

pub fn swap_acquired(previous: u32) -> (acquired: bool)
    ensures
        acquired == swap_acquires(previous),
{
    previous == UNLOCKED
}

pub fn release_must_wake(previous: u32) -> (wake: bool)
    ensures
        wake == release_wakes(previous),
{
    previous == CONTENDED
}

pub struct Mutex {
    locked: AtomicU32,
}

pub struct MutexGuard<'a> {
    lock: &'a Mutex,
    steps: Ghost<Seq<Step>>,
}

/// One operation of a thread that tries to take the lock, with what the
/// operation found.
pub enum Step {
    /// The compare-and-swap from `UNLOCKED` to `LOCKED`, and whether it won.
    Fast { won: bool },
    /// A swap of `CONTENDED` into the word, and the word that it found.
    Swap { previous: u32 },
    /// A back-off that gave the spin hint.
    Spin,
    /// A back-off that parked on the word, to sleep while it holds
    /// `CONTENDED`.
    Park,
}

/// Where a thread stands in its attempt to take the lock.
pub enum Stage {
    /// About to try the fast path.
    Start,
    /// About to swap, after this many back-offs.
    Contending { backoffs: int },
    /// A swap has failed after this many back-offs; about to back off.
    Backing { backoffs: int },
    /// The lock is taken.
    Taken,
    /// The attempt has ended without the lock.
    GivenUp,
}

/// The back-off that follows a failed swap after `backoffs` back-offs: the
/// spin hint while the spin budget lasts, a park after that.
pub open spec fn backoff_step(backoffs: int) -> Step {
    if backoffs < SPIN_LIMIT {
        Step::Spin
    } else {
        Step::Park
    }
}

/// Where a step takes an attempt that may back off `rounds` times; `None`
/// where the step is not the one that the attempt makes at that stage.
///
/// The fast path ends the attempt where it wins. A swap ends it with the
/// lock where it found `UNLOCKED`, and without where no back-off is left;
/// so an attempt gives up right after a swap and nowhere else.
pub open spec fn stage_after(stage: Stage, step: Step, rounds: u64) -> Option<Stage> {
    match (stage, step) {
        (Stage::Start, Step::Fast { won }) => Some(
            if won {
                Stage::Taken
            } else {
                Stage::Contending { backoffs: 0 }
            },
        ),
        (Stage::Contending { backoffs }, Step::Swap { previous }) => Some(
            if swap_acquires(previous) {
                Stage::Taken
            } else if backoffs >= rounds {
                Stage::GivenUp
            } else {
                Stage::Backing { backoffs }
            },
        ),
        (Stage::Backing { backoffs }, _) => if step == backoff_step(backoffs) {
            Some(Stage::Contending { backoffs: backoffs + 1 })
        } else {
            None
        },
        _ => None,
    }
}

/// Where the steps take an attempt from its start; `None` where they are
/// not the steps of an attempt.
pub open spec fn stage_after_all(steps: Seq<Step>, rounds: u64) -> Option<Stage>
    decreases steps.len(),
{
    if steps.len() == 0 {
        Some(Stage::Start)
    } else {
        match stage_after_all(steps.drop_last(), rounds) {
            Some(stage) => stage_after(stage, steps.last(), rounds),
            None => None,
        }
    }
}

/// One more step takes the attempt on from where the steps before it left
/// it.
pub proof fn lemma_one_more_step(steps: Seq<Step>, step: Step, rounds: u64)
    ensures
        stage_after_all(steps.push(step), rounds) == match stage_after_all(steps, rounds) {
            Some(stage) => stage_after(stage, step, rounds),
            None => None,
        },
{
    assert(steps.push(step).drop_last() =~= steps);
    assert(steps.push(step).last() == step);
}

/// What became of an attempt to take the lock.
pub struct Attempt {
    /// Whether the lock was taken.
    pub acquired: bool,
    /// How often the thread backed off.
    pub backoffs: u64,
    /// How many of the back-offs gave the spin hint; the others parked.
    pub spins: u32,
    /// The thread's own steps, in their order, each with what it found.
    pub steps: Ghost<Seq<Step>>,
}

/// The fast path: one compare-and-swap from `UNLOCKED` to `LOCKED`.
/// Whether it wins depends on the other threads.
pub fn lock_fast(state: &AtomicU32) -> (acquired: bool) {
    state.compare_exchange(UNLOCKED, LOCKED, Ordering::Acquire, Ordering::Relaxed).is_ok()
}

/// What a thread does between two swaps of the contended path.
#[derive(Clone, Copy, PartialEq, Eq, Structural, Debug)]
pub enum Backoff {
    /// Give the spin hint and swap again at once.
    Spin,
    /// Park on the word until it is no longer `CONTENDED` or a wake comes.
    Park,
}

/// The spin budget absorbs short critical sections; once it is used up every
/// failed round parks.
pub open spec fn backoff_for(spin_count: u32) -> Backoff {
    if spin_count < SPIN_LIMIT {
        Backoff::Spin
    } else {
        Backoff::Park
    }
}

pub fn choose_backoff(spin_count: u32) -> (choice: Backoff)
    ensures
        choice == backoff_for(spin_count),
{
    if spin_count < SPIN_LIMIT {
        Backoff::Spin
    } else {
        Backoff::Park
    }
}

/// Backs off once after a failed swap and returns the spin count to go on
/// with.
pub fn back_off(state: &AtomicU32, spin_count: u32) -> (spins: u32)
    ensures
        spins == spin_after(spin_count),
{
    match choose_backoff(spin_count) {
        Backoff::Spin => {
            spin_hint();
            spin_count + 1
        },
        Backoff::Park => {
            atomic_wait::wait(state, CONTENDED);
            spin_count
        },
    }
}

/// Takes the lock on the word: the fast path, then the contended path, which
/// swaps `CONTENDED` in until the swap finds `UNLOCKED`, backing off at most
/// `rounds` times in between.
///
/// What the operations find is decided by the other threads; what the
/// thread makes of it is stated. Its steps are those of an attempt: it
/// reports the lock taken only after the fast path won or a swap found
/// `UNLOCKED`, it gives up only right after a swap and only when all its
/// back-offs are used, so a thread that was woken always swaps before it
/// leaves; and it spins while the spin budget lasts and parks after that,
/// so with `rounds <= SPIN_LIMIT` it never parks.
pub fn lock_contended(state: &AtomicU32, rounds: u64) -> (attempt: Attempt)
    ensures
        stage_after_all(attempt.steps@, rounds) == Some(
            if attempt.acquired {
                Stage::Taken
            } else {
                Stage::GivenUp
            },
        ),
        attempt.backoffs <= rounds,
        !attempt.acquired ==> attempt.backoffs == rounds,
        attempt.spins == spins_after_rounds(attempt.backoffs + 0),
        rounds <= SPIN_LIMIT ==> attempt.spins == attempt.backoffs,
{
    let ghost mut steps: Seq<Step> = Seq::empty();
    let won: bool = lock_fast(state);
    proof {
        lemma_one_more_step(steps, Step::Fast { won }, rounds);
        steps = steps.push(Step::Fast { won });
    }
    if won {
        return Attempt { acquired: true, backoffs: 0, spins: 0, steps: Ghost(steps) };
    }
    let mut spin_count: u32 = 0;
    let mut left: u64 = rounds;
    loop
        invariant
            left <= rounds,
            spin_count == spins_after_rounds(rounds - left),
            stage_after_all(steps, rounds) == Some(Stage::Contending { backoffs: rounds - left }),
        decreases left,
    {
        let previous: u32 = state.swap(CONTENDED, Ordering::Acquire);
        proof {
            lemma_one_more_step(steps, Step::Swap { previous }, rounds);
            steps = steps.push(Step::Swap { previous });
        }
        if swap_acquired(previous) {
            return Attempt {
                acquired: true,
                backoffs: rounds - left,
                spins: spin_count,
                steps: Ghost(steps),
            };
        }
        if left == 0 {
            return Attempt {
                acquired: false,
                backoffs: rounds,
                spins: spin_count,
                steps: Ghost(steps),
            };
        }
        proof {
            // within the spin budget every back-off spins and none parks
            assert(rounds <= SPIN_LIMIT ==> backoff_for(spin_count) == Backoff::Spin);
            assert(backoff_step(rounds - left) == match backoff_for(spin_count) {
                Backoff::Spin => Step::Spin,
                Backoff::Park => Step::Park,
            });
            lemma_one_more_step(steps, backoff_step(rounds - left), rounds);
            steps = steps.push(backoff_step(rounds - left));
        }
        left = left - 1;
        spin_count = back_off(state, spin_count);
    }
}

impl<'a> MutexGuard<'a> {
    /// The mutex that this guard was issued by.
    pub closed spec fn mutex(&self) -> &'a Mutex {
        self.lock
    }

    /// The steps of the attempt that took the lock for this guard.
    pub closed spec fn steps(&self) -> Seq<Step> {
        self.steps@
    }

    /// The mutex that this guard was issued by.
    pub fn lock_ref(&self) -> (lock: &'a Mutex)
        ensures
            lock == self.mutex(),
    {
        self.lock
    }

    /// Releases the lock, and wakes one parked thread where the word says
    /// that one may be parked. Returns the mutex.
    pub fn unlock(self) -> (lock: &'a Mutex)
        ensures
            lock == self.mutex(),
    {
        let previous: u32 = self.lock.locked.swap(UNLOCKED, Ordering::Release);
        if release_must_wake(previous) {
            wake_one(&self.lock.locked);
        }
        self.lock
    }
}

impl Mutex {
    /// An unlocked mutex.
    pub fn new() -> (lock: Mutex) {
        Mutex { locked: AtomicU32::new(UNLOCKED) }
    }

    /// Takes the lock, backing off at most `rounds` times. With
    /// `rounds <= SPIN_LIMIT` the call never blocks.
    ///
    /// Whether the lock is taken depends on the other threads, so nothing
    /// here promises a guard. A guard comes only from an attempt that ended
    /// with the lock taken: its fast path won, or its last swap found
    /// `UNLOCKED`.
    pub fn lock(&self, rounds: u64) -> (result: Option<MutexGuard<'_>>)
        ensures
            result matches Some(guard) ==> guard.mutex() == self && stage_after_all(
                guard.steps(),
                rounds,
            ) == Some(Stage::Taken),
    {
        let attempt = lock_contended(&self.locked, rounds);
        if attempt.acquired {
            Some(MutexGuard { lock: self, steps: attempt.steps })
        } else {
            None
        }
    }

    /// Runs `f` under the lock and releases it; `None` where the lock was not
    /// taken within `rounds` rounds, and `f` then did not run. The guard
    /// here has no destructor: where `f` unwinds, the lock stays held.
    pub fn with_fn<F, R>(&self, rounds: u64, f: F) -> (result: Option<R>) where F: FnOnce() -> R
        requires
            f.requires(()),
        ensures
            result matches Some(value) ==> f.ensures((), value),
    {
        match self.lock(rounds) {
            Some(guard) => {
                let value = f();
                guard.unlock();
                Some(value)
            },
            None => None,
        }
    }
}

} // verus!

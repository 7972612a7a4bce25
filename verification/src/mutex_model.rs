//! The mutex protocol as a transition system over any number of threads, and
//! what holds of every run of it: mutual exclusion, no lost update to a value
//! that the lock protects, and no missed wakeup.
//!
//! An event is one atomic operation of one thread. The rules that decide
//! what an operation leads to are the ones that the lock itself consults.
use vstd::prelude::*;
use crate::mutex::CONTENDED;
use crate::mutex::LOCKED;
use crate::mutex::UNLOCKED;
use crate::mutex::Stage;
use crate::mutex::Step;
use crate::mutex::release_wakes;
use crate::mutex::stage_after;
use crate::mutex::swap_acquires;

verus! {

/// Where a thread stands in the protocol.
pub enum Pc {
    /// Outside the lock.
    Idle,
    /// About to swap `CONTENDED` in: the fast path failed, or a back-off ended.
    Contending,
    /// A swap failed; about to spin, park or give up.
    Backing,
    /// Parked on the word.
    Asleep,
    /// In the critical section.
    Holding,
    /// In the critical section, with the protected value loaded into `reg`.
    Loaded,
    /// Has released a contended lock and owes a wake.
    Waking,
}

pub struct Thread {
    pub pc: Pc,
    /// The thread's private copy of the protected value.
    pub reg: int,
    /// How many increments of the protected value the thread has completed.
    pub done: nat,
}

pub struct MutexModel {
    /// The state word.
    pub word: u32,
    /// The value that the lock protects.
    pub counter: int,
    pub threads: Seq<Thread>,
}

pub enum Kind {
    /// Compare-and-swap from `UNLOCKED` to `LOCKED`.
    TryFast,
    /// Swap `CONTENDED` in.
    Swap,
    /// Leave after a failed swap.
    GiveUp,
    /// Back off without parking.
    Spin,
    /// Call the wait primitive: sleep if the word is `CONTENDED`, else return.
    EnterWait,
    /// Return from the wait primitive without having been woken.
    Return,
    /// Read the protected value.
    Load,
    /// Write the loaded value plus one back.
    Store,
    /// Swap `UNLOCKED` in.
    Unlock,
    /// Wake the given sleeper, or nobody where nobody sleeps.
    Wake(Option<int>),
}

pub struct MutexEvent {
    pub thread: int,
    pub kind: Kind,
}

pub open spec fn initial(threads: nat) -> MutexModel {
    MutexModel {
        word: UNLOCKED,
        counter: 0,
        threads: Seq::new(threads, |i: int| Thread { pc: Pc::Idle, reg: 0, done: 0 }),
    }
}

pub open spec fn in_range(m: MutexModel, i: int) -> bool {
    0 <= i < m.threads.len()
}

pub open spec fn in_critical_section(pc: Pc) -> bool {
    pc is Holding || pc is Loaded
}

pub open spec fn sleeps(m: MutexModel, i: int) -> bool {
    in_range(m, i) && m.threads[i].pc is Asleep
}

/// The thread is on its way to swap `CONTENDED` in or to issue a wake.
pub open spec fn moves(m: MutexModel, i: int) -> bool {
    in_range(m, i) && (m.threads[i].pc is Contending || m.threads[i].pc is Waking)
}

pub open spec fn holds(m: MutexModel, i: int) -> bool {
    in_range(m, i) && in_critical_section(m.threads[i].pc)
}

pub open spec fn enabled(m: MutexModel, e: MutexEvent) -> bool {
    &&& in_range(m, e.thread)
    &&& match e.kind {
        Kind::TryFast => m.threads[e.thread].pc is Idle,
        Kind::Swap => m.threads[e.thread].pc is Contending,
        Kind::GiveUp => m.threads[e.thread].pc is Backing,
        Kind::Spin => m.threads[e.thread].pc is Backing,
        Kind::EnterWait => m.threads[e.thread].pc is Backing,
        Kind::Return => m.threads[e.thread].pc is Asleep,
        Kind::Load => m.threads[e.thread].pc is Holding,
        Kind::Store => m.threads[e.thread].pc is Loaded,
        Kind::Unlock => m.threads[e.thread].pc is Holding,
        Kind::Wake(Some(sleeper)) => m.threads[e.thread].pc is Waking && sleeps(m, sleeper),
        Kind::Wake(None) => m.threads[e.thread].pc is Waking && forall|i: int| !sleeps(m, i),
    }
}

pub open spec fn with_pc(m: MutexModel, i: int, pc: Pc) -> Seq<Thread> {
    m.threads.update(i, Thread { pc, reg: m.threads[i].reg, done: m.threads[i].done })
}

pub open spec fn apply(m: MutexModel, e: MutexEvent) -> MutexModel {
    let t = e.thread;
    match e.kind {
        Kind::TryFast => if m.word == UNLOCKED {
            MutexModel { word: LOCKED, counter: m.counter, threads: with_pc(m, t, Pc::Holding) }
        } else {
            MutexModel { word: m.word, counter: m.counter, threads: with_pc(m, t, Pc::Contending) }
        },
        Kind::Swap => MutexModel {
            word: CONTENDED,
            counter: m.counter,
            threads: with_pc(
                m,
                t,
                if swap_acquires(m.word) {
                    Pc::Holding
                } else {
                    Pc::Backing
                },
            ),
        },
        Kind::GiveUp => MutexModel {
            word: m.word,
            counter: m.counter,
            threads: with_pc(m, t, Pc::Idle),
        },
        Kind::Spin => MutexModel {
            word: m.word,
            counter: m.counter,
            threads: with_pc(m, t, Pc::Contending),
        },
        Kind::EnterWait => MutexModel {
            word: m.word,
            counter: m.counter,
            threads: with_pc(
                m,
                t,
                if m.word == CONTENDED {
                    Pc::Asleep
                } else {
                    Pc::Contending
                },
            ),
        },
        Kind::Return => MutexModel {
            word: m.word,
            counter: m.counter,
            threads: with_pc(m, t, Pc::Contending),
        },
        Kind::Load => MutexModel {
            word: m.word,
            counter: m.counter,
            threads: m.threads.update(
                t,
                Thread { pc: Pc::Loaded, reg: m.counter, done: m.threads[t].done },
            ),
        },
        Kind::Store => MutexModel {
            word: m.word,
            counter: m.threads[t].reg + 1,
            threads: m.threads.update(
                t,
                Thread { pc: Pc::Holding, reg: m.threads[t].reg, done: m.threads[t].done + 1 },
            ),
        },
        Kind::Unlock => MutexModel {
            word: UNLOCKED,
            counter: m.counter,
            threads: with_pc(
                m,
                t,
                if release_wakes(m.word) {
                    Pc::Waking
                } else {
                    Pc::Idle
                },
            ),
        },
        Kind::Wake(Some(sleeper)) => {
            let woken = MutexModel {
                word: m.word,
                counter: m.counter,
                threads: with_pc(m, sleeper, Pc::Contending),
            };
            MutexModel { word: m.word, counter: m.counter, threads: with_pc(woken, t, Pc::Idle) }
        },
        Kind::Wake(None) => MutexModel {
            word: m.word,
            counter: m.counter,
            threads: with_pc(m, t, Pc::Idle),
        },
    }
}

/// Every event of the run is enabled where it happens.
pub open spec fn valid_run(m: MutexModel, events: Seq<MutexEvent>) -> bool
    decreases events.len(),
{
    events.len() == 0 || (enabled(m, events[0]) && valid_run(
        apply(m, events[0]),
        events.drop_first(),
    ))
}

/// The configuration at the end of the run.
pub open spec fn run(m: MutexModel, events: Seq<MutexEvent>) -> MutexModel
    decreases events.len(),
{
    if events.len() == 0 {
        m
    } else {
        run(apply(m, events[0]), events.drop_first())
    }
}

/// The increments that all the threads together have completed.
pub open spec fn total_done(threads: Seq<Thread>) -> nat
    decreases threads.len(),
{
    if threads.len() == 0 {
        0
    } else {
        total_done(threads.drop_last()) + threads.last().done
    }
}

/// At most one thread is in the critical section, and one is there exactly
/// while the word is not `UNLOCKED`.
pub open spec fn exclusive(m: MutexModel) -> bool {
    &&& m.word == UNLOCKED || m.word == LOCKED || m.word == CONTENDED
    &&& forall|i: int, j: int| holds(m, i) && holds(m, j) ==> i == j
    &&& (m.word != UNLOCKED <==> exists|i: int| holds(m, i))
}

/// The protected value counts the completed increments, and a thread that
/// has loaded it holds its current value.
pub open spec fn counted(m: MutexModel) -> bool {
    &&& m.counter == total_done(m.threads)
    &&& forall|i: int| in_range(m, i) && m.threads[i].pc is Loaded ==> m.threads[i].reg == m.counter
}

/// While a thread sleeps, the word is `CONTENDED`, or some thread is on its
/// way to make it so or to issue the wake that it owes.
pub open spec fn wakeful(m: MutexModel) -> bool {
    (exists|i: int| sleeps(m, i)) ==> m.word == CONTENDED || exists|j: int| moves(m, j)
}

pub open spec fn inv(m: MutexModel) -> bool {
    exclusive(m) && counted(m) && wakeful(m)
}

proof fn lemma_total_done_update(threads: Seq<Thread>, i: int, t: Thread)
    requires
        0 <= i < threads.len(),
    ensures
        total_done(threads.update(i, t)) == total_done(threads) - threads[i].done + t.done,
    decreases threads.len(),
{
    let updated = threads.update(i, t);
    if i == threads.len() - 1 {
        assert(updated.drop_last() =~= threads.drop_last());
    } else {
        assert(updated.drop_last() =~= threads.drop_last().update(i, t));
        lemma_total_done_update(threads.drop_last(), i, t);
    }
}

proof fn lemma_total_done_uniform(threads: Seq<Thread>, each: nat)
    requires
        forall|i: int| 0 <= i < threads.len() ==> threads[i].done == each,
    ensures
        total_done(threads) == threads.len() * each,
    decreases threads.len(),
{
    if threads.len() > 0 {
        lemma_total_done_uniform(threads.drop_last(), each);
        assert(threads.len() * each == (threads.len() - 1) * each + each) by (nonlinear_arith);
    }
}

proof fn lemma_initial_inv(threads: nat)
    ensures
        inv(initial(threads)),
{
    let m = initial(threads);
    lemma_total_done_uniform(m.threads, 0);
    assert(forall|i: int| !holds(m, i));
    assert(forall|i: int| !sleeps(m, i));
}

proof fn lemma_step_keeps_exclusive(m: MutexModel, e: MutexEvent)
    requires
        exclusive(m),
        enabled(m, e),
    ensures
        exclusive(apply(m, e)),
{
    let n = apply(m, e);
    let t = e.thread;
    assert(n.threads.len() == m.threads.len());
    assert(forall|i: int| in_range(m, i) <==> in_range(n, i));
    let enters = (e.kind is TryFast && m.word == UNLOCKED) || (e.kind is Swap && swap_acquires(
        m.word,
    ));
    let leaves = e.kind is Unlock;
    if enters {
        assert(forall|i: int| !holds(m, i));
        assert forall|i: int| holds(n, i) implies i == t by {
            if i != t {
                assert(n.threads[i] == m.threads[i]);
                assert(holds(m, i));
            }
        }
        assert(holds(n, t));
    } else if leaves {
        assert(holds(m, t));
        assert forall|i: int| !holds(n, i) by {
            if holds(n, i) {
                assert(i != t);
                assert(n.threads[i] == m.threads[i]);
                assert(holds(m, i));
            }
        }
    } else {
        assert forall|i: int| holds(n, i) <==> holds(m, i) by {
            if in_range(m, i) {
                if i == t {
                } else if e.kind == Kind::Wake(Some(i)) {
                } else {
                    assert(n.threads[i] == m.threads[i]);
                }
            }
        }
        if m.word != UNLOCKED {
            let h = choose|i: int| holds(m, i);
            assert(holds(n, h));
        }
        assert(n.word != UNLOCKED <==> m.word != UNLOCKED) by {
            if e.kind is Swap {
                assert(m.word != UNLOCKED);
            }
        }
    }
}

proof fn lemma_step_keeps_counted(m: MutexModel, e: MutexEvent)
    requires
        exclusive(m),
        counted(m),
        enabled(m, e),
    ensures
        counted(apply(m, e)),
{
    let n = apply(m, e);
    let t = e.thread;
    assert(n.threads.len() == m.threads.len());
    match e.kind {
        Kind::Store => {
            lemma_total_done_update(m.threads, t, n.threads[t]);
            assert(holds(m, t));
            assert forall|i: int| in_range(n, i) && n.threads[i].pc is Loaded implies false by {
                if i != t {
                    assert(n.threads[i] == m.threads[i]);
                    assert(holds(m, i));
                }
            }
        },
        Kind::Wake(Some(sleeper)) => {
            let woken = MutexModel {
                word: m.word,
                counter: m.counter,
                threads: with_pc(m, sleeper, Pc::Contending),
            };
            lemma_total_done_update(m.threads, sleeper, woken.threads[sleeper]);
            lemma_total_done_update(woken.threads, t, n.threads[t]);
            assert forall|i: int| in_range(n, i) && n.threads[i].pc is Loaded implies n.threads[i].reg
                == n.counter by {
                assert(in_range(m, i));
                assert(i != t && i != sleeper);
                assert(n.threads[i] == m.threads[i]);
            }
        },
        _ => {
            lemma_total_done_update(m.threads, t, n.threads[t]);
            assert forall|i: int| in_range(n, i) && n.threads[i].pc is Loaded implies n.threads[i].reg
                == n.counter by {
                assert(in_range(m, i));
                if i != t {
                    assert(n.threads[i] == m.threads[i]);
                }
            }
        },
    }
}

proof fn lemma_step_keeps_wakeful(m: MutexModel, e: MutexEvent)
    requires
        exclusive(m),
        wakeful(m),
        enabled(m, e),
    ensures
        wakeful(apply(m, e)),
{
    let n = apply(m, e);
    let t = e.thread;
    assert(forall|i: int| in_range(m, i) <==> in_range(n, i));
    if exists|i: int| sleeps(n, i) {
        let s = choose|i: int| sleeps(n, i);
        match e.kind {
            Kind::TryFast => {
                if m.word == UNLOCKED {
                    assert(sleeps(m, s));
                    let j = choose|j: int| moves(m, j);
                    assert(moves(n, j));
                } else {
                    assert(moves(n, t));
                }
            },
            Kind::Swap => {},
            Kind::GiveUp => {
                assert(sleeps(m, s));
                if m.word != CONTENDED {
                    let j = choose|j: int| moves(m, j);
                    assert(moves(n, j));
                }
            },
            Kind::Spin => {
                assert(moves(n, t));
            },
            Kind::EnterWait => {
                if m.word != CONTENDED {
                    assert(moves(n, t));
                }
            },
            Kind::Return => {
                assert(moves(n, t));
            },
            Kind::Load => {
                assert(sleeps(m, s));
                if m.word != CONTENDED {
                    let j = choose|j: int| moves(m, j);
                    assert(moves(n, j));
                }
            },
            Kind::Store => {
                assert(sleeps(m, s));
                if m.word != CONTENDED {
                    let j = choose|j: int| moves(m, j);
                    assert(moves(n, j));
                }
            },
            Kind::Unlock => {
                assert(sleeps(m, s));
                if release_wakes(m.word) {
                    assert(moves(n, t));
                } else {
                    let j = choose|j: int| moves(m, j);
                    assert(moves(n, j));
                }
            },
            Kind::Wake(Some(sleeper)) => {
                assert(moves(n, sleeper));
            },
            Kind::Wake(None) => {
                assert(sleeps(m, s));
            },
        }
    }
}

/// Every enabled event takes a configuration in which the three properties
/// hold to one in which they hold.
pub proof fn lemma_step_keeps_inv(m: MutexModel, e: MutexEvent)
    requires
        inv(m),
        enabled(m, e),
    ensures
        inv(apply(m, e)),
{
    lemma_step_keeps_exclusive(m, e);
    lemma_step_keeps_counted(m, e);
    lemma_step_keeps_wakeful(m, e);
}

/// Every run from a configuration in which the three properties hold ends in
/// one in which they hold, with as many threads.
pub proof fn lemma_run_keeps_inv(m: MutexModel, events: Seq<MutexEvent>)
    requires
        inv(m),
        valid_run(m, events),
    ensures
        inv(run(m, events)),
        run(m, events).threads.len() == m.threads.len(),
    decreases events.len(),
{
    if events.len() > 0 {
        lemma_step_keeps_inv(m, events[0]);
        lemma_run_keeps_inv(apply(m, events[0]), events.drop_first());
    }
}

/// Mutual exclusion: however the operations of any number of threads
/// interleave, no two threads are in the critical section together, and the
/// word is `UNLOCKED` exactly while none is.
pub proof fn lemma_mutual_exclusion(threads: nat, events: Seq<MutexEvent>)
    requires
        valid_run(initial(threads), events),
    ensures
        exclusive(run(initial(threads), events)),
{
    lemma_initial_inv(threads);
    lemma_run_keeps_inv(initial(threads), events);
}

/// Whoever has taken the lock has it: however the operations interleave, and
/// whether the thread came to the lock afresh or back from a wait, while it
/// is in the critical section the word is not `UNLOCKED` and no other
/// thread is in.
pub proof fn lemma_holder_has_the_lock(threads: nat, events: Seq<MutexEvent>, holder: int)
    requires
        valid_run(initial(threads), events),
        holds(run(initial(threads), events), holder),
    ensures
        run(initial(threads), events).word != UNLOCKED,
        forall|other: int| holds(run(initial(threads), events), other) ==> other == holder,
{
    lemma_mutual_exclusion(threads, events);
}

/// No lost update: however the operations interleave, the protected value
/// equals the number of increments that the threads have completed. So when
/// each of the threads has completed `each` increments, the value is the
/// number of threads times `each`.
pub proof fn lemma_no_lost_update(threads: nat, events: Seq<MutexEvent>, each: nat)
    requires
        valid_run(initial(threads), events),
    ensures
        run(initial(threads), events).counter == total_done(run(initial(threads), events).threads),
        (forall|i: int| 0 <= i < threads ==> run(initial(threads), events).threads[i].done == each)
            ==> run(initial(threads), events).counter == threads * each,
{
    lemma_initial_inv(threads);
    lemma_run_keeps_inv(initial(threads), events);
    let m = run(initial(threads), events);
    if forall|i: int| 0 <= i < threads ==> m.threads[i].done == each {
        lemma_total_done_uniform(m.threads, each);
    }
}

/// No missed wakeup: however the operations interleave, a thread never
/// sleeps on a lock that is free with nobody on the way to wake it. Where a
/// thread sleeps and no thread is about to swap or to wake, the word is
/// `CONTENDED` and a thread holds the lock, whose release will owe a wake.
pub proof fn lemma_no_missed_wakeup(threads: nat, events: Seq<MutexEvent>, sleeper: int)
    requires
        valid_run(initial(threads), events),
        sleeps(run(initial(threads), events), sleeper),
        forall|j: int| !moves(run(initial(threads), events), j),
    ensures
        run(initial(threads), events).word == CONTENDED,
        exists|holder: int| holds(run(initial(threads), events), holder),
        release_wakes(run(initial(threads), events).word),
{
    lemma_initial_inv(threads);
    lemma_run_keeps_inv(initial(threads), events);
}

/// Fast-path correctness: with one thread, a round of lock, load, store and
/// unlock from the unlocked mutex takes the fast path, leaves the mutex
/// unlocked with no wake owed, and leaves the value that the round stored for
/// the next round to load.
pub proof fn lemma_single_thread_round(m: MutexModel)
    requires
        m.threads.len() == 1,
        m.threads[0].pc is Idle,
        m.word == UNLOCKED,
    ensures
        ({
            let t = 0int;
            let locked = apply(m, MutexEvent { thread: t, kind: Kind::TryFast });
            let loaded = apply(locked, MutexEvent { thread: t, kind: Kind::Load });
            let stored = apply(loaded, MutexEvent { thread: t, kind: Kind::Store });
            let unlocked = apply(stored, MutexEvent { thread: t, kind: Kind::Unlock });
            &&& locked.threads[t].pc is Holding
            &&& locked.word == LOCKED
            &&& loaded.threads[t].reg == m.counter
            &&& stored.counter == m.counter + 1
            &&& unlocked.word == UNLOCKED
            &&& unlocked.threads[t].pc is Idle
            &&& unlocked.counter == stored.counter
            &&& unlocked.threads.len() == 1
        }),
{
}

/// Where a thread at a stage of its attempt stands in the protocol.
pub open spec fn pc_of(stage: Stage) -> Pc {
    match stage {
        Stage::Start => Pc::Idle,
        Stage::Contending { .. } => Pc::Contending,
        Stage::Backing { .. } => Pc::Backing,
        Stage::Taken => Pc::Holding,
        Stage::GivenUp => Pc::Idle,
    }
}

/// What the step found is what the word holds.
pub open spec fn found_in(m: MutexModel, step: Step) -> bool {
    match step {
        Step::Fast { won } => won == (m.word == UNLOCKED),
        Step::Swap { previous } => previous == m.word,
        _ => true,
    }
}

/// The events that a step of thread `t` is made of. A swap that ends the
/// attempt without the lock is followed by the thread's leaving.
pub open spec fn events_of(t: int, stage: Stage, step: Step, rounds: u64) -> Seq<MutexEvent> {
    match step {
        Step::Fast { .. } => seq![MutexEvent { thread: t, kind: Kind::TryFast }],
        Step::Swap { .. } => if stage_after(stage, step, rounds) == Some(Stage::GivenUp) {
            seq![
                MutexEvent { thread: t, kind: Kind::Swap },
                MutexEvent { thread: t, kind: Kind::GiveUp },
            ]
        } else {
            seq![MutexEvent { thread: t, kind: Kind::Swap }]
        },
        Step::Spin => seq![MutexEvent { thread: t, kind: Kind::Spin }],
        Step::Park => seq![MutexEvent { thread: t, kind: Kind::EnterWait }],
    }
}

/// The lock's own steps are steps of the protocol: from a configuration in
/// which the thread stands where its attempt stands, a step that found what
/// the word holds is made of events that are enabled, and it leaves the
/// thread where the attempt goes on; but that a thread that parks may be
/// asleep, from where a wake or a return brings it on.
pub proof fn lemma_step_is_in_the_model(
    m: MutexModel,
    t: int,
    stage: Stage,
    step: Step,
    rounds: u64,
)
    requires
        in_range(m, t),
        m.threads[t].pc == pc_of(stage),
        stage_after(stage, step, rounds) is Some,
        found_in(m, step),
    ensures
        valid_run(m, events_of(t, stage, step, rounds)),
        ({
            let after = run(m, events_of(t, stage, step, rounds)).threads[t].pc;
            after == pc_of(stage_after(stage, step, rounds)->0) || (step is Park && after is Asleep)
        }),
{
    let events = events_of(t, stage, step, rounds);
    let first = events[0];
    let then = apply(m, first);
    reveal_with_fuel(valid_run, 3);
    reveal_with_fuel(run, 3);
    assert(enabled(m, first));
    if events.len() == 1 {
        assert(events.drop_first() =~= Seq::<MutexEvent>::empty());
        assert(valid_run(then, events.drop_first()));
        assert(run(then, events.drop_first()) == then);
        assert(run(m, events) == then);
    } else {
        let second = events[1];
        let last = apply(then, second);
        assert(events.drop_first() =~= seq![second]);
        assert(seq![second].drop_first() =~= Seq::<MutexEvent>::empty());
        assert(then.threads[t].pc is Backing);
        assert(enabled(then, second));
        assert(valid_run(last, seq![second].drop_first()));
        assert(valid_run(then, seq![second]));
        assert(run(then, seq![second]) == last);
        assert(run(m, events) == last);
    }
}

/// A thread that sleeps is brought on by a return from the wait, to where
/// the attempt goes on after a park.
pub proof fn lemma_sleeper_goes_on(m: MutexModel, t: int, backoffs: int)
    requires
        sleeps(m, t),
    ensures
        enabled(m, MutexEvent { thread: t, kind: Kind::Return }),
        apply(m, MutexEvent { thread: t, kind: Kind::Return }).threads[t].pc == pc_of(
            Stage::Contending { backoffs },
        ),
{
}

} // verus!

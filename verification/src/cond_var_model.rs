//! The hand-off through a condition variable as a transition system: one
//! producer that pushes items and notifies, one consumer that pops them and
//! waits while the queue is empty.
//!
//! The mutex is taken as given: what a thread does between taking and
//! releasing it cannot be interleaved with the other thread's push. What a
//! notifier does is outside the mutex and interleaves freely.
use vstd::prelude::*;
use crate::cond_var::notify_skips;

verus! {

/// Where the consumer stands. A sample is the number of notifications that
/// had been made when the consumer read the counter.
pub enum ConsumerPc {
    /// About to take the mutex.
    Locking,
    /// Holds the mutex; about to look at the queue.
    Checking,
    /// Holds the mutex and found the queue empty; about to read the counter.
    Sampling,
    /// Holds the mutex; about to register as a waiter.
    Sampled(nat),
    /// Holds the mutex; about to release it.
    Registered(nat),
    /// Has released the mutex; about to park on the counter.
    Waiting(nat),
    /// Parked on the counter.
    Asleep(nat),
    /// Back from the park; about to deregister.
    Woken,
}

/// Where the producer stands.
pub enum ProducerPc {
    /// Between two items.
    Idle,
    /// Has pushed an item and released the mutex; about to read the waiter count.
    Pushed,
    /// Found a waiter; about to bump the counter.
    Bumping,
    /// Has bumped the counter; about to issue the wake.
    Waking,
}

pub struct Handoff {
    /// Items in the queue.
    pub queue: nat,
    /// Items pushed so far.
    pub produced: nat,
    /// Items popped so far.
    pub consumed: nat,
    /// Notifications made so far. The counter word holds this modulo 2^32.
    pub counter: nat,
    /// Registered waiters.
    pub waiters: nat,
    pub consumer: ConsumerPc,
    pub producer: ProducerPc,
}

pub enum HandoffEvent {
    Lock,
    Pop,
    FindEmpty,
    Sample,
    Register,
    Unlock,
    /// Call the wait primitive: sleep if the counter word equals the sampled
    /// word, else return at once.
    EnterWait,
    /// Return from the wait primitive without having been woken.
    Return,
    Deregister,
    Push,
    /// Read the waiter count, and stop there if nobody waits.
    NotifyLoad,
    Bump,
    Wake,
}

/// The counter word for a number of notifications.
pub open spec fn word(count: nat) -> int {
    count as int % 0x1_0000_0000
}

pub open spec fn consumer_holds_mutex(pc: ConsumerPc) -> bool {
    pc is Checking || pc is Sampling || pc is Sampled || pc is Registered
}

pub open spec fn consumer_is_registered(pc: ConsumerPc) -> bool {
    pc is Registered || pc is Waiting || pc is Asleep || pc is Woken
}

pub open spec fn initial() -> Handoff {
    Handoff {
        queue: 0,
        produced: 0,
        consumed: 0,
        counter: 0,
        waiters: 0,
        consumer: ConsumerPc::Locking,
        producer: ProducerPc::Idle,
    }
}

pub open spec fn enabled(m: Handoff, e: HandoffEvent) -> bool {
    match e {
        HandoffEvent::Lock => m.consumer is Locking,
        HandoffEvent::Pop => m.consumer is Checking && m.queue > 0,
        HandoffEvent::FindEmpty => m.consumer is Checking && m.queue == 0,
        HandoffEvent::Sample => m.consumer is Sampling,
        HandoffEvent::Register => m.consumer is Sampled,
        HandoffEvent::Unlock => m.consumer is Registered,
        HandoffEvent::EnterWait => m.consumer is Waiting,
        HandoffEvent::Return => m.consumer is Asleep,
        HandoffEvent::Deregister => m.consumer is Woken && m.waiters > 0,
        HandoffEvent::Push => m.producer is Idle && !consumer_holds_mutex(m.consumer),
        HandoffEvent::NotifyLoad => m.producer is Pushed && m.waiters <= usize::MAX,
        HandoffEvent::Bump => m.producer is Bumping,
        HandoffEvent::Wake => m.producer is Waking,
    }
}

pub open spec fn apply(m: Handoff, e: HandoffEvent) -> Handoff {
    match e {
        HandoffEvent::Lock => Handoff { consumer: ConsumerPc::Checking, ..m },
        HandoffEvent::Pop => Handoff {
            queue: (m.queue - 1) as nat,
            consumed: m.consumed + 1,
            consumer: ConsumerPc::Locking,
            ..m
        },
        HandoffEvent::FindEmpty => Handoff { consumer: ConsumerPc::Sampling, ..m },
        HandoffEvent::Sample => Handoff { consumer: ConsumerPc::Sampled(m.counter), ..m },
        HandoffEvent::Register => Handoff {
            waiters: m.waiters + 1,
            consumer: ConsumerPc::Registered(m.consumer->Sampled_0),
            ..m
        },
        HandoffEvent::Unlock => Handoff {
            consumer: ConsumerPc::Waiting(m.consumer->Registered_0),
            ..m
        },
        HandoffEvent::EnterWait => Handoff {
            consumer: if word(m.counter) == word(m.consumer->Waiting_0) {
                ConsumerPc::Asleep(m.consumer->Waiting_0)
            } else {
                ConsumerPc::Woken
            },
            ..m
        },
        HandoffEvent::Return => Handoff { consumer: ConsumerPc::Woken, ..m },
        HandoffEvent::Deregister => Handoff {
            waiters: (m.waiters - 1) as nat,
            consumer: ConsumerPc::Locking,
            ..m
        },
        HandoffEvent::Push => Handoff {
            queue: m.queue + 1,
            produced: m.produced + 1,
            producer: ProducerPc::Pushed,
            ..m
        },
        HandoffEvent::NotifyLoad => Handoff {
            producer: if notify_skips(m.waiters as usize) {
                ProducerPc::Idle
            } else {
                ProducerPc::Bumping
            },
            ..m
        },
        HandoffEvent::Bump => Handoff { counter: m.counter + 1, producer: ProducerPc::Waking, ..m },
        HandoffEvent::Wake => Handoff {
            consumer: if m.consumer is Asleep {
                ConsumerPc::Woken
            } else {
                m.consumer
            },
            producer: ProducerPc::Idle,
            ..m
        },
    }
}

/// Fewer than 2^32 notifications have been made since a consumer that is
/// about to park read the counter, so the word it compares tells the truth.
pub open spec fn short_gap(m: Handoff) -> bool {
    m.consumer is Waiting ==> m.counter - m.consumer->Waiting_0 < 0x1_0000_0000
}

/// Every event of the run is enabled where it happens, and the gap is short
/// wherever the run passes.
pub open spec fn valid_run(m: Handoff, events: Seq<HandoffEvent>) -> bool
    decreases events.len(),
{
    events.len() == 0 || (enabled(m, events[0]) && short_gap(m) && valid_run(
        apply(m, events[0]),
        events.drop_first(),
    ))
}

/// The configuration at the end of the run.
pub open spec fn run(m: Handoff, events: Seq<HandoffEvent>) -> Handoff
    decreases events.len(),
{
    if events.len() == 0 {
        m
    } else {
        run(apply(m, events[0]), events.drop_first())
    }
}

/// The sample that the consumer carries, if it carries one.
pub open spec fn sample_of(pc: ConsumerPc) -> Option<nat> {
    match pc {
        ConsumerPc::Sampled(s) => Some(s),
        ConsumerPc::Registered(s) => Some(s),
        ConsumerPc::Waiting(s) => Some(s),
        ConsumerPc::Asleep(s) => Some(s),
        _ => None,
    }
}

pub open spec fn inv(m: Handoff) -> bool {
    &&& m.produced == m.consumed + m.queue
    &&& sample_of(m.consumer) is Some ==> sample_of(m.consumer)->0 <= m.counter
    &&& m.consumer is Asleep && m.queue > 0 ==> !(m.producer is Idle)
    &&& m.consumer is Waiting && m.queue > 0 ==> m.counter > m.consumer->Waiting_0
        || m.producer is Pushed || m.producer is Bumping
    &&& m.waiters == if consumer_is_registered(m.consumer) {
        1nat
    } else {
        0nat
    }
    &&& m.consumer is Sampling || m.consumer is Sampled || m.consumer is Registered ==> m.queue
        == 0
}

/// Every enabled event takes a configuration in which the invariant holds
/// and the gap is short to one in which the invariant holds.
pub proof fn lemma_step_keeps_inv(m: Handoff, e: HandoffEvent)
    requires
        inv(m),
        short_gap(m),
        enabled(m, e),
    ensures
        inv(apply(m, e)),
{
    if e is EnterWait {
        let s = m.consumer->Waiting_0;
        if word(m.counter) == word(s) {
            assert(m.counter == s) by {
                vstd::arithmetic::div_mod::lemma_fundamental_div_mod(m.counter as int, 0x1_0000_0000);
                vstd::arithmetic::div_mod::lemma_fundamental_div_mod(s as int, 0x1_0000_0000);
                let qc = m.counter as int / 0x1_0000_0000;
                let qs = s as int / 0x1_0000_0000;
                assert(m.counter - s == 0x1_0000_0000 * (qc - qs)) by (nonlinear_arith)
                    requires
                        m.counter == 0x1_0000_0000 * qc + m.counter as int % 0x1_0000_0000,
                        s == 0x1_0000_0000 * qs + s as int % 0x1_0000_0000,
                        m.counter as int % 0x1_0000_0000 == s as int % 0x1_0000_0000,
                ;
                if qc - qs >= 1 {
                    assert(0x1_0000_0000 * (qc - qs) >= 0x1_0000_0000) by (nonlinear_arith)
                        requires
                            qc - qs >= 1,
                    ;
                }
                if qc - qs <= -1 {
                    assert(0x1_0000_0000 * (qc - qs) < 0) by (nonlinear_arith)
                        requires
                            qc - qs <= -1,
                    ;
                }
            }
        }
    }
}

pub proof fn lemma_run_keeps_inv(m: Handoff, events: Seq<HandoffEvent>)
    requires
        inv(m),
        valid_run(m, events),
    ensures
        inv(run(m, events)),
    decreases events.len(),
{
    if events.len() > 0 {
        lemma_step_keeps_inv(m, events[0]);
        lemma_run_keeps_inv(apply(m, events[0]), events.drop_first());
    }
}

/// No missed wakeup: however the pushes, notifications and waits interleave,
/// every item that was pushed is either in the queue or was popped once, and
/// the consumer never sleeps on a queue that holds an item while the
/// producer has nothing left to do about it.
pub proof fn lemma_no_missed_notification(events: Seq<HandoffEvent>)
    requires
        valid_run(initial(), events),
    ensures
        ({
            let m = run(initial(), events);
            &&& m.produced == m.consumed + m.queue
            &&& !(m.consumer is Asleep && m.queue > 0 && m.producer is Idle)
        }),
{
    lemma_run_keeps_inv(initial(), events);
}

/// What the producer still has to do for the item that it pushed last.
pub open spec fn rest_of_notification(pc: ProducerPc) -> Seq<HandoffEvent> {
    match pc {
        ProducerPc::Idle => seq![],
        ProducerPc::Pushed => seq![HandoffEvent::NotifyLoad, HandoffEvent::Bump, HandoffEvent::Wake],
        ProducerPc::Bumping => seq![HandoffEvent::Bump, HandoffEvent::Wake],
        ProducerPc::Waking => seq![HandoffEvent::Wake],
    }
}

/// The wake arrives: where the consumer sleeps on a queue that holds an
/// item, the producer's remaining steps are enabled one after the other, the
/// notification is not skipped, and at their end the consumer is awake.
pub proof fn lemma_sleeper_is_woken(m: Handoff)
    requires
        inv(m),
        m.consumer is Asleep,
        m.queue > 0,
    ensures
        valid_run(m, rest_of_notification(m.producer)),
        run(m, rest_of_notification(m.producer)).consumer is Woken,
        run(m, rest_of_notification(m.producer)).producer is Idle,
{
    let wake = seq![HandoffEvent::Wake];
    let bump = seq![HandoffEvent::Bump, HandoffEvent::Wake];
    let load = seq![HandoffEvent::NotifyLoad, HandoffEvent::Bump, HandoffEvent::Wake];
    assert(wake.drop_first() =~= Seq::<HandoffEvent>::empty());
    assert(bump.drop_first() =~= wake);
    assert(load.drop_first() =~= bump);
    reveal_with_fuel(valid_run, 5);
    reveal_with_fuel(run, 5);
    match m.producer {
        ProducerPc::Idle => {},
        ProducerPc::Pushed => {
            let a = apply(m, HandoffEvent::NotifyLoad);
            let b = apply(a, HandoffEvent::Bump);
            let c = apply(b, HandoffEvent::Wake);
            assert(valid_run(c, wake.drop_first()));
            assert(valid_run(b, wake));
            assert(valid_run(a, bump));
            assert(valid_run(m, load));
            assert(run(b, wake) == c);
            assert(run(a, bump) == c);
            assert(run(m, load) == c);
        },
        ProducerPc::Bumping => {
            let b = apply(m, HandoffEvent::Bump);
            let c = apply(b, HandoffEvent::Wake);
            assert(valid_run(c, wake.drop_first()));
            assert(valid_run(b, wake));
            assert(valid_run(m, bump));
            assert(run(b, wake) == c);
            assert(run(m, bump) == c);
        },
        ProducerPc::Waking => {
            let c = apply(m, HandoffEvent::Wake);
            assert(valid_run(c, wake.drop_first()));
            assert(valid_run(m, wake));
            assert(run(m, wake) == c);
        },
    }
}

} // verus!

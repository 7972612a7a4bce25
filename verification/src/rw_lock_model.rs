//! The reader/writer protocol as a transition system, and what holds of every
//! run of it.
//!
//! A configuration is the state word together with the guards that are alive.
//! An event is one successful atomic operation of one thread; the rules that
//! enable the events are the ones that the lock itself consults.
use vstd::prelude::*;
use crate::rw_lock::ReadPlan;
use crate::rw_lock::WritePlan;
use crate::rw_lock::WRITE_LOCKED;
use crate::rw_lock::read_plan;
use crate::rw_lock::write_plan;

verus! {

pub struct RwModel {
    /// The state word.
    pub state: u32,
    /// How many read guards are alive.
    pub readers: nat,
    /// Whether the write guard is alive.
    pub writer: bool,
}

pub enum RwEvent {
    /// A reader's compare-and-swap from an admitted word succeeds.
    ReadAdmit,
    /// A read guard is released.
    ReadRelease,
    /// A writer's compare-and-swap that sets the waiting bit succeeds.
    WriteMark,
    /// A writer's compare-and-swap to `WRITE_LOCKED` succeeds.
    WriteClaim,
    /// The write guard is released.
    WriteRelease,
}

pub open spec fn initial() -> RwModel {
    RwModel { state: 0, readers: 0, writer: false }
}

pub open spec fn enabled(m: RwModel, e: RwEvent) -> bool {
    match e {
        RwEvent::ReadAdmit => read_plan(m.state) is Admit,
        RwEvent::ReadRelease => m.readers > 0,
        RwEvent::WriteMark => write_plan(m.state) is MarkPending,
        RwEvent::WriteClaim => write_plan(m.state) is Claim,
        RwEvent::WriteRelease => m.writer,
    }
}

/// The word after two are taken from it, as the hardware does it.
pub open spec fn minus_two(state: u32) -> u32 {
    if state >= 2 {
        (state - 2) as u32
    } else {
        (state + 0x1_0000_0000 - 2) as u32
    }
}

pub open spec fn apply(m: RwModel, e: RwEvent) -> RwModel {
    match e {
        RwEvent::ReadAdmit => RwModel {
            state: read_plan(m.state)->Admit_next,
            readers: m.readers + 1,
            writer: m.writer,
        },
        RwEvent::ReadRelease => RwModel {
            state: minus_two(m.state),
            readers: (m.readers - 1) as nat,
            writer: m.writer,
        },
        RwEvent::WriteMark => RwModel {
            state: write_plan(m.state)->MarkPending_next,
            readers: m.readers,
            writer: m.writer,
        },
        RwEvent::WriteClaim => RwModel { state: WRITE_LOCKED, readers: m.readers, writer: true },
        RwEvent::WriteRelease => RwModel { state: 0, readers: m.readers, writer: false },
    }
}

/// The word agrees with the guards: all ones and no reader while the writer
/// is in, else twice the readers, plus one if a writer waits.
pub open spec fn consistent(m: RwModel) -> bool {
    if m.writer {
        m.state == WRITE_LOCKED && m.readers == 0
    } else {
        m.state == 2 * m.readers || m.state == 2 * m.readers + 1
    }
}

/// A writer has announced itself and has not got in yet.
pub open spec fn writer_pending(m: RwModel) -> bool {
    !m.writer && m.state % 2 == 1
}

/// Every event of the run is enabled where it happens.
pub open spec fn valid_run(m: RwModel, events: Seq<RwEvent>) -> bool
    decreases events.len(),
{
    events.len() == 0 || (enabled(m, events[0]) && valid_run(
        apply(m, events[0]),
        events.drop_first(),
    ))
}

/// The configuration at the end of the run.
pub open spec fn run(m: RwModel, events: Seq<RwEvent>) -> RwModel
    decreases events.len(),
{
    if events.len() == 0 {
        m
    } else {
        run(apply(m, events[0]), events.drop_first())
    }
}

/// Every enabled event takes a consistent configuration to a consistent one.
pub proof fn lemma_step_keeps_consistent(m: RwModel, e: RwEvent)
    requires
        consistent(m),
        enabled(m, e),
    ensures
        consistent(apply(m, e)),
{
}

/// Every run from a consistent configuration ends in a consistent one.
pub proof fn lemma_run_keeps_consistent(m: RwModel, events: Seq<RwEvent>)
    requires
        consistent(m),
        valid_run(m, events),
    ensures
        consistent(run(m, events)),
    decreases events.len(),
{
    if events.len() > 0 {
        lemma_step_keeps_consistent(m, events[0]);
        lemma_run_keeps_consistent(apply(m, events[0]), events.drop_first());
    }
}

/// Writer exclusivity: in whatever configuration a run from the unlocked
/// lock ends, the write guard is alive together with no read guard, and while
/// it is alive no reader is admitted and no second writer claims or marks.
pub proof fn lemma_writer_is_alone(events: Seq<RwEvent>)
    requires
        valid_run(initial(), events),
    ensures
        ({
            let m = run(initial(), events);
            &&& !(m.writer && m.readers > 0)
            &&& m.writer ==> !enabled(m, RwEvent::ReadAdmit)
            &&& m.writer ==> !enabled(m, RwEvent::WriteClaim)
            &&& m.writer ==> !enabled(m, RwEvent::WriteMark)
            &&& m.readers > 0 ==> !enabled(m, RwEvent::WriteClaim)
        }),
{
    lemma_run_keeps_consistent(initial(), events);
}

/// `count` admissions in a row.
pub open spec fn admissions(count: nat) -> Seq<RwEvent> {
    Seq::new(count, |i: int| RwEvent::ReadAdmit)
}

/// Concurrent readers: where no writer holds or waits, any number of readers
/// that fits in the word is admitted one after the other with none of them
/// leaving in between, and all of them hold their guards at the end.
pub proof fn lemma_readers_share(m: RwModel, count: nat)
    requires
        consistent(m),
        !m.writer,
        m.state % 2 == 0,
        m.state + 2 * count < WRITE_LOCKED,
    ensures
        valid_run(m, admissions(count)),
        run(m, admissions(count)).readers == m.readers + count,
        run(m, admissions(count)).state == m.state + 2 * count,
        !run(m, admissions(count)).writer,
    decreases count,
{
    if count > 0 {
        let next = apply(m, RwEvent::ReadAdmit);
        lemma_step_keeps_consistent(m, RwEvent::ReadAdmit);
        assert(admissions(count).drop_first() =~= admissions((count - 1) as nat));
        lemma_readers_share(next, (count - 1) as nat);
    }
}

/// No event of the run is a writer getting in.
pub open spec fn no_claim(events: Seq<RwEvent>) -> bool {
    forall|i: int| 0 <= i < events.len() ==> !(#[trigger] events[i] is WriteClaim)
}

/// Writer preference: once a writer has announced itself, no reader is
/// admitted before a writer gets in. Until then the only thing that can
/// happen is that readers leave, so after at most as many events as there
/// were readers the word lets the writer claim.
pub proof fn lemma_pending_writer_is_not_overtaken(m: RwModel, events: Seq<RwEvent>)
    requires
        consistent(m),
        writer_pending(m),
        valid_run(m, events),
        no_claim(events),
    ensures
        forall|i: int| 0 <= i < events.len() ==> #[trigger] events[i] is ReadRelease,
        events.len() <= m.readers,
        run(m, events).readers == m.readers - events.len(),
        writer_pending(run(m, events)),
        consistent(run(m, events)),
    decreases events.len(),
{
    if events.len() > 0 {
        let e = events[0];
        assert(!(e is WriteClaim));
        assert(e is ReadRelease);
        let next = apply(m, e);
        lemma_step_keeps_consistent(m, e);
        let rest = events.drop_first();
        assert(no_claim(rest)) by {
            assert forall|i: int| 0 <= i < rest.len() implies !(#[trigger] rest[i] is WriteClaim) by {
                assert(rest[i] == events[i + 1]);
            }
        }
        lemma_pending_writer_is_not_overtaken(next, rest);
        assert forall|i: int| 0 <= i < events.len() implies #[trigger] events[i] is ReadRelease by {
            if i > 0 {
                assert(events[i] == rest[i - 1]);
            }
        }
    }
}

/// When the last reader has left a lock on which a writer waits, the word
/// lets a writer claim and admits no reader.
pub proof fn lemma_drained_lock_goes_to_writer(m: RwModel)
    requires
        consistent(m),
        writer_pending(m),
        m.readers == 0,
    ensures
        enabled(m, RwEvent::WriteClaim),
        !enabled(m, RwEvent::ReadAdmit),
{
}

/// The leaving reader's wake test fires exactly when it was the last reader
/// of a lock on which a writer waits.
pub proof fn lemma_last_reader_wakes_writer(m: RwModel)
    requires
        consistent(m),
        enabled(m, RwEvent::ReadRelease),
    ensures
        crate::rw_lock::last_reader_left_writer_waiting(m.state) <==> (m.readers == 1
            && writer_pending(m)),
{
}

} // verus!

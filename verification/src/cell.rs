//! A cell that can be written through a shared reference, and the borrow
//! flag of a cell whose contents are lent out under a check at run time.
use vstd::prelude::*;
use vstd::cell::invcell::InvCell;
use vstd::predicate::Predicate;

verus! {

/// The rule that admits every value.
pub struct AnyValue;

impl<T> Predicate<T> for AnyValue {
    open spec fn predicate(&self, v: T) -> bool {
        true
    }
}

/// A value that can be replaced through a shared reference. What a read
/// returns is whatever was written last, by whoever shares the cell; what
/// can be said of it is what holds of every value that was ever allowed in:
/// the cell's rule.
pub struct Cell<T, P = AnyValue> {
    value: InvCell<T, P>,
}

impl<T, P: Predicate<T>> Cell<T, P> {
    /// The rule that every value in the cell meets.
    pub closed spec fn rule(&self) -> P {
        self.value.predicate()
    }

    /// `value` may stand in the cell.
    pub open spec fn admits(&self, value: T) -> bool {
        self.rule().predicate(value)
    }

    /// A cell that holds `value` and will only ever hold what `rule` admits.
    pub fn with_rule(value: T, rule: Ghost<P>) -> (cell: Self)
        requires
            rule@.predicate(value),
        ensures
            cell.rule() == rule@,
    {
        Cell { value: InvCell::new(value, rule) }
    }

    /// The value in the cell. It meets the cell's rule.
    pub fn get(&self) -> (value: T) where T: Copy
        ensures
            self.admits(value),
    {
        self.value.get()
    }

    pub fn set(&self, value: T)
        requires
            self.admits(value),
    {
        self.value.set(value);
    }

    /// Puts `value` in and hands back what was there, which meets the
    /// cell's rule.
    pub fn replace(&self, value: T) -> (previous: T)
        requires
            self.admits(value),
        ensures
            self.admits(previous),
    {
        self.value.replace(value)
    }

    /// Gives the cell up for the value in it, which meets the cell's rule.
    pub fn into_inner(self) -> (value: T)
        ensures
            self.admits(value),
    {
        self.value.into_inner()
    }
}

impl<T> Cell<T, AnyValue> {
    /// A cell that holds `value` and admits every value.
    pub fn new(value: T) -> (cell: Self)
        ensures
            forall|v: T| cell.admits(v),
    {
        Cell { value: InvCell::new(value, Ghost(AnyValue)) }
    }
}

/// How the contents of a `RefCell` are lent out at the moment.
#[derive(Clone, Copy, PartialEq, Eq, Structural, Debug)]
pub enum BorrowState {
    Unshared,
    /// Lent out for reading, to this many borrowers.
    Shared(usize),
    /// Lent out for writing.
    Exclusive,
}

/// A state that the flag can be in: where it counts shared borrows, it
/// counts at least one.
pub open spec fn well_formed(state: BorrowState) -> bool {
    state is Shared ==> state->Shared_0 >= 1
}

/// The rule of the flag's cell: it only ever holds a well-formed state.
pub struct FlagRule;

impl Predicate<BorrowState> for FlagRule {
    open spec fn predicate(&self, state: BorrowState) -> bool {
        well_formed(state)
    }
}

/// The state after one more shared borrow; `None` where it is refused.
pub open spec fn after_borrow(state: BorrowState) -> Option<BorrowState> {
    match state {
        BorrowState::Unshared => Some(BorrowState::Shared(1)),
        BorrowState::Shared(n) => if n < usize::MAX {
            Some(BorrowState::Shared((n + 1) as usize))
        } else {
            None
        },
        BorrowState::Exclusive => None,
    }
}

/// The state after an exclusive borrow; `None` where it is refused.
pub open spec fn after_borrow_mut(state: BorrowState) -> Option<BorrowState> {
    match state {
        BorrowState::Unshared => Some(BorrowState::Exclusive),
        _ => None,
    }
}

/// The state after a shared borrow ends; `None` where none was out.
pub open spec fn after_ref_drop(state: BorrowState) -> Option<BorrowState> {
    match state {
        BorrowState::Shared(n) => if n == 1 {
            Some(BorrowState::Unshared)
        } else if n > 1 {
            Some(BorrowState::Shared((n - 1) as usize))
        } else {
            None
        },
        _ => None,
    }
}

/// The state after the exclusive borrow ends; `None` where none was out.
pub open spec fn after_ref_mut_drop(state: BorrowState) -> Option<BorrowState> {
    match state {
        BorrowState::Exclusive => Some(BorrowState::Unshared),
        _ => None,
    }
}

pub fn share(state: BorrowState) -> (next: Option<BorrowState>)
    ensures
        next == after_borrow(state),
        next matches Some(to) ==> well_formed(to),
{
    match state {
        BorrowState::Unshared => Some(BorrowState::Shared(1)),
        BorrowState::Shared(n) => if n < usize::MAX {
            Some(BorrowState::Shared(n + 1))
        } else {
            None
        },
        BorrowState::Exclusive => None,
    }
}

pub fn claim(state: BorrowState) -> (next: Option<BorrowState>)
    ensures
        next == after_borrow_mut(state),
        next matches Some(to) ==> well_formed(to),
{
    match state {
        BorrowState::Unshared => Some(BorrowState::Exclusive),
        _ => None,
    }
}

pub fn unshare(state: BorrowState) -> (next: Option<BorrowState>)
    ensures
        next == after_ref_drop(state),
        next matches Some(to) ==> well_formed(to),
        well_formed(state) ==> (next is Some <==> state is Shared),
{
    match state {
        BorrowState::Shared(n) => if n == 1 {
            Some(BorrowState::Unshared)
        } else if n > 1 {
            Some(BorrowState::Shared(n - 1))
        } else {
            None
        },
        _ => None,
    }
}

pub fn unclaim(state: BorrowState) -> (next: Option<BorrowState>)
    ensures
        next == after_ref_mut_drop(state),
        next matches Some(to) ==> well_formed(to),
{
    match state {
        BorrowState::Exclusive => Some(BorrowState::Unshared),
        _ => None,
    }
}

/// The borrow flag of a cell whose contents are lent out under a check at
/// run time. It carries no contents: it is the bookkeeping alone. A `Ref` or
/// a `RefMut` is the capability that the flag hands out; whoever holds it
/// calls `release`.
pub struct RefCell {
    state: Cell<BorrowState, FlagRule>,
}

pub struct Ref<'refcell> {
    cell: &'refcell RefCell,
}

pub struct RefMut<'refcell> {
    cell: &'refcell RefCell,
}

impl RefCell {
    /// A flag with nothing lent out.
    pub fn new() -> (cell: Self) {
        RefCell { state: Cell::with_rule(BorrowState::Unshared, Ghost(FlagRule)) }
    }

    /// The state as it is now. Whatever the borrowers have done, it is
    /// well-formed: a flag that counts shared borrows counts at least one.
    pub fn state(&self) -> (state: BorrowState)
        ensures
            well_formed(state),
    {
        self.state.get()
    }

    /// A shared borrow, unless the contents are lent out for writing.
    pub fn borrow(&self) -> (lent: Option<Ref<'_>>)
        ensures
            lent matches Some(r) ==> r.ref_cell() == self,
    {
        match share(self.state.get()) {
            Some(next) => {
                self.state.set(next);
                Some(Ref { cell: self })
            },
            None => None,
        }
    }

    /// The exclusive borrow, unless the contents are lent out at all.
    pub fn borrow_mut(&self) -> (lent: Option<RefMut<'_>>)
        ensures
            lent matches Some(r) ==> r.ref_cell() == self,
    {
        match claim(self.state.get()) {
            Some(next) => {
                self.state.set(next);
                Some(RefMut { cell: self })
            },
            None => None,
        }
    }
}

impl<'refcell> Ref<'refcell> {
    /// The flag that this borrow was counted on.
    pub closed spec fn ref_cell(&self) -> &'refcell RefCell {
        self.cell
    }

    /// Ends the borrow. `false` where the flag did not show a shared borrow,
    /// which happens only where a borrow was ended twice behind its back.
    pub fn release(self) -> bool {
        match unshare(self.cell.state.get()) {
            Some(next) => {
                self.cell.state.set(next);
                true
            },
            None => false,
        }
    }
}

impl<'refcell> RefMut<'refcell> {
    /// The flag that this borrow was counted on.
    pub closed spec fn ref_cell(&self) -> &'refcell RefCell {
        self.cell
    }

    /// Ends the borrow. `false` where the flag did not show the exclusive
    /// borrow, which happens only where it was ended twice behind its back.
    pub fn release(self) -> bool {
        match unclaim(self.cell.state.get()) {
            Some(next) => {
                self.cell.state.set(next);
                true
            },
            None => false,
        }
    }
}

/// The flag together with the borrows that are alive.
pub struct BorrowModel {
    pub state: BorrowState,
    pub refs: nat,
    pub muts: nat,
}

pub enum BorrowEvent {
    Borrow,
    BorrowMut,
    RefRelease,
    RefMutRelease,
}

pub open spec fn borrow_initial() -> BorrowModel {
    BorrowModel { state: BorrowState::Unshared, refs: 0, muts: 0 }
}

pub open spec fn borrow_enabled(m: BorrowModel, e: BorrowEvent) -> bool {
    match e {
        BorrowEvent::Borrow => after_borrow(m.state) is Some,
        BorrowEvent::BorrowMut => after_borrow_mut(m.state) is Some,
        BorrowEvent::RefRelease => m.refs > 0,
        BorrowEvent::RefMutRelease => m.muts > 0,
    }
}

pub open spec fn borrow_apply(m: BorrowModel, e: BorrowEvent) -> BorrowModel {
    match e {
        BorrowEvent::Borrow => BorrowModel {
            state: after_borrow(m.state)->0,
            refs: m.refs + 1,
            muts: m.muts,
        },
        BorrowEvent::BorrowMut => BorrowModel {
            state: after_borrow_mut(m.state)->0,
            refs: m.refs,
            muts: m.muts + 1,
        },
        BorrowEvent::RefRelease => BorrowModel {
            state: after_ref_drop(m.state)->0,
            refs: (m.refs - 1) as nat,
            muts: m.muts,
        },
        BorrowEvent::RefMutRelease => BorrowModel {
            state: after_ref_mut_drop(m.state)->0,
            refs: m.refs,
            muts: (m.muts - 1) as nat,
        },
    }
}

pub open spec fn borrow_valid_run(m: BorrowModel, events: Seq<BorrowEvent>) -> bool
    decreases events.len(),
{
    events.len() == 0 || (borrow_enabled(m, events[0]) && borrow_valid_run(
        borrow_apply(m, events[0]),
        events.drop_first(),
    ))
}

pub open spec fn borrow_run(m: BorrowModel, events: Seq<BorrowEvent>) -> BorrowModel
    decreases events.len(),
{
    if events.len() == 0 {
        m
    } else {
        borrow_run(borrow_apply(m, events[0]), events.drop_first())
    }
}

/// The flag agrees with the borrows that are alive.
pub open spec fn borrow_consistent(m: BorrowModel) -> bool {
    match m.state {
        BorrowState::Unshared => m.refs == 0 && m.muts == 0,
        BorrowState::Shared(n) => m.refs == n && n >= 1 && m.muts == 0,
        BorrowState::Exclusive => m.refs == 0 && m.muts == 1,
    }
}

proof fn lemma_borrow_run_keeps_consistent(m: BorrowModel, events: Seq<BorrowEvent>)
    requires
        borrow_consistent(m),
        borrow_valid_run(m, events),
    ensures
        borrow_consistent(borrow_run(m, events)),
    decreases events.len(),
{
    if events.len() > 0 {
        lemma_borrow_run_keeps_consistent(borrow_apply(m, events[0]), events.drop_first());
    }
}

/// Shared or exclusive, never both: however borrows and releases follow each
/// other, at most one exclusive borrow is alive, and none together with a
/// shared one; and a release always finds the state that it expects.
pub proof fn lemma_shared_or_exclusive(events: Seq<BorrowEvent>)
    requires
        borrow_valid_run(borrow_initial(), events),
    ensures
        ({
            let m = borrow_run(borrow_initial(), events);
            &&& m.muts <= 1
            &&& !(m.muts > 0 && m.refs > 0)
            &&& m.refs > 0 ==> after_ref_drop(m.state) is Some
            &&& m.muts > 0 ==> after_ref_mut_drop(m.state) is Some
        }),
{
    lemma_borrow_run_keeps_consistent(borrow_initial(), events);
}

} // verus!

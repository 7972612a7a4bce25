//! The wait/wake primitive that every blocking lock here parks on.
use vstd::prelude::*;
use std::sync::atomic::AtomicU32;

verus! {

/// `atomic_wait::wait`: blocks the caller while the word still holds `value`,
/// until a wake on the same word; it may also return for no reason at all.
/// Nothing is promised about the word when it returns.
pub assume_specification[ atomic_wait::wait ](atomic: &AtomicU32, value: u32);

/// `atomic_wait::wake_one`: wakes at most one thread parked on the word.
/// It returns nothing and changes no value the caller can see.
#[verifier::external_body]
pub(crate) fn wake_one(atomic: &AtomicU32) {
    atomic_wait::wake_one(atomic)
}

/// `atomic_wait::wake_all`: wakes every thread parked on the word.
/// It returns nothing and changes no value the caller can see.
#[verifier::external_body]
pub(crate) fn wake_all(atomic: &AtomicU32) {
    atomic_wait::wake_all(atomic)
}

/// `std::hint::spin_loop`: tells the processor that the caller is busy-waiting.
/// It returns nothing and changes no value.
#[verifier::external_body]
pub(crate) fn spin_hint() {
    std::hint::spin_loop()
}

} // verus!

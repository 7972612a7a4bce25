//! The hand-shake of a channel that carries one message: a flag that the
//! sender sets once the message is in place and that the receiver clears
//! when it takes it.
//!
//! The channel carries no message here: it is the flag alone.
use vstd::prelude::*;
use std::sync::atomic::AtomicBool;
use std::sync::atomic::Ordering;

verus! {

pub struct Channel {
    ready: AtomicBool,
}

/// The right to send, once.
pub struct Sender<'a> {
    channel: &'a Channel,
}

/// The right to receive, once.
pub struct Receiver<'a> {
    channel: &'a Channel,
}

/// Whether a receiver that found `was_ready` in the flag has to park before
/// it reads the message.
pub open spec fn must_park(was_ready: bool) -> bool {
    !was_ready
}

impl Channel {
    /// A channel with no message in it.
    pub fn new() -> (channel: Self) {
        Channel { ready: AtomicBool::new(false) }
    }

    /// Whether a message is in place that nobody has taken.
    pub fn is_ready(&self) -> bool {
        self.ready.load(Ordering::Acquire)
    }

    /// Empties the channel and hands out its two ends. The exclusive borrow
    /// makes sure that no end from an earlier split is still alive.
    pub fn split(&mut self) -> (ends: (Sender<'_>, Receiver<'_>))
        ensures
            ends.0.channel() == ends.1.channel(),
    {
        *self = Channel::new();
        let shared: &Channel = self;
        (Sender { channel: shared }, Receiver { channel: shared })
    }
}

impl<'a> Sender<'a> {
    pub closed spec fn channel(&self) -> &'a Channel {
        self.channel
    }

    /// Says that the message is in place. The caller has stored it before,
    /// and wakes the receiver after.
    pub fn send(self) {
        self.channel.ready.store(true, Ordering::Release);
    }
}

impl<'a> Receiver<'a> {
    pub closed spec fn channel(&self) -> &'a Channel {
        self.channel
    }

    /// Clears the flag and says whether the message was in place. Where it
    /// was not, the caller parks until the sender wakes it, and reads then.
    pub fn recv(self) -> bool {
        self.channel.ready.swap(false, Ordering::Acquire)
    }
}

} // verus!

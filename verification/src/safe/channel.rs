//! What the two ends of a channel for many senders and one receiver share:
//! the queue of messages and the number of senders that are alive. The ends
//! themselves block on a lock and a condition variable around this state.
use vstd::prelude::*;
use std::collections::VecDeque;

verus! {

pub struct Inner<T> {
    queue: VecDeque<T>,
    senders: usize,
}

/// What a receiver finds when it looks at the shared state.
#[derive(Debug, PartialEq, Eq)]
pub enum Received<T> {
    /// The oldest message.
    Item(T),
    /// No message, and no sender is left to send one.
    Closed,
    /// No message yet: wait for a notification and look again.
    Wait,
}

impl<T> Inner<T> {
    /// The messages that were sent and not yet received, oldest first.
    pub closed spec fn queue(&self) -> Seq<T> {
        self.queue@
    }

    /// The senders that are alive.
    pub closed spec fn senders(&self) -> nat {
        self.senders as nat
    }

    /// The state of a new channel: no message, one sender.
    pub fn new() -> (inner: Self)
        ensures
            inner.queue().len() == 0,
            inner.senders() == 1,
    {
        Inner { queue: VecDeque::new(), senders: 1 }
    }

    /// How many senders are alive.
    pub fn sender_count(&self) -> (count: usize)
        ensures
            count == self.senders(),
    {
        self.senders
    }

    /// A sender sends `value`; it notifies one waiter after.
    pub fn send(&mut self, value: T)
        ensures
            final(self).queue() == old(self).queue().push(value),
            final(self).senders() == old(self).senders(),
    {
        self.queue.push_back(value);
    }

    /// A sender is cloned.
    pub fn add_sender(&mut self)
        requires
            old(self).senders() < usize::MAX,
        ensures
            final(self).queue() == old(self).queue(),
            final(self).senders() == old(self).senders() + 1,
    {
        self.senders = self.senders + 1;
    }

    /// A sender is dropped. Returns whether it was the last one: the
    /// receiver is then notified, so that it can see the channel closed.
    pub fn drop_sender(&mut self) -> (last: bool)
        requires
            old(self).senders() > 0,
        ensures
            final(self).queue() == old(self).queue(),
            final(self).senders() == old(self).senders() - 1,
            last == (final(self).senders() == 0),
    {
        self.senders = self.senders - 1;
        self.senders == 0
    }

    /// The receiver looks for a message: the oldest one if there is one,
    /// else the news that none will come, else the advice to wait.
    pub fn recv(&mut self) -> (found: Received<T>)
        ensures
            final(self).senders() == old(self).senders(),
            old(self).queue().len() > 0 ==> found == Received::Item(old(self).queue().first())
                && final(self).queue() == old(self).queue().drop_first(),
            old(self).queue().len() == 0 ==> final(self).queue() == old(self).queue() && found == (
            if old(self).senders() == 0 {
                Received::<T>::Closed
            } else {
                Received::<T>::Wait
            }),
    {
        match self.queue.pop_front() {
            Some(value) => {
                proof {
                    assert(self.queue@ =~= old(self).queue@.drop_first());
                }
                Received::Item(value)
            },
            None => if self.senders == 0 {
                Received::Closed
            } else {
                Received::Wait
            },
        }
    }
}

} // verus!

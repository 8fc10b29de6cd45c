//! Queues of events: what one part of a tick tells the parts that follow.

use vstd::prelude::*;

verus! {

/// The events of one kind that were sent and not yet cleared.
pub struct Events<E> {
    pending: Vec<E>,
}

impl<E> View for Events<E> {
    type V = Seq<E>;

    /// The pending events, the oldest first.
    closed spec fn view(&self) -> Seq<E> {
        self.pending@
    }
}

impl<E> Events<E> {
    /// A queue with nothing pending.
    pub fn new() -> (events: Events<E>)
        ensures
            events@ == Seq::<E>::empty(),
    {
        Events { pending: Vec::new() }
    }

    /// Adds `event` to the pending ones.
    pub fn send(&mut self, event: E)
        ensures
            final(self)@ == old(self)@.push(event),
    {
        self.pending.push(event);
    }

    /// The number of pending events.
    pub fn len(&self) -> (n: usize)
        ensures
            n == self@.len(),
    {
        self.pending.len()
    }

    /// Tells whether nothing is pending.
    pub fn is_empty(&self) -> (b: bool)
        ensures
            b == (self@.len() == 0),
    {
        self.pending.len() == 0
    }

    /// Drops the pending events.
    pub fn clear(&mut self)
        ensures
            final(self)@ == Seq::<E>::empty(),
    {
        self.pending.clear();
    }

    /// Answers the pending events, however many, with one reaction: tells
    /// whether there was any, and leaves none.
    pub fn react(&mut self) -> (any: bool)
        ensures
            any == (old(self)@.len() > 0),
            final(self)@ == Seq::<E>::empty(),
    {
        if !self.is_empty() {
            self.clear();
            true
        } else {
            assert(self@ =~= Seq::<E>::empty());
            false
        }
    }
}

} // verus!

//! How many items are on their way through a queue.
use vstd::prelude::*;

verus! {

/// Counts the items that were put into a queue, or wait to be, and were not
/// taken out.
#[derive(Debug)]
pub struct QueueCounter {
    queued: usize,
    maximum: Option<usize>,
}

impl QueueCounter {
    /// The number of items.
    pub closed spec fn count(&self) -> nat {
        self.queued as nat
    }

    /// The most items that the queue holds, where it has a limit.
    pub closed spec fn limit(&self) -> Option<usize> {
        self.maximum
    }

    /// The counter of an empty queue. A limit of zero is none.
    pub fn new(maximum: usize) -> (r: Self)
        ensures
            r.count() == 0,
            r.limit() == if maximum == 0 {
                None
            } else {
                Some(maximum)
            },
    {
        QueueCounter {
            queued: 0,
            maximum: if maximum == 0 {
                None
            } else {
                Some(maximum)
            },
        }
    }

    /// An item is about to be put in. It counts from now on, although it may
    /// have to wait for a place.
    pub fn reserve(&mut self)
        requires
            old(self).count() < usize::MAX,
        ensures
            final(self).count() == old(self).count() + 1,
            final(self).limit() == old(self).limit(),
    {
        self.queued += 1;
    }

    /// An item that was about to be put in was not, or one was taken out.
    pub fn release(&mut self)
        requires
            old(self).count() > 0,
        ensures
            final(self).count() == old(self).count() - 1,
            final(self).limit() == old(self).limit(),
    {
        self.queued -= 1;
    }

    /// The number of items.
    pub fn len(&self) -> (r: usize)
        ensures
            r == self.count(),
    {
        self.queued
    }

    /// Whether there are no items.
    pub fn is_empty(&self) -> (r: bool)
        ensures
            r == (self.count() == 0),
    {
        self.queued == 0
    }

    /// Whether there are as many items as the queue holds, or more.
    pub fn is_full(&self) -> (r: bool)
        ensures
            r == (self.limit() matches Some(limit) && self.count() >= limit),
    {
        match self.maximum {
            Some(maximum) => self.queued >= maximum,
            None => false,
        }
    }

    /// The most items that the queue holds, where it has a limit.
    pub fn maximum(&self) -> (r: Option<usize>)
        ensures
            r == self.limit(),
    {
        self.maximum
    }
}

} // verus!

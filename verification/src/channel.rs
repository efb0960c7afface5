//! The submission channel: a bounded first-in, first-out queue.

use std::collections::VecDeque;
use vstd::prelude::*;

verus! {

/// A queue that holds at most `capacity()` items and hands them out in the
/// order in which they were accepted.
pub struct SubmissionChannel<T> {
    buffer: VecDeque<T>,
    capacity: usize,
}

impl<T> View for SubmissionChannel<T> {
    type V = Seq<T>;

    /// The buffered items, oldest first.
    closed spec fn view(&self) -> Seq<T> {
        self.buffer@
    }
}

impl<T> SubmissionChannel<T> {
    /// The number of items the channel was made to hold.
    pub closed spec fn capacity(&self) -> nat {
        self.capacity as nat
    }

    /// The channel never holds more than its capacity.
    pub open spec fn wf(&self) -> bool {
        self@.len() <= self.capacity()
    }

    /// An empty channel that holds up to `capacity` items.
    pub fn new(capacity: usize) -> (channel: Self)
        ensures
            channel.wf(),
            channel@ == Seq::<T>::empty(),
            channel.capacity() == capacity,
    {
        SubmissionChannel { buffer: VecDeque::new(), capacity }
    }

    /// The number of buffered items.
    pub fn len(&self) -> (n: usize)
        requires
            self.wf(),
        ensures
            n == self@.len(),
            n <= self.capacity(),
    {
        self.buffer.len()
    }

    /// Whether nothing is buffered.
    pub fn is_empty(&self) -> (empty: bool)
        requires
            self.wf(),
        ensures
            empty == (self@.len() == 0),
    {
        self.buffer.len() == 0
    }

    /// Whether the channel holds as many items as it can.
    pub fn is_full(&self) -> (full: bool)
        requires
            self.wf(),
        ensures
            full == (self@.len() == self.capacity()),
    {
        self.buffer.len() >= self.capacity
    }

    /// Puts `item` behind the buffered items. A full channel accepts nothing
    /// and hands the item back.
    pub fn try_send(&mut self, item: T) -> (sent: Result<(), T>)
        requires
            old(self).wf(),
        ensures
            final(self).wf(),
            final(self).capacity() == old(self).capacity(),
            old(self)@.len() < old(self).capacity() ==> {
                &&& sent is Ok
                &&& final(self)@ == old(self)@.push(item)
            },
            old(self)@.len() == old(self).capacity() ==> {
                &&& sent == Err::<(), T>(item)
                &&& final(self)@ == old(self)@
            },
    {
        if self.buffer.len() >= self.capacity {
            Err(item)
        } else {
            self.buffer.push_back(item);
            Ok(())
        }
    }

    /// Takes the oldest buffered item, if there is one.
    pub fn recv(&mut self) -> (received: Option<T>)
        requires
            old(self).wf(),
        ensures
            final(self).wf(),
            final(self).capacity() == old(self).capacity(),
            old(self)@.len() == 0 ==> {
                &&& received is None
                &&& final(self)@ == old(self)@
            },
            old(self)@.len() > 0 ==> {
                &&& received == Some(old(self)@[0])
                &&& final(self)@ == old(self)@.drop_first()
            },
    {
        self.buffer.pop_front()
    }

    /// Discards everything that is buffered.
    pub fn clear(&mut self)
        requires
            old(self).wf(),
        ensures
            final(self).wf(),
            final(self).capacity() == old(self).capacity(),
            final(self)@ == Seq::<T>::empty(),
    {
        self.buffer.clear();
    }
}

} // verus!

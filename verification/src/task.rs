//! The task record: one unit of work in a slot, and the handle that
//! resubmits the record.

use crate::channel::SubmissionChannel;
use crate::work::{Poll, UnitOfWork, WakeHandle};
use vstd::prelude::*;

verus! {

/// One unit of work together with its own wake handle.
///
/// The work sits in a slot. It is taken out of the slot for a step and put
/// back only if the step did not finish it, so an empty slot means that the
/// work has finished or is out for a step.
pub struct Task<W> {
    future: Option<W>,
    waker: WakeHandle,
}

impl<W> View for Task<W> {
    type V = Option<W>;

    /// What the slot holds.
    closed spec fn view(&self) -> Option<W> {
        self.future
    }
}

impl<W: UnitOfWork> Task<W> {
    /// The handle that resubmits this record.
    pub closed spec fn handle(&self) -> WakeHandle {
        self.waker
    }

    /// What settling does to a slot: work that is still pending goes back
    /// into it, finished work does not.
    pub open spec fn settled(work: W, outcome: Poll) -> Option<W> {
        match outcome {
            Poll::Pending => Some(work),
            Poll::Ready => None,
        }
    }

    /// What `poll_once` may do: turn `self` into `next` and report `polled`.
    ///
    /// An empty slot stays empty and nothing is reported. Work in the slot
    /// takes one step with the record's own handle, and the slot then holds
    /// what `settled` says of the outcome.
    pub open spec fn polls_to(&self, next: &Self, polled: Option<Poll>) -> bool {
        &&& next.handle() == self.handle()
        &&& match self@ {
            None => polled is None && next@ is None,
            Some(work) => exists|stepped: W|
                #![trigger work.steps_to(self.handle(), &stepped, polled->0)]
                {
                    &&& polled is Some
                    &&& work.steps_to(self.handle(), &stepped, polled->0)
                    &&& next@ == Self::settled(stepped, polled->0)
                },
        }
    }

    /// A record that holds `work` and is resubmitted by `waker`.
    pub fn new(work: W, waker: WakeHandle) -> (task: Self)
        ensures
            task@ == Some(work),
            task.handle() == waker,
    {
        Task { future: Some(work), waker }
    }

    /// The handle that resubmits this record.
    pub fn waker(&self) -> (waker: WakeHandle)
        ensures
            waker == self.handle(),
    {
        self.waker
    }

    /// Whether the slot is empty.
    pub fn is_finished(&self) -> (finished: bool)
        ensures
            finished == (self@ is None),
    {
        self.future.is_none()
    }

    /// Takes the work out of the slot and leaves the slot empty. Whoever
    /// gets work steps it and then calls `settle`.
    pub fn take(&mut self) -> (work: Option<W>)
        ensures
            work == old(self)@,
            final(self)@ is None,
            final(self).handle() == old(self).handle(),
    {
        self.future.take()
    }

    /// Ends a step of `work` that reported `outcome`: pending work goes back
    /// into the slot, finished work is dropped and the slot is left as it is.
    pub fn settle(&mut self, work: W, outcome: Poll)
        ensures
            outcome == Poll::Pending ==> final(self)@ == Some(work),
            outcome == Poll::Ready ==> final(self)@ == old(self)@,
            final(self).handle() == old(self).handle(),
    {
        match outcome {
            Poll::Pending => {
                self.future = Some(work);
            },
            Poll::Ready => {},
        }
    }

    /// Advances the record's work by one step, if the slot holds any, and
    /// reports what the step returned. With an empty slot nothing happens.
    pub fn poll_once(&mut self) -> (polled: Option<Poll>)
        ensures
            old(self).polls_to(final(self), polled),
    {
        match self.take() {
            None => None,
            Some(work) => {
                let mut work = work;
                let waker = self.waker;
                let outcome = work.step(waker);
                self.settle(work, outcome);
                Some(outcome)
            },
        }
    }

    /// Puts the record's handle on `ready_queue`, so that the record is
    /// polled again. A full queue accepts nothing and the handle comes back.
    pub fn wake_by_ref(&self, ready_queue: &mut SubmissionChannel<WakeHandle>) -> (sent: Result<
        (),
        WakeHandle,
    >)
        requires
            old(ready_queue).wf(),
        ensures
            final(ready_queue).wf(),
            final(ready_queue).capacity() == old(ready_queue).capacity(),
            old(ready_queue)@.len() < old(ready_queue).capacity() ==> {
                &&& sent is Ok
                &&& final(ready_queue)@ == old(ready_queue)@.push(self.handle())
            },
            old(ready_queue)@.len() == old(ready_queue).capacity() ==> {
                &&& sent == Err::<(), WakeHandle>(self.handle())
                &&& final(ready_queue)@ == old(ready_queue)@
            },
    {
        ready_queue.try_send(self.waker)
    }
}

/// What the pollers that share one record do to it, one at a time.
pub enum SlotEvent<W> {
    /// A poller takes what the slot holds, as `take` does.
    Take,
    /// A poller that took work out ends its step with this work and this
    /// outcome and settles, as `settle` does.
    Settle(W, Poll),
}

/// A record as its pollers see it: what the slot holds, and how many units
/// of work are out of the slot for a step.
pub struct Polling<W> {
    /// What the slot holds.
    pub slot: Option<W>,
    /// The number of steps that are under way.
    pub out: nat,
}

impl<W: UnitOfWork> Polling<W> {
    /// A record of which no step is under way, or one step whose work has
    /// left the slot empty.
    pub open spec fn wf(self) -> bool {
        self.out == 0 || (self.out == 1 && self.slot is None)
    }

    /// The record after one event. A poller that finds the slot empty takes
    /// nothing and starts no step, and only a poller whose step is under way
    /// settles.
    pub open spec fn after(self, event: SlotEvent<W>) -> Self {
        match event {
            SlotEvent::Take => if self.slot is Some {
                Polling { slot: None, out: self.out + 1 }
            } else {
                self
            },
            SlotEvent::Settle(work, outcome) => if self.out > 0 {
                Polling {
                    slot: match outcome {
                        Poll::Pending => Some(work),
                        Poll::Ready => self.slot,
                    },
                    out: (self.out - 1) as nat,
                }
            } else {
                self
            },
        }
    }

    /// The record after a sequence of events, in order.
    pub open spec fn after_all(self, events: Seq<SlotEvent<W>>) -> Self
        decreases events.len(),
    {
        if events.len() == 0 {
            self
        } else {
            self.after_all(events.drop_last()).after(events.last())
        }
    }
}

/// However the takes and settles of several pollers follow one another, the
/// work of one record is never in two steps at a time: at most one step is
/// under way, and while it is, the slot is empty.
pub proof fn law_one_step_at_a_time<W: UnitOfWork>(record: Polling<W>, events: Seq<SlotEvent<W>>)
    requires
        record.wf(),
    ensures
        record.after_all(events).wf(),
        record.after_all(events).out <= 1,
    decreases events.len(),
{
    if events.len() > 0 {
        law_one_step_at_a_time(record, events.drop_last());
    }
}

/// A poll that finds the slot empty, because the work has finished or is out
/// for a step, takes no step and leaves the slot empty.
pub proof fn law_empty_slot_is_not_polled<W: UnitOfWork>(
    task: Task<W>,
    next: Task<W>,
    polled: Option<Poll>,
)
    requires
        task@ is None,
        task.polls_to(&next, polled),
    ensures
        polled is None,
        next@ is None,
{
}

/// A poll steps the work at most once, and a record keeps its work exactly
/// when that step reported `Pending`.
pub proof fn law_slot_after_poll<W: UnitOfWork>(task: Task<W>, next: Task<W>, polled: Option<Poll>)
    requires
        task.polls_to(&next, polled),
    ensures
        next@ is Some <==> polled == Some(Poll::Pending),
        polled is Some <==> task@ is Some,
{
}

} // verus!

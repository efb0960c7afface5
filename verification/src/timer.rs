//! The timer: a completion signal that a unit of work polls and that the
//! timer's owner completes once the duration has elapsed.

use crate::work::{Poll, UnitOfWork, WakeHandle};
use std::time::Duration;
use vstd::prelude::*;

verus! {

/// The completion signal of a timer: whether the time has elapsed, and the
/// handle to notify when it does.
pub struct SharedState<H> {
    /// Set once the duration has elapsed.
    pub completed: bool,
    /// The handle of the most recent poller that had to suspend.
    pub waker: Option<H>,
}

/// Something that happens to a timer.
pub enum TimerEvent<H> {
    /// The timer is polled with this handle.
    Polled(H),
    /// The duration has elapsed.
    Elapsed,
}

impl<H> SharedState<H> {
    /// The signal of a timer that was just made.
    pub open spec fn fresh() -> Self {
        SharedState { completed: false, waker: None }
    }

    /// The signal after a poll with `waker`, and what the poll reports.
    pub open spec fn polled(self, waker: H) -> (Self, Poll) {
        if self.completed {
            (self, Poll::Ready)
        } else {
            (SharedState { completed: false, waker: Some(waker) }, Poll::Pending)
        }
    }

    /// The signal after the duration has elapsed, and the handle to invoke.
    pub open spec fn elapsed(self) -> (Self, Option<H>) {
        (SharedState { completed: true, waker: None }, self.waker)
    }

    /// The signal after one event.
    pub open spec fn after(self, event: TimerEvent<H>) -> Self {
        match event {
            TimerEvent::Polled(waker) => self.polled(waker).0,
            TimerEvent::Elapsed => self.elapsed().0,
        }
    }

    /// The signal after a sequence of events, in order.
    pub open spec fn after_all(self, events: Seq<TimerEvent<H>>) -> Self
        decreases events.len(),
    {
        if events.len() == 0 {
            self
        } else {
            self.after_all(events.drop_last()).after(events.last())
        }
    }

    /// The handles that a sequence of events hands out to be invoked, in
    /// order: one for each time the duration elapses while a handle is held.
    pub open spec fn fired_by(self, events: Seq<TimerEvent<H>>) -> Seq<H>
        decreases events.len(),
    {
        if events.len() == 0 {
            Seq::empty()
        } else {
            let earlier = self.fired_by(events.drop_last());
            match (events.last(), self.after_all(events.drop_last()).waker) {
                (TimerEvent::Elapsed, Some(waker)) => earlier.push(waker),
                _ => earlier,
            }
        }
    }
}

/// A unit of work that finishes once its duration has elapsed.
///
/// The timer does not measure time itself. Whoever made it waits for
/// `duration()` and then calls `complete`, invoking the handle that comes back.
pub struct TimerFuture<H> {
    shared_state: SharedState<H>,
    duration: Duration,
}

impl<H> View for TimerFuture<H> {
    type V = SharedState<H>;

    closed spec fn view(&self) -> SharedState<H> {
        self.shared_state
    }
}

impl<H> TimerFuture<H> {
    /// The duration the timer was made with.
    pub closed spec fn delay(&self) -> Duration {
        self.duration
    }

    /// A timer for `duration` that has not completed and has nobody to notify.
    pub fn new(duration: Duration) -> (timer: Self)
        ensures
            timer@ == SharedState::<H>::fresh(),
            timer.delay() == duration,
    {
        TimerFuture { shared_state: SharedState { completed: false, waker: None }, duration }
    }

    /// The duration to wait before calling `complete`.
    pub fn duration(&self) -> (duration: Duration)
        ensures
            duration == self.delay(),
    {
        self.duration
    }

    /// Whether the duration has elapsed.
    pub fn is_completed(&self) -> (completed: bool)
        ensures
            completed == self@.completed,
    {
        self.shared_state.completed
    }

    /// One step of the timer. A completed timer reports `Ready` and keeps its
    /// state. Any other timer remembers `waker`, in place of the handle it
    /// held before, and reports `Pending`.
    pub fn poll(&mut self, waker: H) -> (outcome: Poll)
        ensures
            (final(self)@, outcome) == old(self)@.polled(waker),
            final(self).delay() == old(self).delay(),
    {
        if self.shared_state.completed {
            Poll::Ready
        } else {
            self.shared_state.waker = Some(waker);
            Poll::Pending
        }
    }

    /// Records that the duration has elapsed. The timer is completed from now
    /// on and gives up the handle it held: the caller invokes it, once.
    pub fn complete(&mut self) -> (fired: Option<H>)
        ensures
            (final(self)@, fired) == old(self)@.elapsed(),
            final(self).delay() == old(self).delay(),
    {
        self.shared_state.completed = true;
        self.shared_state.waker.take()
    }
}

impl UnitOfWork for TimerFuture<WakeHandle> {
    open spec fn steps_to(&self, waker: WakeHandle, next: &Self, outcome: Poll) -> bool {
        &&& (next@, outcome) == self@.polled(waker)
        &&& next.delay() == self.delay()
    }

    fn step(&mut self, waker: WakeHandle) -> (outcome: Poll) {
        self.poll(waker)
    }
}

/// A signal is completed after a sequence of events exactly when it was
/// completed before or the duration elapsed among them: polls alone never
/// complete a timer.
pub proof fn law_completed_only_by_elapsing<H>(state: SharedState<H>, events: Seq<TimerEvent<H>>)
    ensures
        state.after_all(events).completed <==> state.completed || exists|i: int|
            0 <= i < events.len() && (#[trigger] events[i]) is Elapsed,
    decreases events.len(),
{
    if events.len() > 0 {
        let front = events.drop_last();
        law_completed_only_by_elapsing(state, front);
        if exists|i: int| 0 <= i < front.len() && (#[trigger] front[i]) is Elapsed {
            let i = choose|i: int| 0 <= i < front.len() && (#[trigger] front[i]) is Elapsed;
            assert(events[i] is Elapsed);
        }
        if exists|i: int| 0 <= i < events.len() && (#[trigger] events[i]) is Elapsed {
            let i = choose|i: int| 0 <= i < events.len() && (#[trigger] events[i]) is Elapsed;
            if i < front.len() {
                assert(front[i] is Elapsed);
            }
        }
    }
}

/// A timer wakes at most once: whatever happens to a new timer, all the
/// events together hand out at most one handle. While the timer still holds
/// a handle none has been handed out, and a completed timer holds none.
pub proof fn law_fires_at_most_once<H>(events: Seq<TimerEvent<H>>)
    ensures
        ({
            let fresh = SharedState::<H>::fresh();
            &&& fresh.fired_by(events).len() <= 1
            &&& fresh.after_all(events).waker is Some ==> fresh.fired_by(events).len() == 0
            &&& fresh.after_all(events).completed ==> fresh.after_all(events).waker is None
        }),
    decreases events.len(),
{
    if events.len() > 0 {
        law_fires_at_most_once(events.drop_last());
    }
}

/// A completed signal stays completed, whatever happens to it afterwards.
pub proof fn law_completion_is_permanent<H>(state: SharedState<H>, events: Seq<TimerEvent<H>>)
    requires
        state.completed,
    ensures
        state.after_all(events).completed,
    decreases events.len(),
{
    if events.len() > 0 {
        law_completion_is_permanent(state, events.drop_last());
    }
}

/// Once a poll has reported `Ready`, every later poll reports `Ready` too,
/// whatever happened to the timer in between.
pub proof fn law_finished_stays_finished<H>(
    state: SharedState<H>,
    first: H,
    between: Seq<TimerEvent<H>>,
    later: H,
)
    requires
        state.polled(first).1 == Poll::Ready,
    ensures
        state.polled(first).0.after_all(between).polled(later).1 == Poll::Ready,
{
    law_completion_is_permanent(state.polled(first).0, between);
}

} // verus!

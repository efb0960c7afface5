//! What holds of every executor, proved from what a turn and a run do.

use crate::executor::{RunOutcome, SendError, Turn};
use crate::model::{lemma_reaches_frame, lemma_reaches_split, ExecutorView};
use crate::task::Task;
use crate::work::{Poll, UnitOfWork, WakeHandle};
use vstd::prelude::*;

verus! {

/// A record that suspended and is not woken makes no progress: a run does
/// not touch the slot of a record whose handle is not on the channel. As
/// long as that slot holds work, the executor does not stop of its own
/// accord either.
pub proof fn law_no_wake_no_progress<W: UnitOfWork>(
    before: ExecutorView<W>,
    after: ExecutorView<W>,
    outcome: RunOutcome,
    waker: WakeHandle,
)
    requires
        before.runs_to(after, outcome),
        !before.queue.contains(waker),
    ensures
        after.slot(waker) == before.slot(waker),
        before.slot(waker) is Some && !before.stopped ==> outcome == RunOutcome::Idle,
{
    let drained = choose|drained: ExecutorView<W>|
        {
            &&& #[trigger] before.reaches(drained, before.queue.len())
            &&& drained.turns_to(after, outcome.last_turn())
        };
    lemma_reaches_frame(before, drained, before.queue.len());
    // A handle is its task, so no buffered handle names the task of `waker`.
    assert forall|j: int| 0 <= j < before.queue.len() implies (#[trigger] before.queue[j]).task
        != waker.task by {
        assert(before.queue[j] != waker);
    }
}

/// One wake, one step: if the handle of a record is buffered once and the
/// record holds work, a run advances that work by exactly one step, taken
/// with that handle, and the record keeps the work only if the step
/// reported `Pending`.
pub proof fn law_one_step_per_wake<W: UnitOfWork>(
    before: ExecutorView<W>,
    after: ExecutorView<W>,
    outcome: RunOutcome,
    at: int,
)
    requires
        before.runs_to(after, outcome),
        0 <= at < before.queue.len(),
        forall|j: int|
            0 <= j < before.queue.len() && j != at ==> (#[trigger] before.queue[j]).task
                != before.queue[at].task,
        before.slot(before.queue[at]) is Some,
    ensures
        exists|stepped: W, poll: Poll|
            {
                &&& #[trigger] before.slot(before.queue[at])->0.steps_to(
                    before.queue[at],
                    &stepped,
                    poll,
                )
                &&& after.slot(before.queue[at]) == Task::<W>::settled(stepped, poll)
            },
{
    let waker = before.queue[at];
    let work = before.slot(waker)->0;
    let total = before.queue.len();
    let drained = choose|drained: ExecutorView<W>|
        {
            &&& #[trigger] before.reaches(drained, before.queue.len())
            &&& drained.turns_to(after, outcome.last_turn())
        };
    lemma_reaches_frame(before, drained, total);
    // The turns up to and with the one that receives `waker`, and the rest.
    let polled = lemma_reaches_split(before, drained, total, (at + 1) as nat);
    let (ready, turn): (ExecutorView<W>, Turn) = choose|ready: ExecutorView<W>, turn: Turn|
        {
            &&& before.reaches(ready, at as nat)
            &&& #[trigger] ready.turns_to(polled, turn)
            &&& (turn is Stepped || turn is Skipped)
        };
    // No earlier turn touched the record, so this one finds `work`.
    lemma_reaches_frame(before, ready, at as nat);
    assert(ready.queue[0] == waker);
    assert(ready.slot(waker) == Some(work));
    // No later turn touches it either.
    lemma_reaches_frame(before, polled, (at + 1) as nat);
    lemma_reaches_frame(polled, drained, (total - at - 1) as nat);
    assert forall|j: int| 0 <= j < total - at - 1 implies (#[trigger] polled.queue[j]).task
        != waker.task by {
        assert(polled.queue[j] == before.queue[j + at + 1]);
    }
    assert(after.slot(waker) == polled.slot(waker));
}

/// A record that has finished stays finished: no run puts work into an
/// empty slot.
pub proof fn law_finished_record_stays_finished<W: UnitOfWork>(
    before: ExecutorView<W>,
    after: ExecutorView<W>,
    outcome: RunOutcome,
    waker: WakeHandle,
)
    requires
        before.runs_to(after, outcome),
        before.slot(waker) is None,
    ensures
        after.slot(waker) is None,
{
    let drained = choose|drained: ExecutorView<W>|
        {
            &&& #[trigger] before.reaches(drained, before.queue.len())
            &&& drained.turns_to(after, outcome.last_turn())
        };
    lemma_reaches_frame(before, drained, before.queue.len());
}

/// A run ends with nothing buffered, and it ends `Stopped` exactly when
/// the executor had stopped before or, after the last step, no spawner
/// handle remains and every record has finished: not before that, and then
/// always.
pub proof fn law_run_stops_when_all_finished<W: UnitOfWork>(
    before: ExecutorView<W>,
    after: ExecutorView<W>,
    outcome: RunOutcome,
)
    requires
        before.wf(),
        before.runs_to(after, outcome),
    ensures
        after.wf(),
        after.queue.len() == 0,
        after.spawners == before.spawners,
        after.capacity == before.capacity,
        after.slots.len() == before.slots.len(),
        after.stopped == (outcome == RunOutcome::Stopped),
        outcome == RunOutcome::Stopped <==> before.stopped || after.closed(),
{
    let drained = choose|drained: ExecutorView<W>|
        {
            &&& #[trigger] before.reaches(drained, before.queue.len())
            &&& drained.turns_to(after, outcome.last_turn())
        };
    lemma_reaches_frame(before, drained, before.queue.len());
}

/// What a batch of spawns with nothing received in between leaves behind.
proof fn lemma_spawned_all<W: UnitOfWork>(start: ExecutorView<W>, works: Seq<W>)
    requires
        start.wf(),
    ensures
        start.spawned_all(works).wf(),
        start.spawned_all(works).capacity == start.capacity,
        start.spawned_all(works).stopped == start.stopped,
        start.spawned_all(works).spawners == start.spawners,
        start.spawned_all(works).queue.len() == if start.stopped {
            start.queue.len()
        } else if start.queue.len() + works.len() <= start.capacity {
            start.queue.len() + works.len()
        } else {
            start.capacity
        },
    decreases works.len(),
{
    if works.len() > 0 {
        lemma_spawned_all(start, works.drop_last());
    }
}

/// Backpressure: when `works` are spawned one after the other and nothing is
/// received in between, the channel fills up and then refuses. The spawn
/// that follows `n` others of the batch is accepted exactly when the
/// executor has not stopped and the records buffered before the batch and
/// those `n` together stay below the capacity. Whatever is spawned beyond
/// that is refused, and the channel never holds more than its capacity.
pub proof fn law_backpressure<W: UnitOfWork>(start: ExecutorView<W>, works: Seq<W>)
    requires
        start.wf(),
    ensures
        forall|n: int|
            0 <= n <= works.len() ==> (#[trigger] start.spawned_all(works.take(n))).accepts() == (
            if start.stopped {
                Err::<(), SendError>(SendError::ChannelClosed)
            } else if start.queue.len() + n < start.capacity {
                Ok::<(), SendError>(())
            } else {
                Err::<(), SendError>(SendError::CapacityExceeded)
            }),
        forall|n: int|
            0 <= n <= works.len() ==> (#[trigger] start.spawned_all(works.take(n))).queue.len()
                <= start.capacity,
{
    assert forall|n: int| 0 <= n <= works.len() implies {
        &&& (#[trigger] start.spawned_all(works.take(n))).accepts() == (if start.stopped {
            Err::<(), SendError>(SendError::ChannelClosed)
        } else if start.queue.len() + n < start.capacity {
            Ok::<(), SendError>(())
        } else {
            Err::<(), SendError>(SendError::CapacityExceeded)
        })
        &&& start.spawned_all(works.take(n)).queue.len() <= start.capacity
    } by {
        lemma_spawned_all(start, works.take(n));
    }
}

} // verus!

//! The executor as contracts see it: its state as plain sequences and
//! numbers, and what a spawn, a wake, a turn and a run do to that state.

use crate::executor::{RunOutcome, SendError, Turn};
use crate::task::Task;
use crate::work::{UnitOfWork, WakeHandle};
use vstd::prelude::*;

verus! {

/// The number of slots that hold work.
pub open spec fn live_count<W>(slots: Seq<Option<W>>) -> nat
    decreases slots.len(),
{
    if slots.len() == 0 {
        0
    } else {
        live_count(slots.drop_last()) + if slots.last() is Some {
            1nat
        } else {
            0nat
        }
    }
}

/// No more slots hold work than there are slots.
pub(crate) proof fn lemma_live_count_bound<W>(slots: Seq<Option<W>>)
    ensures
        live_count(slots) <= slots.len(),
    decreases slots.len(),
{
    if slots.len() > 0 {
        lemma_live_count_bound(slots.drop_last());
    }
}

/// Filling or emptying one slot changes the count by that slot alone.
pub(crate) proof fn lemma_live_count_update<W>(slots: Seq<Option<W>>, at: int, slot: Option<W>)
    requires
        0 <= at < slots.len(),
    ensures
        live_count(slots.update(at, slot)) + (if slots[at] is Some {
            1nat
        } else {
            0nat
        }) == live_count(slots) + (if slot is Some {
            1nat
        } else {
            0nat
        }),
    decreases slots.len(),
{
    let updated = slots.update(at, slot);
    if at == slots.len() - 1 {
        assert(updated.drop_last() =~= slots.drop_last());
    } else {
        lemma_live_count_update(slots.drop_last(), at, slot);
        assert(updated.drop_last() =~= slots.drop_last().update(at, slot));
    }
}

/// No slot holds work exactly when the count is zero.
pub(crate) proof fn lemma_live_count_zero<W>(slots: Seq<Option<W>>)
    ensures
        live_count(slots) == 0 <==> forall|i: int|
            0 <= i < slots.len() ==> (#[trigger] slots[i]) is None,
    decreases slots.len(),
{
    if slots.len() > 0 {
        let front = slots.drop_last();
        lemma_live_count_zero(front);
        if live_count(slots) == 0 {
            assert forall|i: int| 0 <= i < slots.len() implies (#[trigger] slots[i]) is None by {
                if i < slots.len() - 1 {
                    assert(front[i] is None);
                }
            }
        }
        if forall|i: int| 0 <= i < slots.len() ==> (#[trigger] slots[i]) is None {
            assert forall|i: int| 0 <= i < front.len() implies (#[trigger] front[i]) is None by {
                assert(slots[i] is None);
            }
        }
    }
}

/// An executor as its contracts see it.
pub struct ExecutorView<W> {
    /// The handles on the submission channel, oldest first.
    pub queue: Seq<WakeHandle>,
    /// The slot of every task record, in the order in which they were spawned.
    pub slots: Seq<Option<W>>,
    /// The number of spawner handles that have not been released.
    pub spawners: nat,
    /// The capacity of the submission channel.
    pub capacity: nat,
    /// Whether the executor has stopped receiving.
    pub stopped: bool,
}

impl<W: UnitOfWork> ExecutorView<W> {
    /// What holds of every executor: the channel is within its capacity, and
    /// a stopped executor has nothing buffered.
    pub open spec fn wf(self) -> bool {
        &&& self.queue.len() <= self.capacity
        &&& self.stopped ==> self.queue.len() == 0
    }

    /// What the slot of the record named by `waker` holds. A handle that
    /// names no record of this executor finds nothing.
    pub open spec fn slot(self, waker: WakeHandle) -> Option<W> {
        if waker.task < self.slots.len() {
            self.slots[waker.task as int]
        } else {
            None
        }
    }

    /// Whether every record has finished.
    pub open spec fn all_finished(self) -> bool {
        forall|i: int| 0 <= i < self.slots.len() ==> (#[trigger] self.slots[i]) is None
    }

    /// Whether nobody is left who could send: no spawner handle remains and
    /// no record holds work that a wake could resubmit.
    pub open spec fn closed(self) -> bool {
        self.spawners == 0 && self.all_finished()
    }

    /// Whether the channel takes one more record, and if not, why.
    pub open spec fn accepts(self) -> Result<(), SendError> {
        if self.stopped {
            Err(SendError::ChannelClosed)
        } else if self.queue.len() >= self.capacity {
            Err(SendError::CapacityExceeded)
        } else {
            Ok(())
        }
    }

    /// The executor after an attempt to spawn `work`: where the channel
    /// accepts, a new record holds the work and its handle is queued last.
    pub open spec fn spawned(self, work: W) -> Self {
        if self.accepts() is Ok {
            ExecutorView {
                queue: self.queue.push(WakeHandle { task: self.slots.len() as usize }),
                slots: self.slots.push(Some(work)),
                ..self
            }
        } else {
            self
        }
    }

    /// The executor after attempts to spawn each of `works`, in order, with
    /// no turn in between.
    pub open spec fn spawned_all(self, works: Seq<W>) -> Self
        decreases works.len(),
    {
        if works.len() == 0 {
            self
        } else {
            self.spawned_all(works.drop_last()).spawned(works.last())
        }
    }

    /// The executor after `waker` was invoked: where the channel accepts,
    /// the handle is queued last.
    pub open spec fn woken(self, waker: WakeHandle) -> Self {
        if self.accepts() is Ok {
            ExecutorView { queue: self.queue.push(waker), ..self }
        } else {
            self
        }
    }

    /// What one iteration of the run loop may do: turn `self` into `next`
    /// and report `turn`.
    ///
    /// A stopped executor stays as it is. With nothing buffered the executor
    /// stops if the channel is closed and is idle otherwise. Else the oldest
    /// handle leaves the queue; if the slot of its record holds work, that
    /// work takes one step with this handle and is put back only if the step
    /// reported `Pending`. Nothing else changes.
    pub open spec fn turns_to(self, next: Self, turn: Turn) -> bool {
        if self.stopped {
            turn == Turn::Stopped && next == self
        } else if self.queue.len() == 0 {
            if self.closed() {
                turn == Turn::Stopped && next == (ExecutorView { stopped: true, ..self })
            } else {
                turn == Turn::Idle && next == self
            }
        } else {
            let waker = self.queue[0];
            &&& next.queue == self.queue.drop_first()
            &&& next.spawners == self.spawners
            &&& next.capacity == self.capacity
            &&& next.stopped == self.stopped
            &&& match self.slot(waker) {
                None => turn == Turn::Skipped && next.slots == self.slots,
                Some(work) => exists|stepped: W|
                    #![trigger work.steps_to(waker, &stepped, turn->Stepped_0)]
                    {
                        &&& turn is Stepped
                        &&& work.steps_to(waker, &stepped, turn->Stepped_0)
                        &&& next.slots == self.slots.update(
                            waker.task as int,
                            Task::<W>::settled(stepped, turn->Stepped_0),
                        )
                    },
            }
        }
    }

    /// Whether `turns` iterations of the run loop, each of which received a
    /// record, may turn `self` into `next`.
    pub open spec fn reaches(self, next: Self, turns: nat) -> bool
        decreases turns,
    {
        if turns == 0 {
            next == self
        } else {
            exists|mid: Self, turn: Turn|
                #![trigger mid.turns_to(next, turn)]
                {
                    &&& self.reaches(mid, (turns - 1) as nat)
                    &&& mid.turns_to(next, turn)
                    &&& (turn is Stepped || turn is Skipped)
                }
        }
    }

    /// What a run may do: one turn for each handle that was buffered when
    /// the run began, oldest first, and then a last turn that finds nothing
    /// buffered and reports `outcome`.
    pub open spec fn runs_to(self, last: Self, outcome: RunOutcome) -> bool {
        exists|drained: Self|
            #![trigger self.reaches(drained, self.queue.len())]
            {
                &&& self.reaches(drained, self.queue.len())
                &&& drained.turns_to(last, outcome.last_turn())
            }
    }
}

/// One more turn that receives a record extends a sequence of such turns.
pub(crate) proof fn lemma_reaches_one_more<W: UnitOfWork>(
    start: ExecutorView<W>,
    mid: ExecutorView<W>,
    next: ExecutorView<W>,
    turn: Turn,
    turns: nat,
)
    requires
        start.reaches(mid, turns),
        mid.turns_to(next, turn),
        turn is Stepped || turn is Skipped,
    ensures
        start.reaches(next, turns + 1),
{
}

/// A sequence of turns that used up the queue, and a last turn after it,
/// make a run.
pub(crate) proof fn lemma_runs_to<W: UnitOfWork>(
    start: ExecutorView<W>,
    drained: ExecutorView<W>,
    last: ExecutorView<W>,
    outcome: RunOutcome,
)
    requires
        start.reaches(drained, start.queue.len()),
        drained.turns_to(last, outcome.last_turn()),
    ensures
        start.runs_to(last, outcome),
{
}

/// What turns that receive records leave alone: the counts, the order of
/// the handles still buffered, every empty slot, and every slot whose handle
/// was not among those received.
pub(crate) proof fn lemma_reaches_frame<W: UnitOfWork>(
    start: ExecutorView<W>,
    end: ExecutorView<W>,
    turns: nat,
)
    requires
        start.reaches(end, turns),
    ensures
        turns <= start.queue.len(),
        turns > 0 ==> !start.stopped,
        end.queue == start.queue.skip(turns as int),
        end.spawners == start.spawners,
        end.capacity == start.capacity,
        end.stopped == start.stopped,
        end.slots.len() == start.slots.len(),
        forall|i: int|
            0 <= i < start.slots.len() && (#[trigger] start.slots[i]) is None ==> end.slots[i] is None,
        forall|i: int|
            0 <= i < start.slots.len() && (forall|j: int|
                0 <= j < turns ==> (#[trigger] start.queue[j]).task != i) ==> (#[trigger] end.slots[i])
                == start.slots[i],
    decreases turns,
{
    if turns > 0 {
        // The turns but the last, and the last: it receives the handle
        // that was buffered at position `turns - 1`.
        let (mid, turn): (ExecutorView<W>, Turn) = choose|mid: ExecutorView<W>, turn: Turn|
            {
                &&& start.reaches(mid, (turns - 1) as nat)
                &&& #[trigger] mid.turns_to(end, turn)
                &&& (turn is Stepped || turn is Skipped)
            };
        lemma_reaches_frame(start, mid, (turns - 1) as nat);
        assert(mid.queue[0] == start.queue[turns - 1]);
        assert forall|i: int|
            0 <= i < start.slots.len() && (forall|j: int|
                0 <= j < turns ==> (#[trigger] start.queue[j]).task != i) implies (
        #[trigger] end.slots[i]) == start.slots[i] by {
            assert(start.queue[turns - 1].task != i);
        }
    }
}

/// A sequence of turns can be cut in two at any point.
pub(crate) proof fn lemma_reaches_split<W: UnitOfWork>(
    start: ExecutorView<W>,
    end: ExecutorView<W>,
    turns: nat,
    cut: nat,
) -> (mid: ExecutorView<W>)
    requires
        start.reaches(end, turns),
        cut <= turns,
    ensures
        start.reaches(mid, cut),
        mid.reaches(end, (turns - cut) as nat),
    decreases turns,
{
    if cut == turns {
        end
    } else {
        let (last, turn): (ExecutorView<W>, Turn) = choose|last: ExecutorView<W>, turn: Turn|
            {
                &&& start.reaches(last, (turns - 1) as nat)
                &&& #[trigger] last.turns_to(end, turn)
                &&& (turn is Stepped || turn is Skipped)
            };
        let mid = lemma_reaches_split(start, last, (turns - 1) as nat, cut);
        lemma_reaches_one_more(mid, last, end, turn, (turns - 1 - cut) as nat);
        mid
    }
}
} // verus!

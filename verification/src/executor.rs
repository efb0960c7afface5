//! The executor, its spawner handles, and the run loop.

use crate::channel::SubmissionChannel;
use crate::laws::law_run_stops_when_all_finished;
use crate::model::{
    lemma_live_count_bound, lemma_live_count_update, lemma_live_count_zero,
    lemma_reaches_one_more, lemma_runs_to, live_count, ExecutorView,
};
use crate::task::Task;
use crate::work::{Poll, UnitOfWork, WakeHandle};
use vstd::prelude::*;

verus! {

/// The capacity of the submission channel of every executor.
pub const MAX_QUEUE_TASKS: usize = 10_000;

/// Why a spawn or a wake put nothing on the submission channel.
#[derive(Clone, Copy, Debug, PartialEq, Eq, Structural)]
pub enum SendError {
    /// The channel already holds as many records as it can.
    CapacityExceeded,
    /// The executor has stopped receiving.
    ChannelClosed,
}

/// What one iteration of the run loop did.
#[derive(Clone, Copy, Debug, PartialEq, Eq, Structural)]
pub enum Turn {
    /// A record was received and its work took one step, with this outcome.
    Stepped(Poll),
    /// A record was received that had no work in its slot.
    Skipped,
    /// Nothing is buffered and the channel is still open: the loop has to
    /// wait for a wake or a spawn.
    Idle,
    /// The channel is closed and drained: the loop is over.
    Stopped,
}

/// How a run of the executor ended.
#[derive(Clone, Copy, Debug, PartialEq, Eq, Structural)]
pub enum RunOutcome {
    /// Nothing is buffered and the channel is still open. Run again after
    /// the next wake or spawn.
    Idle,
    /// The channel is closed and drained.
    Stopped,
}

impl RunOutcome {
    /// The turn that ends a run with this outcome.
    pub open spec fn last_turn(self) -> Turn {
        match self {
            RunOutcome::Idle => Turn::Idle,
            RunOutcome::Stopped => Turn::Stopped,
        }
    }
}

/// A handle for submitting work to an executor.
///
/// An executor counts its spawner handles. It stops only when each of them
/// has been handed back with `Executor::release`.
pub struct Spawner {
    token: (),
}

/// Drives task records: receives them from the submission channel in the
/// order in which they were sent and advances each by one step.
pub struct Executor<W> {
    ready_queue: SubmissionChannel<WakeHandle>,
    tasks: Vec<Task<W>>,
    spawners: usize,
    live: usize,
    stopped: bool,
}

impl<W: UnitOfWork> View for Executor<W> {
    type V = ExecutorView<W>;

    closed spec fn view(&self) -> ExecutorView<W> {
        ExecutorView {
            queue: self.ready_queue@,
            slots: Seq::new(self.tasks@.len(), |i: int| self.tasks@[i]@),
            spawners: self.spawners as nat,
            capacity: self.ready_queue.capacity(),
            stopped: self.stopped,
        }
    }
}

/// A new executor with an empty submission channel of `MAX_QUEUE_TASKS`
/// entries, and the one spawner handle for it.
pub fn new_executor_and_spawner<W: UnitOfWork>() -> (pair: (Executor<W>, Spawner))
    ensures
        pair.0.wf(),
        pair.0@ == (ExecutorView::<W> {
            queue: Seq::empty(),
            slots: Seq::empty(),
            spawners: 1,
            capacity: MAX_QUEUE_TASKS as nat,
            stopped: false,
        }),
{
    let executor = Executor {
        ready_queue: SubmissionChannel::new(MAX_QUEUE_TASKS),
        tasks: Vec::new(),
        spawners: 1,
        live: 0,
        stopped: false,
    };
    proof {
        assert(executor@.slots =~= Seq::empty());
    }
    (executor, Spawner { token: () })
}

impl Spawner {
    /// Wraps `work` into a new task record of `executor` and sends the record
    /// on the submission channel. Nothing is spawned, and the work is
    /// dropped, if the executor has stopped or the channel is full.
    pub fn spawn<W: UnitOfWork>(&self, executor: &mut Executor<W>, work: W) -> (spawned: Result<
        (),
        SendError,
    >)
        requires
            old(executor).wf(),
        ensures
            final(executor).wf(),
            spawned == old(executor)@.accepts(),
            final(executor)@ == old(executor)@.spawned(work),
    {
        if executor.stopped {
            return Err(SendError::ChannelClosed);
        }
        if executor.ready_queue.is_full() {
            return Err(SendError::CapacityExceeded);
        }
        let task: usize = executor.tasks.len();
        let ghost before = executor@;
        executor.tasks.push(Task::new(work, WakeHandle { task }));
        // The records are now one more and still counted by a usize, so the
        // live ones, which were no more than the records before, can be too.
        let records: usize = executor.tasks.len();
        proof {
            lemma_live_count_bound(before.slots);
            assert(executor.live < records);
        }
        executor.live = executor.live + 1;
        let _ = executor.tasks[task].wake_by_ref(&mut executor.ready_queue);
        proof {
            assert(executor@.slots =~= before.slots.push(Some(work)));
            assert(before.slots.push(Some(work)).drop_last() =~= before.slots);
        }
        Ok(())
    }

    /// A further spawner handle for `executor`.
    pub fn duplicate<W: UnitOfWork>(&self, executor: &mut Executor<W>) -> (spawner: Spawner)
        requires
            old(executor).wf(),
            old(executor)@.spawners < usize::MAX,
        ensures
            final(executor).wf(),
            final(executor)@ == (ExecutorView {
                spawners: old(executor)@.spawners + 1,
                ..old(executor)@
            }),
    {
        executor.spawners = executor.spawners + 1;
        Spawner { token: () }
    }
}

impl<W: UnitOfWork> Executor<W> {
    /// The invariant of an executor: what holds of its view, and that its
    /// parts agree with each other.
    pub open spec fn wf(&self) -> bool {
        &&& self@.wf()
        &&& self.consistent()
    }

    /// The channel is well formed, the count of live records is right, and
    /// every record carries the handle of its own position.
    pub closed spec fn consistent(&self) -> bool {
        &&& self.ready_queue.wf()
        &&& self.live == live_count(self@.slots)
        &&& forall|i: int|
            0 <= i < self.tasks@.len() ==> (#[trigger] self.tasks@[i]).handle().task == i
    }

    /// Whether the executor has stopped receiving.
    pub fn is_stopped(&self) -> (stopped: bool)
        ensures
            stopped == self@.stopped,
    {
        self.stopped
    }

    /// The number of handles on the submission channel.
    pub fn queued(&self) -> (queued: usize)
        requires
            self.wf(),
        ensures
            queued == self@.queue.len(),
    {
        self.ready_queue.len()
    }

    /// The number of records that hold unfinished work.
    pub fn pending(&self) -> (pending: usize)
        requires
            self.wf(),
        ensures
            pending == live_count(self@.slots),
    {
        self.live
    }

    /// The number of spawner handles that have not been released.
    pub fn spawners(&self) -> (spawners: usize)
        ensures
            spawners == self@.spawners,
    {
        self.spawners
    }

    /// Takes back a spawner handle. An executor that counts no handle stays
    /// as it is.
    pub fn release(&mut self, spawner: Spawner)
        requires
            old(self).wf(),
        ensures
            final(self).wf(),
            final(self)@ == (ExecutorView {
                spawners: if old(self)@.spawners > 0 {
                    (old(self)@.spawners - 1) as nat
                } else {
                    0
                },
                ..old(self)@
            }),
    {
        let Spawner { token: _ } = spawner;
        if self.spawners > 0 {
            self.spawners = self.spawners - 1;
        }
    }

    /// Invokes `waker`: sends the record it names on the submission channel,
    /// so that the record is polled once more. Nothing is sent if the
    /// executor has stopped or the channel is full. A handle is sent whether
    /// or not its record still holds work: the turn that receives it finds
    /// out.
    pub fn wake(&mut self, waker: WakeHandle) -> (woken: Result<(), SendError>)
        requires
            old(self).wf(),
        ensures
            final(self).wf(),
            woken == old(self)@.accepts(),
            final(self)@ == old(self)@.woken(waker),
    {
        if self.stopped {
            return Err(SendError::ChannelClosed);
        }
        match self.ready_queue.try_send(waker) {
            Ok(()) => Ok(()),
            Err(_) => Err(SendError::CapacityExceeded),
        }
    }

    /// One iteration of the run loop, without waiting: receives the oldest
    /// record on the channel, if there is one, and polls it once.
    pub fn turn(&mut self) -> (turn: Turn)
        requires
            old(self).wf(),
        ensures
            final(self).wf(),
            old(self)@.turns_to(final(self)@, turn),
    {
        if self.stopped {
            return Turn::Stopped;
        }
        let ghost before = self@;
        match self.ready_queue.recv() {
            None => {
                proof {
                    lemma_live_count_zero(before.slots);
                }
                if self.spawners == 0 && self.live == 0 {
                    self.stopped = true;
                    Turn::Stopped
                } else {
                    Turn::Idle
                }
            },
            Some(waker) => {
                if waker.task < self.tasks.len() {
                    let polled = self.tasks[waker.task].poll_once();
                    proof {
                        let next = self.tasks@[waker.task as int];
                        lemma_live_count_update(before.slots, waker.task as int, next@);
                        assert(self@.slots =~= before.slots.update(waker.task as int, next@));
                    }
                    match polled {
                        None => {
                            proof {
                                assert(self@.slots =~= before.slots);
                            }
                            Turn::Skipped
                        },
                        Some(Poll::Ready) => {
                            self.live = self.live - 1;
                            Turn::Stepped(Poll::Ready)
                        },
                        Some(Poll::Pending) => Turn::Stepped(Poll::Pending),
                    }
                } else {
                    Turn::Skipped
                }
            },
        }
    }

    /// Runs the loop: polls every buffered record, oldest first, until
    /// nothing is buffered. The run ends `Stopped` if the channel is then
    /// closed, and `Idle` where a real channel would block.
    pub fn run(&mut self) -> (outcome: RunOutcome)
        requires
            old(self).wf(),
        ensures
            final(self).wf(),
            old(self)@.runs_to(final(self)@, outcome),
            final(self)@.queue.len() == 0,
            outcome == RunOutcome::Stopped <==> old(self)@.stopped || final(self)@.closed(),
    {
        let ghost start = self@;
        let ghost turns: nat = 0;
        loop
            invariant
                self.wf(),
                start == old(self)@,
                start.wf(),
                start.reaches(self@, turns),
                turns + self@.queue.len() == start.queue.len(),
            decreases self@.queue.len(),
        {
            let ghost before = self@;
            let turn = self.turn();
            match turn {
                Turn::Stopped => {
                    proof {
                        lemma_runs_to(start, before, self@, RunOutcome::Stopped);
                        law_run_stops_when_all_finished(start, self@, RunOutcome::Stopped);
                    }
                    return RunOutcome::Stopped;
                },
                Turn::Idle => {
                    proof {
                        lemma_runs_to(start, before, self@, RunOutcome::Idle);
                        law_run_stops_when_all_finished(start, self@, RunOutcome::Idle);
                    }
                    return RunOutcome::Idle;
                },
                _ => {
                    proof {
                        lemma_reaches_one_more(start, before, self@, turn, turns);
                        turns = turns + 1;
                    }
                },
            }
        }
    }

    /// Stops receiving for good and discards what is buffered. Every later
    /// spawn or wake fails with `ChannelClosed`.
    pub fn disconnect(&mut self)
        requires
            old(self).wf(),
        ensures
            final(self).wf(),
            final(self)@ == (ExecutorView {
                queue: Seq::empty(),
                stopped: true,
                ..old(self)@
            }),
    {
        self.ready_queue.clear();
        self.stopped = true;
    }
}

} // verus!

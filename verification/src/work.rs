//! The capability that the executor drives: a unit of work that advances by
//! single steps, and the handle by which it asks to be run again.

use vstd::prelude::*;

verus! {

/// What one step of a unit of work reports.
#[derive(Clone, Copy, Debug, PartialEq, Eq, Structural)]
pub enum Poll {
    /// The work has finished.
    Ready,
    /// The work is not finished and suspends until it is woken.
    Pending,
}

/// Names one task record of an executor. Handing it to `Executor::wake` puts
/// that record back on the submission channel.
#[derive(Clone, Copy, Debug, PartialEq, Eq, Structural)]
pub struct WakeHandle {
    /// Position of the task record among the records of its executor.
    pub task: usize,
}

/// A computation that can suspend and be resumed.
pub trait UnitOfWork: Sized {
    /// What a step may do: from `self`, given `waker`, the work may become
    /// `next` and report `outcome`. An implementation that does not describe
    /// itself leaves every step possible.
    open spec fn steps_to(&self, waker: WakeHandle, next: &Self, outcome: Poll) -> bool {
        true
    }

    /// Advances the work by one step. `waker` is the handle that the work
    /// keeps, or passes on, in order to be run again after it has suspended.
    fn step(&mut self, waker: WakeHandle) -> (outcome: Poll)
        ensures
            old(self).steps_to(waker, final(self), outcome),
    ;
}

} // verus!

//! A minimal cooperative task executor, verified.
//!
//! Units of work are advanced one step at a time. A step that cannot finish
//! suspends, and the work runs again only after its wake handle has put its
//! task record back on the bounded submission channel.
//!
//! Everything here is sequential and deterministic: sharing a value between
//! threads, sleeping and blocking are left to the caller, who hands the
//! resulting events (a wake, a completed timer, a dropped handle) to the
//! functions of this crate.

pub mod channel;
pub mod executor;
pub mod laws;
pub mod model;
pub mod task;
pub mod timer;
pub mod work;

pub use channel::SubmissionChannel;
pub use executor::{
    new_executor_and_spawner, Executor, RunOutcome, SendError, Spawner, Turn, MAX_QUEUE_TASKS,
};
pub use model::ExecutorView;
pub use task::{Polling, SlotEvent, Task};
pub use timer::{SharedState, TimerEvent, TimerFuture};
pub use work::{Poll, UnitOfWork, WakeHandle};

//! A work-stealing scheduler for short-lived asynchronous tasks.
//!
//! Every worker owns a local queue and prefers it. When that queue is empty
//! the worker drains a batch from the shared global queue, and when that
//! is empty too it steals from the local queues of its peers. A steal that
//! lost a race reports so, and is repeated rather than taken for an empty
//! queue.
//!
//! * [`outcome`]: what one steal attempt reports, and how reports combine.
//! * [`search`]: the steal algorithm over arbitrary sources of tasks.
//! * [`queues`]: the lock-free queues that the tasks wait in.
//! * [`executor`]: the pool's queues, the search for a worker's next task,
//!   and the submission of computations.
//! * [`handle`]: the handle that resolves to a computation's result.

pub mod executor;
pub mod handle;
pub mod outcome;
pub mod queues;
pub mod search;

pub use executor::{find_task, spawn, PoolWorker, Scheduler};
pub use handle::{Completion, JoinHandler};
pub use outcome::StealOutcome;

//! The queue topology: one shared global queue, one local queue per worker,
//! and a stealer for each local queue.
//!
//! The queues are those of `crossbeam_deque`. They are lock-free and shared
//! between threads, so what a queue holds can change between any two calls:
//! nothing is claimed here about what an attempt to take a task finds.

use vstd::prelude::*;
use crossbeam_deque::{Injector, Steal, Stealer, Worker};
use crate::outcome::StealOutcome;

verus! {

/// `crossbeam_deque::Worker`: the local queue that one worker owns.
#[verifier::external_type_specification]
#[verifier::external_body]
#[verifier::reject_recursive_types(T)]
pub struct ExWorker<T>(Worker<T>);

/// `crossbeam_deque::Stealer`: the end of a local queue that is open to the
/// other workers.
#[verifier::external_type_specification]
#[verifier::external_body]
#[verifier::reject_recursive_types(T)]
pub struct ExStealer<T>(Stealer<T>);

/// `crossbeam_deque::Injector`: the global queue.
#[verifier::external_type_specification]
#[verifier::external_body]
#[verifier::reject_recursive_types(T)]
pub struct ExInjector<T>(Injector<T>);

/// `Injector::new` makes a global queue. Nothing is claimed of it.
pub assume_specification<T>[ Injector::<T>::new ]() -> (global: Injector<T>);

/// `Injector::push` puts a task into the global queue. It returns nothing,
/// and nothing is claimed of the queue.
pub assume_specification<T>[ Injector::<T>::push ](global: &Injector<T>, task: T);

/// `Worker::new_fifo` makes a local queue whose owner takes tasks in the
/// order in which they came. Nothing is claimed of it.
pub assume_specification<T>[ Worker::<T>::new_fifo ]() -> (local: Worker<T>);

/// `Worker::stealer` makes a stealer for a local queue. Nothing is claimed
/// of it.
pub assume_specification<T>[ Worker::<T>::stealer ](local: &Worker<T>) -> (stealer: Stealer<T>);

/// `Worker::pop` takes a task from the owner's end of a local queue, if it
/// finds one. Peers may steal from the queue at any time, so nothing is
/// claimed of what is found.
pub assume_specification<T>[ Worker::<T>::pop ](local: &Worker<T>) -> (popped: Option<T>);

/// `Stealer::clone` makes a second stealer for the same local queue. Nothing
/// is claimed of it.
pub assume_specification<T>[ <Stealer<T> as Clone>::clone ](stealer: &Stealer<T>) -> (twin: Stealer<T>);

/// `Stealer::steal`: one attempt to take a task from a peer's local queue.
/// The three answers of the queue are handed on as they are; which of them
/// comes depends on what the other threads do, and nothing is claimed of it.
#[verifier::external_body]
pub(crate) fn steal_from_peer<T>(stealer: &Stealer<T>) -> (answer: StealOutcome<T>) {
    match stealer.steal() {
        Steal::Empty => StealOutcome::Empty,
        Steal::Success(task) => StealOutcome::Success(task),
        Steal::Retry => StealOutcome::Retry,
    }
}

/// `Injector::steal_batch_and_pop`: one attempt to move a batch of tasks
/// from the global queue into `local` and to take one of them. The three
/// answers of the queue are handed on as they are; which of them comes
/// depends on what the other threads do, and nothing is claimed of it.
#[verifier::external_body]
pub(crate) fn steal_from_global<T>(global: &Injector<T>, local: &Worker<T>) -> (answer: StealOutcome<T>) {
    match global.steal_batch_and_pop(local) {
        Steal::Empty => StealOutcome::Empty,
        Steal::Success(task) => StealOutcome::Success(task),
        Steal::Retry => StealOutcome::Retry,
    }
}

} // verus!

//! The scheduler: the queues of a pool of workers, the search for the next
//! task, and the submission of computations.

use vstd::prelude::*;
use std::sync::Arc;
use async_task::{JoinHandle, Task};
use crossbeam_deque::{Injector, Stealer, Worker};
use futures::Future;
use crate::handle::JoinHandler;
use crate::outcome::StealOutcome;
use crate::queues::{steal_from_global, steal_from_peer};
use crate::search::search;

verus! {

/// `async_task::Task`: a computation packaged for running, together with the
/// way to queue it again when it is woken.
#[verifier::external_type_specification]
#[verifier::external_body]
#[verifier::reject_recursive_types(T)]
pub struct ExTask<T>(Task<T>);

/// `Task::schedule` hands the task to the function it was packaged with,
/// which queues it. It returns nothing.
pub assume_specification<T>[ Task::<T>::schedule ](task: Task<T>);

/// `Arc::clone`: a second handle to the same shared value.
#[verifier::external_body]
fn share<T>(shared: &Arc<T>) -> (twin: Arc<T>)
    ensures
        twin == *shared,
{
    Arc::clone(shared)
}

/// `num_cpus::get`: the number of logical processors that the host reports.
/// It depends on the machine. Its documentation promises that it is at least
/// 1, and that is all that is claimed of it.
#[verifier::external_body]
fn logical_processors() -> (count: usize)
    ensures
        count >= 1,
{
    num_cpus::get()
}

/// `async_task::spawn` packages a computation into a task and the handle
/// that awaits it. Whenever the task is to be queued, at first and after
/// each wake-up, it is handed to `scheduler.submit`. Nothing is claimed of
/// the two values.
#[verifier::external_body]
fn package<F, R>(fut: F, scheduler: Scheduler) -> (made: (Task<()>, JoinHandle<R, ()>)) where
    R: 'static + Send,
    F: 'static + Send + Future<Output = R>,
 {
    async_task::spawn(fut, move |task| scheduler.submit(task), ())
}

/// Looks for a task for the worker that owns `local`: in `local` itself,
/// then in rounds of a batch from `global` and, where `global` was found
/// empty, a steal from each of `stealers` in order. A round that lost a race
/// is repeated from `global`, at most `patience` rounds in all.
///
/// `Success` carries the task. `Empty` says that a round found every queue
/// empty, and so is never the report where no round is allowed. `Retry`
/// says that no round settled the question. What the queues answer is up to
/// them and to the other threads; for every way they may answer, the report
/// is the one that [`search`] states.
pub fn find_task<T>(
    local: &Worker<T>,
    global: &Injector<T>,
    stealers: &[Stealer<T>],
    patience: usize,
) -> (out: StealOutcome<T>)
    ensures
        patience == 0 ==> !(out is Empty),
{
    let own = || -> (popped: Option<T>) { local.pop() };
    let shared = || -> (answer: StealOutcome<T>) { steal_from_global(global, local) };
    let peer = |j: usize| -> (answer: StealOutcome<T>)
        requires
            j < stealers@.len(),
        { steal_from_peer(&stealers[j]) };
    search(&own, &shared, &peer, stealers.len(), patience)
}

/// The handle to a scheduler: the shared global queue, into which every
/// task enters.
pub struct Scheduler {
    global: Arc<Injector<Task<()>>>,
}

/// What one worker of the pool owns: its local queue, the global queue, and
/// the stealers of all local queues of the pool.
pub struct PoolWorker {
    local: Worker<Task<()>>,
    global: Arc<Injector<Task<()>>>,
    peers: Vec<Stealer<Task<()>>>,
}

/// Makes `count` local queues.
fn local_queues(count: usize) -> (locals: Vec<Worker<Task<()>>>)
    ensures
        locals@.len() == count,
{
    let mut locals: Vec<Worker<Task<()>>> = Vec::new();
    while locals.len() < count
        invariant
            locals@.len() <= count,
        decreases count - locals@.len(),
    {
        locals.push(Worker::new_fifo());
    }
    locals
}

/// Makes the stealer of each local queue, in the order of the queues.
fn stealers_of(locals: &Vec<Worker<Task<()>>>) -> (stealers: Vec<Stealer<Task<()>>>)
    ensures
        stealers@.len() == locals@.len(),
{
    let mut stealers: Vec<Stealer<Task<()>>> = Vec::new();
    while stealers.len() < locals.len()
        invariant
            stealers@.len() <= locals@.len(),
        decreases locals@.len() - stealers@.len(),
    {
        let next = locals[stealers.len()].stealer();
        stealers.push(next);
    }
    stealers
}

/// Makes a second stealer for each of the same local queues, in the same
/// order.
fn twins_of(stealers: &Vec<Stealer<Task<()>>>) -> (twins: Vec<Stealer<Task<()>>>)
    ensures
        twins@.len() == stealers@.len(),
{
    let mut twins: Vec<Stealer<Task<()>>> = Vec::new();
    while twins.len() < stealers.len()
        invariant
            twins@.len() <= stealers@.len(),
        decreases stealers@.len() - twins@.len(),
    {
        let next = stealers[twins.len()].clone();
        twins.push(next);
    }
    twins
}

impl Scheduler {
    /// Makes the queues of a pool of `workers` workers: one global queue,
    /// and for each worker a local queue, a handle to the global queue and
    /// a stealer for the local queue of every worker of the pool.
    pub fn new(workers: usize) -> (made: (Scheduler, Vec<PoolWorker>))
        ensures
            made.1@.len() == workers,
            forall|i: int| 0 <= i < workers ==> (#[trigger] made.1@[i]).peer_count() == workers,
    {
        let global: Arc<Injector<Task<()>>> = Arc::new(Injector::new());
        let mut locals = local_queues(workers);
        let stealers = stealers_of(&locals);
        let mut pool: Vec<PoolWorker> = Vec::new();
        while locals.len() > 0
            invariant
                pool@.len() + locals@.len() == workers,
                stealers@.len() == workers,
                forall|i: int| 0 <= i < pool@.len() ==> (#[trigger] pool@[i]).peer_count() == workers,
            decreases locals@.len(),
        {
            let popped = locals.pop();
            if let Some(local) = popped {
                let worker = PoolWorker { local, global: share(&global), peers: twins_of(&stealers) };
                pool.push(worker);
            }
        }
        (Scheduler { global }, pool)
    }

    /// Makes the queues of a pool with one worker for each logical
    /// processor that the host reports, and so with at least one worker.
    pub fn for_host() -> (made: (Scheduler, Vec<PoolWorker>))
        ensures
            made.1@.len() >= 1,
            forall|i: int|
                0 <= i < made.1@.len() ==> (#[trigger] made.1@[i]).peer_count() == made.1@.len(),
    {
        Scheduler::new(logical_processors())
    }

    /// A second handle to the same scheduler.
    pub fn handle(&self) -> (twin: Scheduler)
        ensures
            twin == *self,
    {
        Scheduler { global: share(&self.global) }
    }

    /// Puts a task into the global queue.
    pub fn submit(&self, task: Task<()>) {
        self.global.push(task);
    }
}

impl PoolWorker {
    /// The number of local queues that this worker can steal from.
    pub closed spec fn peer_count(&self) -> nat {
        self.peers@.len()
    }

    /// The number of local queues that this worker can steal from.
    pub fn peers(&self) -> (count: usize)
        ensures
            count == self.peer_count(),
    {
        self.peers.len()
    }

    /// Looks for this worker's next task, as [`find_task`] does.
    pub fn find_task(&self, patience: usize) -> (out: StealOutcome<Task<()>>)
        ensures
            patience == 0 ==> !(out is Empty),
    {
        find_task(&self.local, &self.global, self.peers.as_slice(), patience)
    }
}

/// Submits a computation: packages it into a task that queues itself in the
/// scheduler's global queue, queues it for its first run, and returns the
/// handle that resolves to its result.
pub fn spawn<F, R>(scheduler: &Scheduler, fut: F) -> (handler: JoinHandler<R>) where
    R: 'static + Send,
    F: 'static + Send + Future<Output = R>,

    ensures
        !handler.is_settled(),
{
    let (task, handle) = package(fut, scheduler.handle());
    task.schedule();
    JoinHandler::awaiting(handle)
}

} // verus!

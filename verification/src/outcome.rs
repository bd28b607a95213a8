//! The report of one non-blocking steal attempt, and the rules by which
//! several reports are combined into one.

use vstd::prelude::*;

verus! {

/// What a non-blocking attempt to take a task from a queue reports.
#[derive(Debug, PartialEq, Eq)]
pub enum StealOutcome<T> {
    /// The queue held nothing at the time of the attempt.
    Empty,
    /// A task was taken.
    Success(T),
    /// The attempt lost a race; whether the queue holds work is unknown.
    Retry,
}

impl<T> StealOutcome<T> {
    /// The task that was taken, if one was.
    pub open spec fn task(self) -> Option<T> {
        match self {
            StealOutcome::Success(t) => Some(t),
            _ => None,
        }
    }

    /// The report of two attempts on the queues of peers, made one after the
    /// other, the second only if the first took nothing: a task wins over
    /// everything, and a lost race wins over an empty queue.
    pub open spec fn merge(self, second: Self) -> Self {
        match self {
            StealOutcome::Success(_) => self,
            StealOutcome::Empty => second,
            StealOutcome::Retry => if second is Success {
                second
            } else {
                StealOutcome::Retry
            },
        }
    }

    /// Whether the queue was empty at the time of the attempt.
    pub fn is_empty(&self) -> (b: bool)
        ensures
            b == (*self is Empty),
    {
        match self {
            StealOutcome::Empty => true,
            _ => false,
        }
    }

    /// Whether a task was taken.
    pub fn is_success(&self) -> (b: bool)
        ensures
            b == (*self is Success),
    {
        match self {
            StealOutcome::Success(_) => true,
            _ => false,
        }
    }

    /// Whether the attempt has to be repeated.
    pub fn is_retry(&self) -> (b: bool)
        ensures
            b == (*self is Retry),
    {
        match self {
            StealOutcome::Retry => true,
            _ => false,
        }
    }

    /// Hands out the task that was taken, if one was.
    pub fn success(self) -> (found: Option<T>)
        ensures
            found == self.task(),
    {
        match self {
            StealOutcome::Success(t) => Some(t),
            _ => None,
        }
    }
}

/// The report of a series of attempts made in order: the reports merged from
/// left to right.
pub open spec fn gather<T>(seen: Seq<StealOutcome<T>>) -> StealOutcome<T>
    decreases seen.len(),
{
    if seen.len() == 0 {
        StealOutcome::Empty
    } else {
        gather(seen.drop_last()).merge(seen.last())
    }
}

/// Whether none of the first `upto` reports is a task.
pub open spec fn no_task_before<T>(seen: Seq<StealOutcome<T>>, upto: int) -> bool {
    forall|j: int| 0 <= j < upto && j < seen.len() ==> !(#[trigger] seen[j] is Success)
}

/// A series reports a task exactly when one of its attempts took one, and
/// the task it reports is the first that was taken.
pub proof fn lemma_gather_success<T>(seen: Seq<StealOutcome<T>>)
    ensures
        gather(seen) is Success <==> exists|i: int| 0 <= i < seen.len() && #[trigger] seen[i] is Success,
        forall|i: int|
            0 <= i < seen.len() && #[trigger] seen[i] is Success && no_task_before(seen, i)
                ==> gather(seen) == seen[i],
    decreases seen.len(),
{
    if seen.len() > 0 {
        let front = seen.drop_last();
        lemma_gather_success(front);
        assert forall|i: int|
            0 <= i < seen.len() && #[trigger] seen[i] is Success && no_task_before(seen, i)
            implies gather(seen) == seen[i] by {
            if i < front.len() {
                assert(front[i] == seen[i]);
                assert(no_task_before(front, i)) by {
                    assert forall|j: int| 0 <= j < i && j < front.len() implies !(#[trigger] front[j] is Success) by {
                        assert(front[j] == seen[j]);
                    }
                }
            } else {
                if gather(front) is Success {
                    let k = choose|k: int| 0 <= k < front.len() && #[trigger] front[k] is Success;
                    assert(front[k] == seen[k]);
                }
            }
        }
        if gather(seen) is Success {
            if gather(front) is Success {
                let k = choose|k: int| 0 <= k < front.len() && #[trigger] front[k] is Success;
                assert(seen[k] == front[k]);
            } else {
                assert(seen[seen.len() - 1] is Success);
            }
        }
        if exists|i: int| 0 <= i < seen.len() && #[trigger] seen[i] is Success {
            let i = choose|i: int| 0 <= i < seen.len() && #[trigger] seen[i] is Success;
            if i < front.len() {
                assert(front[i] == seen[i]);
            }
        }
    }
}

/// A series reports an empty queue exactly when every attempt found its
/// queue empty: one lost race is enough to keep "no work" from being said.
pub proof fn lemma_gather_empty<T>(seen: Seq<StealOutcome<T>>)
    ensures
        gather(seen) is Empty <==> forall|i: int| 0 <= i < seen.len() ==> #[trigger] seen[i] is Empty,
    decreases seen.len(),
{
    if seen.len() > 0 {
        let front = seen.drop_last();
        lemma_gather_empty(front);
        if gather(seen) is Empty {
            assert forall|i: int| 0 <= i < seen.len() implies #[trigger] seen[i] is Empty by {
                if i < front.len() {
                    assert(front[i] == seen[i]);
                }
            }
        }
        if forall|i: int| 0 <= i < seen.len() ==> #[trigger] seen[i] is Empty {
            assert forall|i: int| 0 <= i < front.len() implies #[trigger] front[i] is Empty by {
                assert(front[i] == seen[i]);
            }
            assert(seen[seen.len() - 1] is Empty);
        }
    }
}

/// A series asks for a repeat exactly when no attempt took a task and at
/// least one lost a race.
pub proof fn lemma_gather_retry<T>(seen: Seq<StealOutcome<T>>)
    ensures
        gather(seen) is Retry <==> no_task_before(seen, seen.len() as int) && exists|i: int|
            0 <= i < seen.len() && #[trigger] seen[i] is Retry,
{
    lemma_gather_success(seen);
    lemma_gather_empty(seen);
    if gather(seen) is Retry {
        if forall|i: int| 0 <= i < seen.len() ==> #[trigger] seen[i] is Empty {
        } else {
            let i = choose|i: int| 0 <= i < seen.len() && !(#[trigger] seen[i] is Empty);
            assert(!(seen[i] is Success));
            assert(seen[i] is Retry);
        }
    }
    if no_task_before(seen, seen.len() as int) && exists|i: int|
        0 <= i < seen.len() && #[trigger] seen[i] is Retry {
        let i = choose|i: int| 0 <= i < seen.len() && #[trigger] seen[i] is Retry;
        assert(!(seen[i] is Empty));
    }
}

} // verus!

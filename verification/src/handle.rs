//! The completion handle: what the caller of `spawn` holds to learn the
//! result of the computation.

use vstd::prelude::*;
use futures::task::Context;
use futures::Future;
use async_task::JoinHandle;

verus! {

/// `async_task::JoinHandle`: the awaiting end of a packaged task.
#[verifier::external_type_specification]
#[verifier::external_body]
#[verifier::reject_recursive_types(R)]
#[verifier::reject_recursive_types(T)]
pub struct ExJoinHandle<R, T>(JoinHandle<R, T>);

/// `std::task::Context`: what a poll is handed to register a wake-up.
#[verifier::external_type_specification]
#[verifier::external_body]
pub struct ExContext<'a>(Context<'a>);

/// What one poll of a completion handle observes.
#[derive(Debug, PartialEq, Eq)]
pub enum Completion<T> {
    /// The computation has not finished; a wake-up has been registered.
    Pending,
    /// The computation finished with this result.
    Ready(T),
    /// The task is gone and has left no result: it was dropped before it
    /// finished, or its result has been handed out before.
    Lost,
}

impl<T> Completion<T> {
    /// Reads what the task's awaiting end reported: `None` while the task is
    /// unfinished, `Some(None)` once it is closed without a result to give,
    /// `Some(Some(r))` when it hands out its result `r`.
    ///
    /// A result is observed exactly when one was written, and a closed task
    /// without a result is never passed off as pending or as ready.
    pub fn of(polled: Option<Option<T>>) -> (seen: Completion<T>)
        ensures
            seen == match polled {
                None => Completion::Pending,
                Some(None) => Completion::Lost,
                Some(Some(r)) => Completion::Ready(r),
            },
    {
        match polled {
            None => Completion::Pending,
            Some(None) => Completion::Lost,
            Some(Some(r)) => Completion::Ready(r),
        }
    }

    /// Whether the computation was found unfinished.
    pub fn is_pending(&self) -> (b: bool)
        ensures
            b == (*self is Pending),
    {
        match self {
            Completion::Pending => true,
            _ => false,
        }
    }
}

/// The handle that `spawn` returns: it resolves to the result of the
/// computation, once.
#[verifier::reject_recursive_types(T)]
pub struct JoinHandler<T> {
    inner: JoinHandle<T, ()>,
    settled: bool,
}

/// `JoinHandle::poll`, through `Future`: asks the task's awaiting end once,
/// without blocking. `Poll::Pending` is handed on as `None` and
/// `Poll::Ready(v)` as `Some(v)`; which of them comes depends on how far the
/// task has run, and nothing is claimed of it.
#[verifier::external_body]
fn poll_inner<T>(inner: &mut JoinHandle<T, ()>, cx: &mut Context<'_>) -> (polled: Option<Option<T>>) {
    match core::pin::Pin::new(inner).poll(cx) {
        core::task::Poll::Pending => None,
        core::task::Poll::Ready(v) => Some(v),
    }
}

impl<T> JoinHandler<T> {
    /// Whether a poll has already reported something other than `Pending`.
    pub closed spec fn is_settled(&self) -> bool {
        self.settled
    }

    /// Whether a poll has already reported something other than `Pending`.
    pub fn settled(&self) -> (b: bool)
        ensures
            b == self.is_settled(),
    {
        self.settled
    }

    /// The handle for the awaiting end of a task that was just packaged.
    pub(crate) fn awaiting(inner: JoinHandle<T, ()>) -> (handler: JoinHandler<T>)
        ensures
            !handler.is_settled(),
    {
        JoinHandler { inner, settled: false }
    }

    /// Polls the handle once, without blocking.
    ///
    /// While the computation is unfinished a wake-up is registered with `cx`
    /// and `Pending` is reported. The first report other than `Pending`
    /// settles the handle, and a settled handle reports `Lost` without
    /// asking the task again: a result is handed out once. What an unsettled
    /// handle reports is what [`Completion::of`] reads from the task's
    /// awaiting end.
    pub fn poll_completion(&mut self, cx: &mut Context<'_>) -> (seen: Completion<T>)
        ensures
            polled(old(self).is_settled(), seen, final(self).is_settled()),
    {
        if self.settled {
            Completion::Lost
        } else {
            let seen = Completion::of(poll_inner(&mut self.inner, cx));
            self.settled = !seen.is_pending();
            seen
        }
    }
}

/// Whether a handle that was settled or not, as `before` says, can report
/// `seen` and be left as `after` says: a settled handle reports `Lost`, and
/// a handle is settled from its first report other than `Pending` on.
pub open spec fn polled<T>(before: bool, seen: Completion<T>, after: bool) -> bool {
    &&& before ==> seen is Lost
    &&& after == (before || !(seen is Pending))
}

/// Whether `seen` can be the reports of a series of polls of one handle,
/// which was settled or not at the start, as `before` says.
pub open spec fn poll_series<T>(before: bool, seen: Seq<Completion<T>>) -> bool
    decreases seen.len(),
{
    seen.len() == 0 || (polled(before, seen[0], before || !(seen[0] is Pending)) && poll_series(
        before || !(seen[0] is Pending),
        seen.drop_first(),
    ))
}

/// A settled handle reports `Lost` at every poll.
pub proof fn lemma_settled_stays_lost<T>(seen: Seq<Completion<T>>, j: int)
    requires
        poll_series(true, seen),
        0 <= j < seen.len(),
    ensures
        seen[j] is Lost,
    decreases seen.len(),
{
    if j > 0 {
        lemma_settled_stays_lost(seen.drop_first(), j - 1);
    }
}

/// A handle resolves once: in a series of polls of a fresh handle, every
/// report after the first that is not `Pending` is `Lost`. So at most one
/// poll hands out a result, only `Pending` is reported before it, and no
/// result is handed out after the task was found lost.
pub proof fn lemma_resolves_once<T>(seen: Seq<Completion<T>>, i: int, j: int)
    requires
        poll_series(false, seen),
        0 <= i < j < seen.len(),
    ensures
        !(seen[i] is Pending) ==> seen[j] is Lost,
        seen[j] is Ready ==> seen[i] is Pending,
    decreases seen.len(),
{
    if seen[0] is Pending {
        if i > 0 {
            lemma_resolves_once(seen.drop_first(), i - 1, j - 1);
        }
    } else {
        lemma_settled_stays_lost(seen.drop_first(), j - 1);
        if i > 0 {
            lemma_settled_stays_lost(seen.drop_first(), i - 1);
        }
    }
}

} // verus!

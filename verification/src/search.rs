//! The steal algorithm, over arbitrary sources of tasks.
//!
//! A source is anything that can be asked for a task without blocking: the
//! worker's own queue, the shared global queue, the queue of a peer. The
//! functions here decide in which order the sources are asked, when asking
//! stops, and what is reported. What each source answers is up to the source:
//! the contracts say what is reported for every way the sources may answer.
//!
//! A source has to be callable only where the search can come to ask it. So
//! a source that is never to be asked (the global queue after a local task,
//! a peer after a task was taken) may be one that cannot be called at all.

use vstd::prelude::*;
use crate::outcome::{
    gather, lemma_gather_empty, lemma_gather_retry, lemma_gather_success, no_task_before,
    StealOutcome,
};

verus! {

/// Whether peer `i` can give an answer other than a task, so that a sweep
/// can go on to the next peer.
pub open spec fn may_pass<T, P: Fn(usize) -> StealOutcome<T>>(peer: P, i: usize) -> bool {
    exists|answer: StealOutcome<T>| #[trigger] call_ensures(peer, (i,), answer) && !(answer is Success)
}

/// Whether a sweep can come to ask peer `j`: every peer before it can give
/// an answer other than a task.
pub open spec fn sweep_reaches<T, P: Fn(usize) -> StealOutcome<T>>(peer: P, j: usize) -> bool {
    forall|i: usize| i < j ==> #[trigger] may_pass(peer, i)
}

/// Whether a sweep over `count` peers can be made: every peer that it can
/// come to ask can be called.
pub open spec fn sweep_callable<T, P: Fn(usize) -> StealOutcome<T>>(peer: P, count: usize) -> bool {
    forall|j: usize| j < count && #[trigger] sweep_reaches(peer, j) ==> call_requires(peer, (j,))
}

/// Whether a round can be made: the global queue can be asked, and if it
/// can be found empty, the peers can be swept.
pub open spec fn round_callable<T, G: Fn() -> StealOutcome<T>, P: Fn(usize) -> StealOutcome<T>>(
    global: G,
    peer: P,
    count: usize,
) -> bool {
    &&& call_requires(global, ())
    &&& call_ensures(global, (), StealOutcome::<T>::Empty) ==> sweep_callable(peer, count)
}

/// Whether a search of at most `patience` rounds can be made: the local
/// queue can be asked, and if a round is allowed and the local queue can be
/// found empty, a round can be made.
pub open spec fn search_callable<
    T,
    L: Fn() -> Option<T>,
    G: Fn() -> StealOutcome<T>,
    P: Fn(usize) -> StealOutcome<T>,
>(local: L, global: G, peer: P, count: usize, patience: usize) -> bool {
    &&& call_requires(local, ())
    &&& patience > 0 && call_ensures(local, (), None::<T>) ==> round_callable(global, peer, count)
}

/// Whether `seen` can be the answers that one sweep over `count` peers got:
/// the peers are asked in order, each answer is one that the peer may give,
/// and the sweep ends with the first task or with the last peer.
pub open spec fn swept<T, P: Fn(usize) -> StealOutcome<T>>(
    peer: P,
    count: usize,
    seen: Seq<StealOutcome<T>>,
) -> bool {
    &&& seen.len() <= count
    &&& forall|j: usize| j < seen.len() ==> call_ensures(peer, (j,), #[trigger] seen[j as int])
    &&& no_task_before(seen, seen.len() - 1)
    &&& seen.len() < count ==> seen.len() > 0 && seen.last() is Success
}

/// Whether a sweep over `count` peers can report `out`.
pub open spec fn sweep_yields<T, P: Fn(usize) -> StealOutcome<T>>(
    peer: P,
    count: usize,
    out: StealOutcome<T>,
) -> bool {
    exists|seen: Seq<StealOutcome<T>>| #[trigger] swept(peer, count, seen) && out == gather(seen)
}

/// What a round reports, given the answer of the global queue and, where
/// the peers were swept, the report of the sweep: the peers count only when
/// the global queue was found empty. A task from the global queue is the
/// report, and so is a lost race there, whatever the peers hold.
pub open spec fn round_report<T>(first: StealOutcome<T>, rest: StealOutcome<T>) -> StealOutcome<T> {
    if first is Empty {
        rest
    } else {
        first
    }
}

/// Whether one round can report `out`: the global queue is asked first, and
/// the peers are swept only if it was found empty.
pub open spec fn round_yields<T, G: Fn() -> StealOutcome<T>, P: Fn(usize) -> StealOutcome<T>>(
    global: G,
    peer: P,
    count: usize,
    out: StealOutcome<T>,
) -> bool {
    exists|first: StealOutcome<T>| #[trigger]
        call_ensures(global, (), first) && if first is Empty {
            sweep_yields(peer, count, out)
        } else {
            out == first
        }
}

/// Whether a search of at most `patience` rounds can report `out`.
///
/// A task in the local queue is reported at once. Otherwise rounds are made
/// while they report a lost race: a report other than `Retry` is that of a
/// round that was made, and `Retry` says that every round made was contended,
/// which is all that a search of no rounds can say.
pub open spec fn search_yields<
    T,
    L: Fn() -> Option<T>,
    G: Fn() -> StealOutcome<T>,
    P: Fn(usize) -> StealOutcome<T>,
>(local: L, global: G, peer: P, count: usize, patience: usize, out: StealOutcome<T>) -> bool {
    exists|popped: Option<T>| #[trigger]
        call_ensures(local, (), popped) && match popped {
            Some(t) => out == StealOutcome::Success(t),
            None => if patience == 0 {
                out is Retry
            } else {
                round_yields(global, peer, count, out)
            },
        }
}

/// Asks the peers `0 .. count` in order for a task, and stops at the first
/// that gives one. A peer is asked only if every peer before it gave an
/// answer other than a task.
pub fn sweep<T, P: Fn(usize) -> StealOutcome<T>>(peer: &P, count: usize) -> (out: StealOutcome<T>)
    requires
        sweep_callable(*peer, count),
    ensures
        sweep_yields(*peer, count, out),
{
    let mut contended = false;
    let mut i: usize = 0;
    let ghost mut seen: Seq<StealOutcome<T>> = Seq::empty();
    while i < count
        invariant
            i <= count,
            seen.len() == i,
            sweep_callable(*peer, count),
            sweep_reaches(*peer, i),
            forall|j: usize| j < seen.len() ==> call_ensures(*peer, (j,), #[trigger] seen[j as int]),
            no_task_before(seen, seen.len() as int),
            gather(seen) == (if contended {
                StealOutcome::<T>::Retry
            } else {
                StealOutcome::<T>::Empty
            }),
        decreases count - i,
    {
        let answer = peer(i);
        proof {
            let longer = seen.push(answer);
            assert(longer.drop_last() =~= seen);
            assert(longer.last() == answer);
            assert(no_task_before(longer, longer.len() - 1));
            seen = longer;
            if !(answer is Success) {
                assert(call_ensures(*peer, (i,), answer));
                assert(may_pass(*peer, i));
            }
        }
        match answer {
            StealOutcome::Success(t) => {
                assert(swept(*peer, count, seen));
                return StealOutcome::Success(t);
            },
            StealOutcome::Retry => {
                contended = true;
            },
            StealOutcome::Empty => {},
        }
        i += 1;
    }
    assert(swept(*peer, count, seen));
    if contended {
        StealOutcome::Retry
    } else {
        StealOutcome::Empty
    }
}

/// One round of stealing: a batch from the global queue, and if the global
/// queue was found empty, a sweep over the peers.
///
/// A task from the global queue is reported without asking any peer. A lost
/// race at the global queue is reported as it is, without asking any peer:
/// the round has to be repeated from the global queue.
pub fn round<T, G: Fn() -> StealOutcome<T>, P: Fn(usize) -> StealOutcome<T>>(
    global: &G,
    peer: &P,
    count: usize,
) -> (out: StealOutcome<T>)
    requires
        round_callable(*global, *peer, count),
    ensures
        round_yields(*global, *peer, count, out),
{
    let first = global();
    assert(call_ensures(*global, (), first));
    match first {
        StealOutcome::Empty => sweep(peer, count),
        StealOutcome::Success(t) => StealOutcome::Success(t),
        StealOutcome::Retry => StealOutcome::Retry,
    }
}

/// Looks for a task: first in the local queue, then in rounds of stealing,
/// repeated while they are contended and at most `patience` times.
///
/// `Success` carries the task found. `Empty` says that a round found every
/// queue empty. `Retry` says that no round settled the question: all of
/// them lost a race somewhere, or none was allowed. After a task from the
/// local queue no other source is asked.
pub fn search<T, L: Fn() -> Option<T>, G: Fn() -> StealOutcome<T>, P: Fn(usize) -> StealOutcome<T>>(
    local: &L,
    global: &G,
    peer: &P,
    count: usize,
    patience: usize,
) -> (out: StealOutcome<T>)
    requires
        search_callable(*local, *global, *peer, count, patience),
    ensures
        search_yields(*local, *global, *peer, count, patience, out),
{
    let popped = local();
    assert(call_ensures(*local, (), popped));
    if let Some(t) = popped {
        return StealOutcome::Success(t);
    }
    let mut made: usize = 0;
    let mut last: StealOutcome<T> = StealOutcome::Retry;
    while made < patience && last.is_retry()
        invariant
            made <= patience,
            patience > 0 ==> round_callable(*global, *peer, count),
            made == 0 ==> last is Retry,
            made > 0 ==> round_yields(*global, *peer, count, last),
            made < patience ==> last is Retry,
        decreases patience - made,
    {
        last = round(global, peer, count);
        if last.is_retry() {
            made += 1;
        } else {
            made = patience;
        }
    }
    last
}

/// A sweep takes at most one task, and the task it took is the one it
/// reports: none is taken and then dropped.
pub proof fn lemma_sweep_keeps_its_task<T, P: Fn(usize) -> StealOutcome<T>>(
    peer: P,
    count: usize,
    seen: Seq<StealOutcome<T>>,
    j: int,
)
    requires
        swept(peer, count, seen),
        0 <= j < seen.len(),
        seen[j] is Success,
    ensures
        j == seen.len() - 1,
        gather(seen) == seen[j],
{
    lemma_gather_success(seen);
}

/// A sweep reports that there is no work only after it asked every peer and
/// each found its queue empty; it asks for a repeat only after it asked
/// every peer, none gave a task and one lost a race.
pub proof fn lemma_sweep_verdict<T, P: Fn(usize) -> StealOutcome<T>>(
    peer: P,
    count: usize,
    seen: Seq<StealOutcome<T>>,
)
    requires
        swept(peer, count, seen),
    ensures
        gather(seen) is Empty ==> seen.len() == count && forall|j: int|
            0 <= j < seen.len() ==> #[trigger] seen[j] is Empty,
        gather(seen) is Retry ==> seen.len() == count && no_task_before(seen, seen.len() as int)
            && exists|j: int| 0 <= j < seen.len() && #[trigger] seen[j] is Retry,
{
    lemma_gather_success(seen);
    lemma_gather_empty(seen);
    lemma_gather_retry(seen);
}

/// The answer of the global queue on which a round's report rests: where it
/// is `Empty` the report is that of a sweep, and else it is the report.
pub proof fn lemma_round_first<T, G: Fn() -> StealOutcome<T>, P: Fn(usize) -> StealOutcome<T>>(
    global: G,
    peer: P,
    count: usize,
    out: StealOutcome<T>,
) -> (first: StealOutcome<T>)
    requires
        round_yields(global, peer, count, out),
    ensures
        call_ensures(global, (), first),
        first is Empty ==> sweep_yields(peer, count, out),
        !(first is Empty) ==> out == first,
{
    choose|first: StealOutcome<T>| #[trigger]
        call_ensures(global, (), first) && if first is Empty {
            sweep_yields(peer, count, out)
        } else {
            out == first
        }
}

/// A round reports that there is no work only when the global queue was
/// found empty and a sweep then asked every peer and found each empty. A
/// lost race anywhere in the round keeps it from saying so.
pub proof fn lemma_round_empty<T, G: Fn() -> StealOutcome<T>, P: Fn(usize) -> StealOutcome<T>>(
    global: G,
    peer: P,
    count: usize,
    out: StealOutcome<T>,
)
    requires
        round_yields(global, peer, count, out),
        out is Empty,
    ensures
        call_ensures(global, (), StealOutcome::<T>::Empty),
        exists|seen: Seq<StealOutcome<T>>| #[trigger]
            swept(peer, count, seen) && seen.len() == count && forall|j: int|
                0 <= j < seen.len() ==> #[trigger] seen[j] is Empty,
{
    let first = lemma_round_first(global, peer, count, out);
    let seen = choose|seen: Seq<StealOutcome<T>>| #[trigger]
        swept(peer, count, seen) && out == gather(seen);
    lemma_sweep_verdict(peer, count, seen);
}

/// A round reports a task only when the global queue gave that very task,
/// or when the global queue was found empty and a peer gave that very task.
pub proof fn lemma_round_task<T, G: Fn() -> StealOutcome<T>, P: Fn(usize) -> StealOutcome<T>>(
    global: G,
    peer: P,
    count: usize,
    out: StealOutcome<T>,
)
    requires
        round_yields(global, peer, count, out),
        out is Success,
    ensures
        call_ensures(global, (), out) || (call_ensures(global, (), StealOutcome::<T>::Empty)
            && exists|seen: Seq<StealOutcome<T>>| #[trigger]
            swept(peer, count, seen) && seen.len() > 0 && seen.last() == out),
{
    let first = lemma_round_first(global, peer, count, out);
    if first is Empty {
        let seen = choose|seen: Seq<StealOutcome<T>>| #[trigger]
            swept(peer, count, seen) && out == gather(seen);
        lemma_gather_success(seen);
        let k = choose|k: int| 0 <= k < seen.len() && #[trigger] seen[k] is Success;
        lemma_sweep_keeps_its_task(peer, count, seen, k);
    }
}

/// A round that lost the race at the global queue asks for a repeat: where
/// the global queue can only answer `Retry`, so does the round, whatever
/// the peers hold.
pub proof fn lemma_round_contended<T, G: Fn() -> StealOutcome<T>, P: Fn(usize) -> StealOutcome<T>>(
    global: G,
    peer: P,
    count: usize,
    out: StealOutcome<T>,
)
    requires
        forall|answer: StealOutcome<T>| #[trigger] call_ensures(global, (), answer) ==> answer is Retry,
        round_yields(global, peer, count, out),
    ensures
        out is Retry,
{
    let first = lemma_round_first(global, peer, count, out);
}

/// Where every peer has one answer only, a sweep reports what the answers of
/// all peers gather to: to stop at the first task changes nothing.
pub proof fn lemma_sweep_scripted<T, P: Fn(usize) -> StealOutcome<T>>(
    peer: P,
    count: usize,
    script: Seq<StealOutcome<T>>,
    out: StealOutcome<T>,
)
    requires
        script.len() == count,
        forall|j: usize, answer: StealOutcome<T>|
            j < count && #[trigger] call_ensures(peer, (j,), answer) ==> answer == script[j as int],
        sweep_yields(peer, count, out),
    ensures
        out == gather(script),
{
    let seen = choose|seen: Seq<StealOutcome<T>>| #[trigger] swept(peer, count, seen) && out == gather(seen);
    assert forall|j: int| 0 <= j < seen.len() implies seen[j] == script[j] by {
        assert(call_ensures(peer, (j as usize,), seen[j as usize as int]));
    }
    if seen.len() == count {
        assert(seen =~= script);
    } else {
        let k = seen.len() - 1;
        lemma_gather_success(seen);
        lemma_gather_success(script);
        assert(seen[k] is Success);
        assert(no_task_before(script, k)) by {
            assert forall|j: int| 0 <= j < k && j < script.len() implies !(#[trigger] script[j] is Success) by {
                assert(seen[j] == script[j]);
            }
        }
        assert(script[k] is Success);
    }
}

/// Where every source that is asked has one answer only, a round reports
/// the global queue's answer, unless that is `Empty`: then it reports what
/// the answers of all peers gather to. Of the peers nothing is asked where
/// the global queue's answer is not `Empty`.
pub proof fn lemma_round_scripted<T, G: Fn() -> StealOutcome<T>, P: Fn(usize) -> StealOutcome<T>>(
    global: G,
    peer: P,
    count: usize,
    first: StealOutcome<T>,
    script: Seq<StealOutcome<T>>,
    out: StealOutcome<T>,
)
    requires
        script.len() == count,
        forall|answer: StealOutcome<T>| #[trigger] call_ensures(global, (), answer) ==> answer == first,
        first is Empty ==> forall|j: usize, answer: StealOutcome<T>|
            j < count && #[trigger] call_ensures(peer, (j,), answer) ==> answer == script[j as int],
        round_yields(global, peer, count, out),
    ensures
        out == round_report(first, gather(script)),
{
    let asked = lemma_round_first(global, peer, count, out);
    if asked is Empty {
        lemma_sweep_scripted(peer, count, script, out);
    }
}

/// Where every source that is asked has one answer only, a search reports
/// the local queue's task if it holds one; else, if a round is allowed, what
/// one round reports; else that the question is open. Of the global queue
/// and the peers nothing is asked where the local queue holds a task.
pub proof fn lemma_search_scripted<
    T,
    L: Fn() -> Option<T>,
    G: Fn() -> StealOutcome<T>,
    P: Fn(usize) -> StealOutcome<T>,
>(
    local: L,
    global: G,
    peer: P,
    count: usize,
    patience: usize,
    own: Option<T>,
    first: StealOutcome<T>,
    script: Seq<StealOutcome<T>>,
    out: StealOutcome<T>,
)
    requires
        script.len() == count,
        forall|popped: Option<T>| #[trigger] call_ensures(local, (), popped) ==> popped == own,
        own is None && patience > 0 ==> forall|answer: StealOutcome<T>| #[trigger]
            call_ensures(global, (), answer) ==> answer == first,
        own is None && patience > 0 && first is Empty ==> forall|j: usize, answer: StealOutcome<T>|
            j < count && #[trigger] call_ensures(peer, (j,), answer) ==> answer == script[j as int],
        search_yields(local, global, peer, count, patience, out),
    ensures
        out == match own {
            Some(t) => StealOutcome::Success(t),
            None => if patience == 0 {
                StealOutcome::Retry
            } else {
                round_report(first, gather(script))
            },
        },
{
    if own is None && patience > 0 {
        lemma_round_scripted(global, peer, count, first, script, out);
    }
}

/// A starved worker gets the work of a loaded peer: where the local and the
/// global queue are found empty, every peer before peer `j` is found empty
/// and peer `j` gives the task `task`, a search that is allowed a round
/// reports that task, whatever the peers after `j` hold.
pub proof fn lemma_search_steals_from_first_loaded_peer<
    T,
    L: Fn() -> Option<T>,
    G: Fn() -> StealOutcome<T>,
    P: Fn(usize) -> StealOutcome<T>,
>(
    local: L,
    global: G,
    peer: P,
    count: usize,
    patience: usize,
    j: usize,
    task: T,
    out: StealOutcome<T>,
)
    requires
        patience > 0,
        j < count,
        forall|popped: Option<T>| #[trigger] call_ensures(local, (), popped) ==> popped is None,
        forall|answer: StealOutcome<T>| #[trigger] call_ensures(global, (), answer) ==> answer is Empty,
        forall|i: usize, answer: StealOutcome<T>|
            i < j && #[trigger] call_ensures(peer, (i,), answer) ==> answer is Empty,
        forall|answer: StealOutcome<T>| #[trigger]
            call_ensures(peer, (j,), answer) ==> answer == StealOutcome::Success(task),
        search_yields(local, global, peer, count, patience, out),
    ensures
        out == StealOutcome::Success(task),
{
    let first = lemma_round_first(global, peer, count, out);
    let seen = choose|seen: Seq<StealOutcome<T>>| #[trigger]
        swept(peer, count, seen) && out == gather(seen);
    assert forall|i: int| 0 <= i < seen.len() && i < j implies seen[i] is Empty by {
        assert(call_ensures(peer, (i as usize,), seen[i as usize as int]));
    }
    if seen.len() <= j {
        assert(seen.len() > 0 && seen.last() is Success);
        assert(seen[seen.len() - 1] is Empty);
    }
    assert(call_ensures(peer, (j,), seen[j as int]));
    lemma_sweep_keeps_its_task(peer, count, seen, j as int);
}

} // verus!

//! The fuzz orchestrator's decisions: how many workers a run gets, and what
//! a run amounts to once every worker has come back.
//!
//! The workers themselves run side by side, each with a dispatcher of its
//! own, and in no order that anything here depends on. A run is refused
//! before any worker starts where it would have none to start; it waits for
//! every worker it started, and it reports each one that failed.

use crate::dispatch::DispatchError;
use vstd::prelude::*;

verus! {

/// The fewest requests that can be fuzzed together.
pub const MIN_TARGETS: usize = 2;

/// How one worker's dispatch ended.
#[derive(Debug, Clone, Copy, PartialEq, Eq, Structural)]
pub enum WorkerOutcome {
    /// The dispatch returned without an error.
    Succeeded,
    /// The dispatch returned an error.
    Failed(DispatchError),
    /// The worker did not return from its dispatch.
    Panicked,
}

/// Why a fuzz run was refused, or what went wrong in it.
#[derive(Debug, PartialEq, Eq)]
pub enum FuzzError {
    /// A run on one request was asked for with no worker.
    NoWorkers,
    /// A run on several requests was asked for with fewer than two of them.
    TooFewTargets { selected: usize },
    /// The run is over, and the workers named did not succeed.
    WorkersFailed { workers: Vec<usize> },
}

/// Decides on a run that sends one request from `num_threads` workers at
/// once: the number of workers to start, or a refusal where there is none.
pub fn plan_fuzz_single(num_threads: u32) -> (res: Result<u32, FuzzError>)
    ensures
        num_threads == 0 ==> res == Err::<u32, FuzzError>(FuzzError::NoWorkers),
        num_threads > 0 ==> res == Ok::<u32, FuzzError>(num_threads),
{
    if num_threads == 0 {
        Err(FuzzError::NoWorkers)
    } else {
        Ok(num_threads)
    }
}

/// Decides on a run that sends `selected` requests at once, one worker
/// each: the number of workers to start, or a refusal where fewer than two
/// requests were selected.
pub fn plan_fuzz_multiple(selected: usize) -> (res: Result<usize, FuzzError>)
    ensures
        selected < MIN_TARGETS ==> res == Err::<usize, FuzzError>(
            (FuzzError::TooFewTargets { selected }),
        ),
        selected >= MIN_TARGETS ==> res == Ok::<usize, FuzzError>(selected),
{
    if selected < MIN_TARGETS {
        Err(FuzzError::TooFewTargets { selected })
    } else {
        Ok(selected)
    }
}

/// The workers that did not succeed, in the order in which they were started.
pub open spec fn failed_workers(outcomes: Seq<WorkerOutcome>) -> Seq<int>
    decreases outcomes.len(),
{
    if outcomes.len() == 0 {
        Seq::empty()
    } else if outcomes.last() is Succeeded {
        failed_workers(outcomes.drop_last())
    } else {
        failed_workers(outcomes.drop_last()).push(outcomes.len() - 1)
    }
}

/// A list of workers as a list of numbers.
pub open spec fn worker_numbers(workers: Seq<usize>) -> Seq<int> {
    workers.map_values(|worker: usize| worker as int)
}

/// What a run amounts to, once each worker's outcome is known: success where
/// every worker succeeded, and else the list of those that did not.
pub fn summarize(outcomes: &Vec<WorkerOutcome>) -> (res: Result<(), FuzzError>)
    ensures
        res is Ok <==> forall|k: int| 0 <= k < outcomes@.len() ==> outcomes@[k] is Succeeded,
        res matches Err(e) ==> e matches FuzzError::WorkersFailed { workers } && worker_numbers(
            workers@,
        ) == failed_workers(outcomes@),
{
    let mut workers: Vec<usize> = Vec::new();
    let mut at: usize = 0;
    assert(outcomes@.take(0) =~= Seq::empty());
    assert(worker_numbers(workers@) =~= Seq::empty());
    while at < outcomes.len()
        invariant
            at <= outcomes@.len(),
            worker_numbers(workers@) == failed_workers(outcomes@.take(at as int)),
        decreases outcomes@.len() - at,
    {
        let ghost before = workers@;
        proof {
            let longer = outcomes@.take(at + 1);
            assert(longer.drop_last() =~= outcomes@.take(at as int));
            assert(longer.last() == outcomes@[at as int]);
        }
        match outcomes[at] {
            WorkerOutcome::Succeeded => {},
            _ => {
                workers.push(at);
                assert(worker_numbers(workers@) =~= worker_numbers(before).push(at as int));
            },
        }
        at = at + 1;
    }
    proof {
        assert(outcomes@.take(at as int) =~= outcomes@);
        lemma_failed_workers(outcomes@);
        let failed = failed_workers(outcomes@);
        assert(failed.len() == workers@.len());
        if failed.len() > 0 {
            assert(!(outcomes@[failed[0]] is Succeeded));
        } else {
            assert forall|k: int| 0 <= k < outcomes@.len() implies outcomes@[k] is Succeeded by {
                if !(outcomes@[k] is Succeeded) {
                    assert(failed.contains(k));
                }
            }
        }
    }
    if workers.len() == 0 {
        Ok(())
    } else {
        Err(FuzzError::WorkersFailed { workers })
    }
}

/// The list of failed workers names every worker that did not succeed, and
/// no other, each once and in rising order.
pub proof fn lemma_failed_workers(outcomes: Seq<WorkerOutcome>)
    ensures
        forall|k: int|
            0 <= k < outcomes.len() && !(outcomes[k] is Succeeded) ==> failed_workers(
                outcomes,
            ).contains(k),
        forall|i: int|
            0 <= i < failed_workers(outcomes).len() ==> {
                &&& 0 <= (#[trigger] failed_workers(outcomes)[i]) < outcomes.len()
                &&& !(outcomes[failed_workers(outcomes)[i]] is Succeeded)
            },
        forall|i: int, j: int|
            0 <= i < j < failed_workers(outcomes).len() ==> failed_workers(outcomes)[i]
                < failed_workers(outcomes)[j],
        failed_workers(outcomes).len() <= outcomes.len(),
    decreases outcomes.len(),
{
    if outcomes.len() > 0 {
        let front = outcomes.drop_last();
        let failed = failed_workers(outcomes);
        lemma_failed_workers(front);
        assert(forall|k: int| 0 <= k < front.len() ==> front[k] == outcomes[k]);
        assert forall|k: int|
            0 <= k < outcomes.len() && !(outcomes[k] is Succeeded) implies failed.contains(k) by {
            if k < front.len() {
                assert(!(front[k] is Succeeded));
                assert(failed_workers(front).contains(k));
                let at = choose|i: int|
                    0 <= i < failed_workers(front).len() && failed_workers(front)[i] == k;
                assert(failed[at] == k);
            } else {
                assert(failed[failed.len() - 1] == k);
            }
        }
    }
}

} // verus!

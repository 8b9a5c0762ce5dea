//! The retry ledger: the only place a job's retry budget changes.
use vstd::prelude::*;
use crate::job::Job;

verus! {

/// What becomes of a job after a transient failure.
pub enum RetryDecision {
    /// Budget left: the job goes back to the pending queue.
    Requeue(Job),
    /// Budget spent: the job is dropped with a terminal failure report.
    Drop(Job),
}

/// The job with one attempt fewer, its other fields unchanged.
pub open spec fn spent_one(before: Job, after: Job) -> bool {
    &&& after.id == before.id
    &&& after.locator == before.locator
    &&& after.destination == before.destination
    &&& after.retries_remaining == before.retries_remaining - 1
}

/// Charges one attempt to `job`: it is requeued while attempts remain, and
/// dropped exactly when its budget reaches zero.
pub fn on_transient_failure(job: Job) -> (r: RetryDecision)
    requires
        job.retries_remaining >= 1,
    ensures
        match r {
            RetryDecision::Requeue(j) => job.retries_remaining > 1 && spent_one(job, j),
            RetryDecision::Drop(j) => job.retries_remaining == 1 && spent_one(job, j),
        },
{
    let retries_remaining = job.retries_remaining - 1;
    let j = Job { id: job.id, locator: job.locator, destination: job.destination, retries_remaining };
    if retries_remaining > 0 {
        RetryDecision::Requeue(j)
    } else {
        RetryDecision::Drop(j)
    }
}

/// Over any run of transient failures the budget only goes down, one at a
/// time, and the job is dropped exactly when it reaches zero.
pub proof fn lemma_budget_monotone(before: Job, r: RetryDecision)
    requires
        before.retries_remaining >= 1,
        match r {
            RetryDecision::Requeue(j) => before.retries_remaining > 1 && spent_one(before, j),
            RetryDecision::Drop(j) => before.retries_remaining == 1 && spent_one(before, j),
        },
    ensures
        match r {
            RetryDecision::Requeue(j) => 1 <= j.retries_remaining < before.retries_remaining,
            RetryDecision::Drop(j) => j.retries_remaining == 0,
        },
        (r is Drop) <==> before.retries_remaining - 1 == 0,
{
}

} // verus!

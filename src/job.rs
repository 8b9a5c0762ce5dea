//! The unit of work: one fetch-and-persist job with its retry budget.
use vstd::prelude::*;

verus! {

/// Number of attempts a freshly admitted job is given.
pub const RETRY_BUDGET: u32 = 3;

/// One fetch job: a caller-provided correlation id, the locator to fetch,
/// the destination the artifact is written to, and the attempts left.
pub struct Job {
    pub id: String,
    pub locator: String,
    pub destination: String,
    pub retries_remaining: u32,
}

impl Job {
    /// A job with the full retry budget.
    pub fn new(id: String, locator: String, destination: String) -> (r: Job)
        ensures
            r.id == id,
            r.locator == locator,
            r.destination == destination,
            r.retries_remaining == RETRY_BUDGET,
    {
        Job { id, locator, destination, retries_remaining: RETRY_BUDGET }
    }

    /// The job's retry budget lies within `1..=RETRY_BUDGET` while it is
    /// tracked by the scheduler.
    pub open spec fn budget_ok(&self) -> bool {
        1 <= self.retries_remaining <= RETRY_BUDGET
    }

    /// The job has exactly one attempt left.
    pub fn is_desperate(&self) -> (r: bool)
        ensures
            r == (self.retries_remaining == 1),
    {
        self.retries_remaining == 1
    }

    pub fn id(&self) -> (r: &str)
        ensures
            r@ == self.id@,
    {
        self.id.as_str()
    }

    pub fn locator(&self) -> (r: &str)
        ensures
            r@ == self.locator@,
    {
        self.locator.as_str()
    }

    pub fn destination(&self) -> (r: &str)
        ensures
            r@ == self.destination@,
    {
        self.destination.as_str()
    }

    pub fn retries_remaining(&self) -> (r: u32)
        ensures
            r == self.retries_remaining,
    {
        self.retries_remaining
    }
}

} // verus!

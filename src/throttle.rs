//! The adaptive concurrency ceiling, connection staleness and cycle pacing.
use vstd::prelude::*;

verus! {

/// Concurrency ceiling at startup.
pub const INITIAL_CONCURRENCY: u64 = 5;

/// Increase of the ceiling after a saturated, fully successful cycle.
pub const CONCURRENCY_STEP: u64 = 3;

/// Upper bound on the ceiling.
pub const CONCURRENCY_CAP: u64 = 1024;

/// Usable lifetime of an engine connection, in milliseconds.
pub const CONNECTION_LIFETIME_MS: u64 = 30_000;

/// Minimum wall-clock period of a scheduling cycle, in milliseconds.
pub const CYCLE_FLOOR_MS: u64 = 10_000;

/// The ceiling after a cycle that ran `batch_len` jobs under ceiling `prior`.
pub open spec fn next_ceiling(prior: u64, batch_len: nat, had_transient: bool) -> u64 {
    if had_transient {
        if prior > 1 { (prior - 1) as u64 } else { 1 }
    } else if batch_len == prior {
        if prior + CONCURRENCY_STEP <= CONCURRENCY_CAP { (prior + CONCURRENCY_STEP) as u64 } else { CONCURRENCY_CAP }
    } else {
        prior
    }
}

/// Throttle state: the ceiling on jobs per cycle, and when the last cycle
/// without transient failures ended (milliseconds on a monotonic clock).
pub struct ThrottleState {
    pub max_concurrency: u64,
    pub last_success_ms: u64,
}

impl ThrottleState {
    pub open spec fn wf(&self) -> bool {
        1 <= self.max_concurrency <= CONCURRENCY_CAP
    }

    /// The initial state, with the connection considered fresh at `now_ms`.
    pub fn new(now_ms: u64) -> (r: ThrottleState)
        ensures
            r.wf(),
            r.max_concurrency == INITIAL_CONCURRENCY,
            r.last_success_ms == now_ms,
    {
        ThrottleState { max_concurrency: INITIAL_CONCURRENCY, last_success_ms: now_ms }
    }

    pub fn max_concurrency(&self) -> (r: u64)
        ensures
            r == self.max_concurrency,
    {
        self.max_concurrency
    }

    /// Updates the state at the end of a cycle that ran `batch_len` jobs and
    /// ended at `now_ms`.
    pub fn after_cycle(&mut self, batch_len: usize, had_transient: bool, now_ms: u64)
        requires
            old(self).wf(),
        ensures
            final(self).wf(),
            final(self).max_concurrency == next_ceiling(old(self).max_concurrency, batch_len as nat, had_transient),
            final(self).last_success_ms == if had_transient { old(self).last_success_ms } else { now_ms },
    {
        if had_transient {
            if self.max_concurrency > 1 {
                self.max_concurrency = self.max_concurrency - 1;
            }
        } else {
            self.last_success_ms = now_ms;
            if batch_len == self.max_concurrency as usize {
                if self.max_concurrency + CONCURRENCY_STEP <= CONCURRENCY_CAP {
                    self.max_concurrency = self.max_concurrency + CONCURRENCY_STEP;
                } else {
                    self.max_concurrency = CONCURRENCY_CAP;
                }
            }
        }
    }

    /// The connection has outlived its usable lifetime since the last cycle
    /// without transient failures.
    pub fn connection_stale(&self, now_ms: u64) -> (r: bool)
        ensures
            r == (now_ms >= self.last_success_ms && now_ms - self.last_success_ms >= CONNECTION_LIFETIME_MS),
    {
        now_ms >= self.last_success_ms && now_ms - self.last_success_ms >= CONNECTION_LIFETIME_MS
    }
}

/// The ceiling never drops below 1 nor exceeds the cap, and it rises only
/// after a cycle without transient failures whose batch filled the prior
/// ceiling.
pub proof fn lemma_throttle_bounds(prior: u64, batch_len: nat, had_transient: bool)
    requires
        1 <= prior <= CONCURRENCY_CAP,
    ensures
        1 <= next_ceiling(prior, batch_len, had_transient) <= CONCURRENCY_CAP,
        next_ceiling(prior, batch_len, had_transient) > prior ==> !had_transient && batch_len == prior,
        had_transient ==> next_ceiling(prior, batch_len, had_transient) <= prior,
{
}

/// How long to sleep after a cycle that started at `start_ms` and ended at
/// `end_ms`, so that the next cycle starts no earlier than the floor period.
pub open spec fn pacing_delay(start_ms: u64, end_ms: u64) -> u64 {
    if end_ms >= start_ms && end_ms - start_ms < CYCLE_FLOOR_MS {
        (CYCLE_FLOOR_MS - (end_ms - start_ms)) as u64
    } else if end_ms < start_ms {
        CYCLE_FLOOR_MS
    } else {
        0
    }
}

/// The remaining sleep that pads a cycle to the floor period.
pub fn pacing_delay_ms(start_ms: u64, end_ms: u64) -> (r: u64)
    ensures
        r == pacing_delay(start_ms, end_ms),
{
    if end_ms < start_ms {
        CYCLE_FLOOR_MS
    } else if end_ms - start_ms < CYCLE_FLOOR_MS {
        CYCLE_FLOOR_MS - (end_ms - start_ms)
    } else {
        0
    }
}

/// After the pacing sleep the next cycle starts at least the floor period
/// after the previous cycle's start, and no later than needed.
pub proof fn lemma_pacing_floor(start_ms: u64, end_ms: u64)
    requires
        start_ms <= end_ms,
    ensures
        end_ms + pacing_delay(start_ms, end_ms) >= start_ms + CYCLE_FLOOR_MS,
        end_ms - start_ms >= CYCLE_FLOOR_MS ==> pacing_delay(start_ms, end_ms) == 0,
        end_ms - start_ms < CYCLE_FLOOR_MS ==> end_ms + pacing_delay(start_ms, end_ms) == start_ms + CYCLE_FLOOR_MS,
{
}

} // verus!

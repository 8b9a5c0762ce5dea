//! The scheduling loop's decisions: admitting jobs, planning each cycle's
//! batch, resolving every in-flight job exactly once, and adapting the
//! throttle. The caller performs the engine work and reports each outcome.
use vstd::prelude::*;
use crate::classify::FailureClass;
use crate::intake::{line_fields, job_matches, parse_request_line, trim_of};
use crate::job::Job;
use crate::ledger::{on_transient_failure, spent_one, RetryDecision};
use crate::measure::{
    as_slots, lemma_retries_sum_push, lemma_retries_sum_remove, lemma_jobs_bounded_by_retries, lemma_slots_bounded_by_retries, lemma_slots_clear, lemma_slots_empty, lemma_slots_push, lemma_slots_zero,
    retries_sum, slot_count, slot_retries,
};
use crate::report::{exhausted_line, exhausted_text, success_line, success_text, unknown_line, unknown_text};
use crate::throttle::{next_ceiling, ThrottleState};

verus! {

/// Number of jobs a cycle takes: the ceiling, or fewer when fewer wait.
pub open spec fn batch_size(pending_len: nat, max_concurrency: u64) -> nat {
    if pending_len < max_concurrency { pending_len } else { max_concurrency as nat }
}

/// Some job among the first `k` has exactly one attempt left.
pub open spec fn has_desperate(pending: Seq<Job>, k: nat) -> bool {
    exists|p: int| 0 <= p < k && p < pending.len() && pending[p].retries_remaining == 1
}

/// `p` is the first position among the first `k` holding a job with exactly
/// one attempt left.
pub open spec fn is_first_desperate(pending: Seq<Job>, k: nat, p: int) -> bool {
    &&& 0 <= p < k && p < pending.len()
    &&& pending[p].retries_remaining == 1
    &&& forall|q: int| 0 <= q < p ==> pending[q].retries_remaining != 1
}

pub open spec fn first_desperate(pending: Seq<Job>, k: nat) -> int {
    choose|p: int| is_first_desperate(pending, k, p)
}

/// The batch a cycle runs: the first desperate job within reach alone, or
/// else the first `batch_size` jobs in queue order.
pub open spec fn planned_batch(pending: Seq<Job>, max_concurrency: u64) -> Seq<Job> {
    let k = batch_size(pending.len(), max_concurrency);
    if has_desperate(pending, k) {
        seq![pending[first_desperate(pending, k)]]
    } else {
        pending.subrange(0, k as int)
    }
}

/// The queue once the batch has been taken out of it.
pub open spec fn left_pending(pending: Seq<Job>, max_concurrency: u64) -> Seq<Job> {
    let k = batch_size(pending.len(), max_concurrency);
    if has_desperate(pending, k) {
        pending.remove(first_desperate(pending, k))
    } else {
        pending.subrange(k as int, pending.len() as int)
    }
}

/// What the caller does in a cycle before running its batch.
#[derive(PartialEq, Eq, Structural, Clone, Copy, Debug)]
pub struct CyclePlan {
    /// Number of jobs put in flight, in slots `0..batch_len`.
    pub batch_len: usize,
    /// The batch is a single job on its last attempt.
    pub desperate: bool,
    /// The engine connection must be recreated before the batch runs.
    pub renew_connection: bool,
}

/// The scheduler's state. Every admitted job is either pending, in an
/// in-flight slot of the current cycle, or reported.
pub struct Scheduler {
    pub pending: Vec<Job>,
    pub in_flight: Vec<Option<Job>>,
    pub throttle: ThrottleState,
    pub force_renewal: bool,
    pub batch_had_transient: bool,
    /// Jobs admitted so far.
    pub admitted: Ghost<nat>,
    /// Terminal reports emitted so far.
    pub reported: Ghost<nat>,
}

/// The job in `slot` of `slots`, when there is one.
pub open spec fn occupied(slots: Seq<Option<Job>>, slot: int) -> bool {
    0 <= slot < slots.len() && slots[slot] is Some
}

impl Scheduler {
    pub open spec fn wf(&self) -> bool {
        &&& self.throttle.wf()
        &&& forall|i: int| 0 <= i < self.pending.len() ==> (#[trigger] self.pending@[i]).budget_ok()
        &&& forall|i: int| occupied(self.in_flight@, i) ==> (#[trigger] self.in_flight@[i])->0.budget_ok()
        &&& self.pending.len() + slot_count(self.in_flight@) + self.reported@ == self.admitted@
    }

    /// Attempts left over every job not yet reported. Each resolution of an
    /// in-flight job lowers it; only admitting a job raises it.
    pub open spec fn outstanding(&self) -> nat {
        retries_sum(self.pending@) + slot_retries(self.in_flight@)
    }

    /// Everything but the pending queue is as in `other`.
    pub open spec fn same_but_pending(&self, other: &Scheduler) -> bool {
        &&& self.in_flight@ == other.in_flight@
        &&& self.throttle == other.throttle
        &&& self.force_renewal == other.force_renewal
        &&& self.batch_had_transient == other.batch_had_transient
        &&& self.reported@ == other.reported@
    }

    /// An idle scheduler whose engine connection was created at `now_ms`.
    pub fn new(now_ms: u64) -> (r: Scheduler)
        ensures
            r.wf(),
            r.pending@.len() == 0,
            r.in_flight@.len() == 0,
            r.throttle.max_concurrency == crate::throttle::INITIAL_CONCURRENCY,
            r.throttle.last_success_ms == now_ms,
            !r.force_renewal,
            !r.batch_had_transient,
            r.admitted@ == 0,
            r.reported@ == 0,
    {
        Scheduler {
            pending: Vec::new(),
            in_flight: Vec::new(),
            throttle: ThrottleState::new(now_ms),
            force_renewal: false,
            batch_had_transient: false,
            admitted: Ghost(0),
            reported: Ghost(0),
        }
    }

    /// Appends a job to the back of the pending queue.
    pub fn enqueue(&mut self, job: Job)
        requires
            old(self).wf(),
            job.budget_ok(),
        ensures
            final(self).wf(),
            final(self).pending@ == old(self).pending@.push(job),
            final(self).same_but_pending(old(self)),
            final(self).admitted@ == old(self).admitted@ + 1,
            final(self).outstanding() == old(self).outstanding() + job.retries_remaining,
    {
        proof {
            lemma_retries_sum_push(self.pending@, job);
        }
        self.pending.push(job);
        self.admitted = Ghost(self.admitted@ + 1);
    }

    /// Admits the job that a raw intake line describes; blank and malformed
    /// lines are dropped. Returns whether a job was queued.
    pub fn ingest_line(&mut self, raw: &str) -> (r: bool)
        requires
            old(self).wf(),
        ensures
            final(self).wf(),
            final(self).same_but_pending(old(self)),
            r == (line_fields(trim_of(raw@)) is Some),
            r ==> final(self).pending@.len() == old(self).pending@.len() + 1
                && final(self).pending@.drop_last() == old(self).pending@
                && job_matches(final(self).pending@.last(), line_fields(trim_of(raw@))->0)
                && final(self).admitted@ == old(self).admitted@ + 1,
            !r ==> final(self).pending@ == old(self).pending@ && final(self).admitted@ == old(self).admitted@,
    {
        match parse_request_line(raw) {
            Some(job) => {
                self.enqueue(job);
                proof {
                    assert(self.pending@.drop_last() =~= old(self).pending@);
                }
                true
            },
            None => false,
        }
    }

    /// Plans a cycle at time `now_ms`: takes the batch out of the pending
    /// queue into the in-flight slots, and says whether the engine connection
    /// must be renewed first (a forced renewal is pending, the batch is a
    /// desperate job, or the connection outlived its lifetime).
    pub fn begin_cycle(&mut self, now_ms: u64) -> (r: CyclePlan)
        requires
            old(self).wf(),
            old(self).in_flight@.len() == 0,
        ensures
            final(self).wf(),
            final(self).pending@ == left_pending(old(self).pending@, old(self).throttle.max_concurrency),
            final(self).in_flight@ == as_slots(planned_batch(old(self).pending@, old(self).throttle.max_concurrency)),
            r.batch_len == final(self).in_flight@.len(),
            r.desperate == has_desperate(
                old(self).pending@,
                batch_size(old(self).pending@.len(), old(self).throttle.max_concurrency),
            ),
            r.renew_connection == (r.desperate || old(self).force_renewal || (now_ms
                >= old(self).throttle.last_success_ms && now_ms - old(self).throttle.last_success_ms
                >= crate::throttle::CONNECTION_LIFETIME_MS)),
            !final(self).force_renewal,
            !final(self).batch_had_transient,
            final(self).throttle == old(self).throttle,
            final(self).admitted@ == old(self).admitted@,
            final(self).reported@ == old(self).reported@,
            final(self).outstanding() == old(self).outstanding(),
            old(self).pending@.len() > 0 ==> r.batch_len >= 1,
    {
        let ghost p0 = self.pending@;
        let ghost max = self.throttle.max_concurrency;
        let n = self.pending.len();
        let k: usize = if n < self.throttle.max_concurrency as usize { n } else {
            self.throttle.max_concurrency as usize
        };
        assert(k as nat == batch_size(p0.len(), max));
        proof {
            lemma_slots_empty(self.in_flight@);
        }
        let desperate = match find_desperate(&self.pending, k) {
            Some(p) => {
                proof {
                    assert(is_first_desperate(p0, k as nat, p as int));
                    assert(has_desperate(p0, k as nat));
                    assert(first_desperate(p0, k as nat) == p as int);
                    lemma_retries_sum_remove(p0, p as int);
                    lemma_slots_push(self.in_flight@, p0[p as int]);
                }
                let job = self.pending.remove(p);
                self.in_flight.push(Some(job));
                proof {
                    assert(self.in_flight@ =~= as_slots(planned_batch(p0, max)));
                    assert(self.pending@ =~= left_pending(p0, max));
                }
                true
            },
            None => {
                let mut t: usize = 0;
                while t < k
                    invariant
                        t <= k <= p0.len(),
                        k as nat == batch_size(p0.len(), max),
                        !has_desperate(p0, k as nat),
                        self.pending@ == p0.subrange(t as int, p0.len() as int),
                        self.in_flight@ == as_slots(p0.subrange(0, t as int)),
                        slot_count(self.in_flight@) == t,
                        retries_sum(self.pending@) + slot_retries(self.in_flight@) == retries_sum(p0),
                        self.throttle == old(self).throttle,
                        self.force_renewal == old(self).force_renewal,
                        self.admitted == old(self).admitted,
                        self.reported == old(self).reported,
                        old(self).wf(),
                        p0 == old(self).pending@,
                    decreases k - t,
                {
                    proof {
                        lemma_retries_sum_remove(self.pending@, 0);
                        lemma_slots_push(self.in_flight@, self.pending@[0]);
                    }
                    let job = self.pending.remove(0);
                    self.in_flight.push(Some(job));
                    t = t + 1;
                    proof {
                        assert(self.pending@ =~= p0.subrange(t as int, p0.len() as int));
                        assert(self.in_flight@ =~= as_slots(p0.subrange(0, t as int)));
                    }
                }
                false
            },
        };
        proof {
            assert forall|i: int| 0 <= i < self.pending.len() implies (#[trigger] self.pending@[i]).budget_ok() by {
                if desperate {
                    let p = first_desperate(p0, k as nat);
                    if i < p {
                        assert(self.pending@[i] == p0[i]);
                    } else {
                        assert(self.pending@[i] == p0[i + 1]);
                    }
                } else {
                    assert(self.pending@[i] == p0[i + k]);
                }
            }
            assert forall|i: int| occupied(self.in_flight@, i) implies (#[trigger] self.in_flight@[i])->0.budget_ok() by {
                if desperate {
                    assert(self.in_flight@[i] == Some(p0[first_desperate(p0, k as nat)]));
                } else {
                    assert(self.in_flight@[i] == Some(p0[i]));
                }
            }
        }
        let renew = desperate || self.force_renewal || self.throttle.connection_stale(now_ms);
        self.force_renewal = false;
        self.batch_had_transient = false;
        CyclePlan { batch_len: self.in_flight.len(), desperate, renew_connection: renew }
    }
}

impl Scheduler {
    /// Takes the job out of an occupied slot.
    fn take_slot(&mut self, slot: usize) -> (r: Job)
        requires
            old(self).wf(),
            occupied(old(self).in_flight@, slot as int),
        ensures
            r == old(self).in_flight@[slot as int]->0,
            r.budget_ok(),
            final(self).in_flight@ == old(self).in_flight@.update(slot as int, None),
            final(self).pending@ == old(self).pending@,
            final(self).throttle == old(self).throttle,
            final(self).force_renewal == old(self).force_renewal,
            final(self).batch_had_transient == old(self).batch_had_transient,
            final(self).admitted == old(self).admitted,
            final(self).reported == old(self).reported,
            slot_count(final(self).in_flight@) + 1 == slot_count(old(self).in_flight@),
            slot_retries(final(self).in_flight@) + r.retries_remaining == slot_retries(old(self).in_flight@),
    {
        proof {
            lemma_slots_clear(self.in_flight@, slot as int);
        }
        let mut taken: Option<Job> = None;
        std::mem::swap(&mut taken, &mut self.in_flight[slot]);
        proof {
            assert(old(self).in_flight@[slot as int]->0.budget_ok());
        }
        taken.unwrap()
    }

    /// The job in flight in `slot`, if that slot is still unresolved.
    pub fn in_flight_job(&self, slot: usize) -> (r: Option<&Job>)
        ensures
            match r {
                Some(j) => occupied(self.in_flight@, slot as int) && self.in_flight@[slot as int] == Some(*j),
                None => !occupied(self.in_flight@, slot as int),
            },
    {
        if slot < self.in_flight.len() {
            match &self.in_flight[slot] {
                Some(j) => Some(j),
                None => None,
            }
        } else {
            None
        }
    }

    /// Resolves the job in `slot` as a success and returns its report.
    pub fn resolve_success(&mut self, slot: usize) -> (r: String)
        requires
            old(self).wf(),
            occupied(old(self).in_flight@, slot as int),
        ensures
            final(self).wf(),
            ({
                let job = old(self).in_flight@[slot as int]->0;
                r@ == success_text(job.id@, job.locator@, job.destination@)
            }),
            final(self).in_flight@ == old(self).in_flight@.update(slot as int, None),
            final(self).pending@ == old(self).pending@,
            final(self).throttle == old(self).throttle,
            final(self).force_renewal == old(self).force_renewal,
            final(self).batch_had_transient == old(self).batch_had_transient,
            final(self).admitted@ == old(self).admitted@,
            final(self).reported@ == old(self).reported@ + 1,
            final(self).outstanding() < old(self).outstanding(),
    {
        let job = self.take_slot(slot);
        self.reported = Ghost(self.reported@ + 1);
        success_line(&job)
    }

    /// Resolves the job in `slot` after a failure of class `class` during
    /// `operation`. A transient failure charges one attempt: the job goes
    /// back to the end of the queue while attempts remain, and is otherwise
    /// reported as exhausted. An unknown failure is reported at once. A lost
    /// connection also forces a renewal before the next cycle. Returns the
    /// terminal report, if any.
    pub fn resolve_failure(&mut self, slot: usize, class: FailureClass, operation: &str, detail: &str) -> (r: Option<String>)
        requires
            old(self).wf(),
            occupied(old(self).in_flight@, slot as int),
        ensures
            final(self).wf(),
            final(self).in_flight@ == old(self).in_flight@.update(slot as int, None),
            final(self).throttle == old(self).throttle,
            final(self).force_renewal == (old(self).force_renewal || class is ConnectionLost),
            final(self).batch_had_transient == (old(self).batch_had_transient || class.spec_is_transient()),
            final(self).admitted@ == old(self).admitted@,
            final(self).outstanding() < old(self).outstanding(),
            ({
                let job = old(self).in_flight@[slot as int]->0;
                if class.spec_is_transient() && job.retries_remaining > 1 {
                    &&& r is None
                    &&& final(self).pending@.len() == old(self).pending@.len() + 1
                    &&& final(self).pending@.drop_last() == old(self).pending@
                    &&& spent_one(job, final(self).pending@.last())
                    &&& final(self).reported@ == old(self).reported@
                } else if class.spec_is_transient() {
                    &&& r is Some && r->0@ == exhausted_text(job.id@)
                    &&& final(self).pending@ == old(self).pending@
                    &&& final(self).reported@ == old(self).reported@ + 1
                } else {
                    &&& r is Some && r->0@ == unknown_text(job.id@, operation@, detail@)
                    &&& final(self).pending@ == old(self).pending@
                    &&& final(self).reported@ == old(self).reported@ + 1
                }
            }),
    {
        let job = self.take_slot(slot);
        if class.is_transient() {
            if matches!(class, FailureClass::ConnectionLost) {
                self.force_renewal = true;
            }
            self.batch_had_transient = true;
            match on_transient_failure(job) {
                RetryDecision::Requeue(j) => {
                    proof {
                        lemma_retries_sum_push(self.pending@, j);
                    }
                    self.pending.push(j);
                    proof {
                        assert(self.pending@.drop_last() =~= old(self).pending@);
                    }
                    None
                },
                RetryDecision::Drop(j) => {
                    self.reported = Ghost(self.reported@ + 1);
                    Some(exhausted_line(&j))
                },
            }
        } else {
            self.reported = Ghost(self.reported@ + 1);
            Some(unknown_line(&job, operation, detail))
        }
    }

    /// Every in-flight job of the cycle has been resolved.
    pub fn all_resolved(&self) -> (r: bool)
        ensures
            r == (slot_count(self.in_flight@) == 0),
    {
        let mut i: usize = 0;
        while i < self.in_flight.len()
            invariant
                i <= self.in_flight.len(),
                forall|q: int| 0 <= q < i ==> self.in_flight@[q] is None,
            decreases self.in_flight.len() - i,
        {
            if self.in_flight[i].is_some() {
                proof {
                    assert(slot_count(self.in_flight@) != 0) by {
                        if slot_count(self.in_flight@) == 0 {
                            lemma_slots_zero(self.in_flight@);
                        }
                    }
                }
                return false;
            }
            i = i + 1;
        }
        proof {
            lemma_slots_empty(self.in_flight@);
        }
        true
    }

    /// Closes a cycle that ended at `now_ms` once all its jobs are resolved:
    /// the throttle adapts to the batch's size and outcome.
    pub fn end_cycle(&mut self, now_ms: u64)
        requires
            old(self).wf(),
            slot_count(old(self).in_flight@) == 0,
        ensures
            final(self).wf(),
            final(self).throttle.max_concurrency == next_ceiling(
                old(self).throttle.max_concurrency,
                old(self).in_flight@.len(),
                old(self).batch_had_transient,
            ),
            final(self).throttle.last_success_ms == if old(self).batch_had_transient {
                old(self).throttle.last_success_ms
            } else {
                now_ms
            },
            final(self).in_flight@.len() == 0,
            !final(self).batch_had_transient,
            final(self).pending@ == old(self).pending@,
            final(self).force_renewal == old(self).force_renewal,
            final(self).admitted@ == old(self).admitted@,
            final(self).reported@ == old(self).reported@,
            final(self).outstanding() == old(self).outstanding(),
    {
        proof {
            lemma_slots_zero(self.in_flight@);
            lemma_slots_empty(self.in_flight@);
        }
        let batch_len = self.in_flight.len();
        self.throttle.after_cycle(batch_len, self.batch_had_transient, now_ms);
        self.in_flight = Vec::new();
        self.batch_had_transient = false;
        proof {
            lemma_slots_empty(self.in_flight@);
        }
    }

    pub fn pending_len(&self) -> (r: usize)
        ensures
            r == self.pending@.len(),
    {
        self.pending.len()
    }

    pub fn in_flight_len(&self) -> (r: usize)
        ensures
            r == self.in_flight@.len(),
    {
        self.in_flight.len()
    }

    pub fn max_concurrency(&self) -> (r: u64)
        ensures
            r == self.throttle.max_concurrency,
    {
        self.throttle.max_concurrency
    }

    /// A lost connection has been seen since the last renewal.
    pub fn renewal_forced(&self) -> (r: bool)
        ensures
            r == self.force_renewal,
    {
        self.force_renewal
    }

    /// The pending job at `index`, in queue order.
    pub fn pending_job(&self, index: usize) -> (r: Option<&Job>)
        ensures
            match r {
                Some(j) => index < self.pending@.len() && *j == self.pending@[index as int],
                None => index >= self.pending@.len(),
            },
    {
        if index < self.pending.len() {
            Some(&self.pending[index])
        } else {
            None
        }
    }
}

/// No job is lost: every admitted job is pending, in flight or reported, and
/// the jobs not yet reported are no more than the attempts they have left.
/// Since every resolution of an in-flight job lowers those attempts and
/// planning a cycle leaves them unchanged, with no further intake every job
/// reaches its single terminal report within `outstanding()` resolutions.
pub proof fn lemma_no_job_lost(s: &Scheduler)
    requires
        s.wf(),
    ensures
        s.pending@.len() + slot_count(s.in_flight@) + s.reported@ == s.admitted@,
        s.pending@.len() + slot_count(s.in_flight@) <= s.outstanding(),
        s.outstanding() == 0 ==> s.reported@ == s.admitted@,
{
    lemma_jobs_bounded_by_retries(s.pending@);
    lemma_slots_bounded_by_retries(s.in_flight@);
}

/// A job on its last attempt within the first `batch_size` positions, with
/// none such ahead of it, is the next cycle's whole batch; and whenever any
/// job within reach is on its last attempt, the batch is one such job alone.
pub proof fn lemma_desperate_alone(pending: Seq<Job>, max_concurrency: u64, x: int)
    requires
        0 <= x < batch_size(pending.len(), max_concurrency),
        pending[x].retries_remaining == 1,
    ensures
        planned_batch(pending, max_concurrency).len() == 1,
        planned_batch(pending, max_concurrency)[0].retries_remaining == 1,
        left_pending(pending, max_concurrency).len() + 1 == pending.len(),
        (forall|q: int| 0 <= q < x ==> pending[q].retries_remaining != 1) ==> planned_batch(
            pending,
            max_concurrency,
        ) == seq![pending[x]] && left_pending(pending, max_concurrency) == pending.remove(x),
{
    let k = batch_size(pending.len(), max_concurrency);
    assert(has_desperate(pending, k));
    lemma_first_desperate_exists(pending, k, x);
    let p = first_desperate(pending, k);
    if forall|q: int| 0 <= q < x ==> pending[q].retries_remaining != 1 {
        assert(is_first_desperate(pending, k, x));
        assert(p == x) by {
            if p < x {
            } else if p > x {
            }
        }
    }
}

/// Some first desperate position exists once any desperate job is within reach.
proof fn lemma_first_desperate_exists(pending: Seq<Job>, k: nat, x: int)
    requires
        0 <= x < k,
        x < pending.len(),
        pending[x].retries_remaining == 1,
    ensures
        is_first_desperate(pending, k, first_desperate(pending, k)),
    decreases x,
{
    if exists|q: int| 0 <= q < x && pending[q].retries_remaining == 1 {
        let q = choose|q: int| 0 <= q < x && pending[q].retries_remaining == 1;
        lemma_first_desperate_exists(pending, k, q);
    } else {
        assert(is_first_desperate(pending, k, x));
    }
}

/// Position of the first job among the first `k` with one attempt left.
fn find_desperate(pending: &Vec<Job>, k: usize) -> (r: Option<usize>)
    requires
        k <= pending.len(),
    ensures
        match r {
            None => !has_desperate(pending@, k as nat),
            Some(p) => is_first_desperate(pending@, k as nat, p as int),
        },
{
    let mut p: usize = 0;
    while p < k
        invariant
            p <= k <= pending.len(),
            forall|q: int| 0 <= q < p ==> pending@[q].retries_remaining != 1,
        decreases k - p,
    {
        if pending[p].is_desperate() {
            return Some(p);
        }
        p = p + 1;
    }
    None
}

} // verus!

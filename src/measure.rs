//! Counting over job sequences: how many jobs are tracked, and how many
//! attempts they have left between them.
use vstd::prelude::*;
use crate::job::Job;

verus! {

/// Total attempts left over a sequence of jobs.
pub open spec fn retries_sum(s: Seq<Job>) -> nat
    decreases s.len(),
{
    if s.len() == 0 {
        0
    } else {
        retries_sum(s.drop_last()) + s.last().retries_remaining as nat
    }
}

/// Number of occupied slots.
pub open spec fn slot_count(s: Seq<Option<Job>>) -> nat
    decreases s.len(),
{
    if s.len() == 0 {
        0
    } else {
        slot_count(s.drop_last()) + if s.last() is Some { 1nat } else { 0nat }
    }
}

/// Total attempts left over the occupied slots.
pub open spec fn slot_retries(s: Seq<Option<Job>>) -> nat
    decreases s.len(),
{
    if s.len() == 0 {
        0
    } else {
        slot_retries(s.drop_last()) + match s.last() {
            Some(j) => j.retries_remaining as nat,
            None => 0nat,
        }
    }
}

/// Each job in its own occupied slot.
pub open spec fn as_slots(s: Seq<Job>) -> Seq<Option<Job>> {
    Seq::new(s.len(), |i: int| Some(s[i]))
}

pub proof fn lemma_retries_sum_concat(a: Seq<Job>, b: Seq<Job>)
    ensures
        retries_sum(a + b) == retries_sum(a) + retries_sum(b),
    decreases b.len(),
{
    if b.len() == 0 {
        assert(a + b =~= a);
    } else {
        lemma_retries_sum_concat(a, b.drop_last());
        assert((a + b).drop_last() =~= a + b.drop_last());
    }
}

/// Removing the job at `i` takes its attempts out of the total.
pub proof fn lemma_retries_sum_remove(s: Seq<Job>, i: int)
    requires
        0 <= i < s.len(),
    ensures
        retries_sum(s) == retries_sum(s.remove(i)) + s[i].retries_remaining,
{
    let a = s.subrange(0, i);
    let b = s.subrange(i + 1, s.len() as int);
    assert(s =~= a + seq![s[i]] + b);
    assert(s.remove(i) =~= a + b);
    lemma_retries_sum_concat(a + seq![s[i]], b);
    lemma_retries_sum_concat(a, seq![s[i]]);
    lemma_retries_sum_concat(a, b);
    let one = seq![s[i]];
    assert(one.drop_last() =~= Seq::<Job>::empty());
    assert(retries_sum(one.drop_last()) == 0);
    assert(retries_sum(one) == s[i].retries_remaining);
}

pub proof fn lemma_retries_sum_push(s: Seq<Job>, j: Job)
    ensures
        retries_sum(s.push(j)) == retries_sum(s) + j.retries_remaining,
{
    assert(s.push(j).drop_last() =~= s);
}

pub proof fn lemma_slots_push(s: Seq<Option<Job>>, j: Job)
    ensures
        slot_count(s.push(Some(j))) == slot_count(s) + 1,
        slot_retries(s.push(Some(j))) == slot_retries(s) + j.retries_remaining,
{
    assert(s.push(Some(j)).drop_last() =~= s);
}

/// Emptying an occupied slot takes one job and its attempts out of the totals.
pub proof fn lemma_slots_clear(s: Seq<Option<Job>>, i: int)
    requires
        0 <= i < s.len(),
        s[i] is Some,
    ensures
        slot_count(s.update(i, None)) + 1 == slot_count(s),
        slot_retries(s.update(i, None)) + s[i]->0.retries_remaining == slot_retries(s),
    decreases s.len(),
{
    let u = s.update(i, None);
    if i == s.len() - 1 {
        assert(u.drop_last() =~= s.drop_last());
    } else {
        lemma_slots_clear(s.drop_last(), i);
        assert(u.drop_last() =~= s.drop_last().update(i, None));
    }
}

/// Every tracked job has at least one attempt left, so the attempts left
/// bound the number of jobs.
pub proof fn lemma_jobs_bounded_by_retries(s: Seq<Job>)
    requires
        forall|i: int| 0 <= i < s.len() ==> s[i].retries_remaining >= 1,
    ensures
        s.len() <= retries_sum(s),
    decreases s.len(),
{
    if s.len() > 0 {
        lemma_jobs_bounded_by_retries(s.drop_last());
    }
}

pub proof fn lemma_slots_bounded_by_retries(s: Seq<Option<Job>>)
    requires
        forall|i: int| 0 <= i < s.len() && s[i] is Some ==> s[i]->0.retries_remaining >= 1,
    ensures
        slot_count(s) <= slot_retries(s),
    decreases s.len(),
{
    if s.len() > 0 {
        lemma_slots_bounded_by_retries(s.drop_last());
    }
}

/// No occupied slot, no count.
pub proof fn lemma_slots_empty(s: Seq<Option<Job>>)
    requires
        forall|i: int| 0 <= i < s.len() ==> s[i] is None,
    ensures
        slot_count(s) == 0,
        slot_retries(s) == 0,
    decreases s.len(),
{
    if s.len() > 0 {
        lemma_slots_empty(s.drop_last());
    }
}

/// A zero count means every slot is empty.
pub proof fn lemma_slots_zero(s: Seq<Option<Job>>)
    requires
        slot_count(s) == 0,
    ensures
        forall|i: int| 0 <= i < s.len() ==> s[i] is None,
    decreases s.len(),
{
    if s.len() > 0 {
        lemma_slots_zero(s.drop_last());
        assert forall|i: int| 0 <= i < s.len() implies s[i] is None by {
            if i < s.len() - 1 {
                assert(s.drop_last()[i] == s[i]);
            }
        }
    }
}

} // verus!

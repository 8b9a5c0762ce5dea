use page_fetcher::classify::FailureClass;
use page_fetcher::job::Job;
use page_fetcher::ledger::{on_transient_failure, RetryDecision};
use page_fetcher::scheduler::Scheduler;

fn job(id: &str, retries: u32) -> Job {
    let mut j = Job::new(id.to_string(), format!("http://{}.com", id), format!("{}.html", id));
    j.retries_remaining = retries;
    j
}

fn ids(s: &Scheduler) -> Vec<String> {
    s.pending.iter().map(|j| j.id.clone()).collect()
}

fn slot_ids(s: &Scheduler) -> Vec<String> {
    s.in_flight.iter().map(|j| j.as_ref().unwrap().id.clone()).collect()
}

#[test]
fn timeout_then_success_on_retry() {
    let mut s = Scheduler::new(0);
    assert!(s.ingest_line("job1 http://example.com out1.html"));
    let mut out: Vec<String> = Vec::new();

    let plan = s.begin_cycle(0);
    assert_eq!(plan.batch_len, 1);
    let r = s.resolve_failure(0, FailureClass::OperationTimeout, "waiting on tab", "");
    assert!(r.is_none());
    assert!(s.all_resolved());
    s.end_cycle(10_000);
    assert_eq!(s.pending_len(), 1);
    assert_eq!(s.pending_job(0).unwrap().retries_remaining, 2);

    let plan = s.begin_cycle(20_000);
    assert_eq!(plan.batch_len, 1);
    out.push(s.resolve_success(0));
    s.end_cycle(21_000);

    assert_eq!(out, vec!["job1 success http://example.com out1.html".to_string()]);
    assert_eq!(s.pending_len(), 0);
}

#[test]
fn three_timeouts_exhaust_budget() {
    let mut s = Scheduler::new(0);
    assert!(s.ingest_line("job1 http://example.com out1.html"));
    let mut out: Vec<String> = Vec::new();
    let mut now: u64 = 0;
    while s.pending_len() > 0 {
        let plan = s.begin_cycle(now);
        for slot in 0..plan.batch_len {
            if let Some(line) = s.resolve_failure(slot, FailureClass::OperationTimeout, "waiting on tab", "") {
                out.push(line);
            }
        }
        s.end_cycle(now + 1000);
        now += 10_000;
    }
    assert_eq!(out, vec!["job1 error Too many timeouts, retries exhausted.".to_string()]);
}

#[test]
fn malformed_line_queues_nothing() {
    let mut s = Scheduler::new(0);
    assert!(!s.ingest_line("onlyonefield"));
    assert_eq!(s.pending_len(), 0);
    let plan = s.begin_cycle(0);
    assert_eq!(plan.batch_len, 0);
    s.end_cycle(0);
}

#[test]
fn batch_is_fifo_up_to_ceiling() {
    let mut s = Scheduler::new(0);
    for i in 0..7 {
        s.enqueue(job(&format!("j{}", i), 3));
    }
    let plan = s.begin_cycle(0);
    assert_eq!(plan.batch_len, 5);
    assert!(!plan.desperate);
    assert!(!plan.renew_connection);
    assert_eq!(slot_ids(&s), vec!["j0", "j1", "j2", "j3", "j4"]);
    assert_eq!(ids(&s), vec!["j5", "j6"]);
}

#[test]
fn desperate_job_runs_alone() {
    let mut s = Scheduler::new(0);
    s.enqueue(job("a", 3));
    s.enqueue(job("b", 2));
    s.enqueue(job("x", 1));
    s.enqueue(job("d", 3));
    let plan = s.begin_cycle(0);
    assert_eq!(plan.batch_len, 1);
    assert!(plan.desperate);
    assert!(plan.renew_connection);
    assert_eq!(slot_ids(&s), vec!["x"]);
    assert_eq!(ids(&s), vec!["a", "b", "d"]);
}

#[test]
fn desperate_job_out_of_reach_waits() {
    let mut s = Scheduler::new(0);
    for i in 0..5 {
        s.enqueue(job(&format!("j{}", i), 3));
    }
    s.enqueue(job("late", 1));
    let plan = s.begin_cycle(0);
    assert!(!plan.desperate);
    assert_eq!(plan.batch_len, 5);
    assert_eq!(ids(&s), vec!["late"]);
}

#[test]
fn first_desperate_job_is_chosen() {
    let mut s = Scheduler::new(0);
    s.enqueue(job("a", 3));
    s.enqueue(job("x", 1));
    s.enqueue(job("y", 1));
    s.begin_cycle(0);
    assert_eq!(slot_ids(&s), vec!["x"]);
    assert_eq!(ids(&s), vec!["a", "y"]);
}

#[test]
fn requeue_goes_to_the_back() {
    let mut s = Scheduler::new(0);
    s.enqueue(job("a", 3));
    s.enqueue(job("b", 3));
    s.begin_cycle(0);
    s.enqueue(job("c", 3));
    assert!(s.resolve_failure(0, FailureClass::OperationTimeout, "op", "").is_none());
    let line = s.resolve_success(1);
    assert_eq!(line, "b success http://b.com b.html");
    assert_eq!(ids(&s), vec!["c", "a"]);
    assert_eq!(s.pending[1].retries_remaining, 2);
}

#[test]
fn connection_loss_forces_renewal() {
    let mut s = Scheduler::new(0);
    s.enqueue(job("a", 3));
    s.enqueue(job("b", 3));
    s.begin_cycle(0);
    assert!(s.resolve_failure(0, FailureClass::ConnectionLost, "starting tab", "").is_none());
    assert!(s.renewal_forced());
    s.resolve_success(1);
    s.end_cycle(1000);
    assert_eq!(s.max_concurrency(), 4);
    let plan = s.begin_cycle(2000);
    assert!(plan.renew_connection);
    assert!(!plan.desperate);
    assert!(!s.renewal_forced());
}

#[test]
fn stale_connection_is_renewed() {
    let mut s = Scheduler::new(0);
    s.enqueue(job("a", 3));
    let plan = s.begin_cycle(30_000);
    assert!(plan.renew_connection);
}

#[test]
fn unknown_failure_is_reported_once() {
    let mut s = Scheduler::new(0);
    s.enqueue(job("a", 3));
    s.begin_cycle(0);
    let r = s.resolve_failure(0, FailureClass::Unknown, "writing file", "Permission denied");
    assert_eq!(r, Some("a error Unknown error while writing file: Permission denied".to_string()));
    assert!(!s.renewal_forced());
    assert_eq!(s.pending_len(), 0);
    assert!(s.in_flight_job(0).is_none());
    s.end_cycle(1000);
    assert_eq!(s.max_concurrency(), 5);
}

#[test]
fn throttle_follows_cycles() {
    let mut s = Scheduler::new(0);
    for i in 0..5 {
        s.enqueue(job(&format!("j{}", i), 3));
    }
    s.begin_cycle(0);
    for slot in 0..5 {
        s.resolve_success(slot);
    }
    s.end_cycle(1000);
    assert_eq!(s.max_concurrency(), 8);
    s.enqueue(job("k", 3));
    s.begin_cycle(2000);
    s.resolve_failure(0, FailureClass::OperationTimeout, "op", "");
    s.end_cycle(3000);
    assert_eq!(s.max_concurrency(), 7);
}

#[test]
fn counts_are_conserved_across_cycles() {
    let mut s = Scheduler::new(0);
    let mut reported: usize = 0;
    let admitted: usize = 9;
    for i in 0..admitted {
        s.enqueue(job(&format!("j{}", i), 3));
    }
    let mut now: u64 = 0;
    let mut cycle: usize = 0;
    while s.pending_len() > 0 {
        let plan = s.begin_cycle(now);
        assert_eq!(s.pending_len() + plan.batch_len + reported, admitted);
        for slot in 0..plan.batch_len {
            let fail = (slot + cycle) % 3 == 0;
            let r = if fail {
                s.resolve_failure(slot, FailureClass::OperationTimeout, "op", "")
            } else {
                Some(s.resolve_success(slot))
            };
            if r.is_some() {
                reported += 1;
            }
        }
        s.end_cycle(now + 500);
        assert!(s.max_concurrency() >= 1);
        assert_eq!(s.pending_len() + reported, admitted);
        now += 10_000;
        cycle += 1;
        assert!(cycle < 100);
    }
    assert_eq!(reported, admitted);
}

#[test]
fn ledger_requeues_then_drops() {
    match on_transient_failure(job("a", 3)) {
        RetryDecision::Requeue(j) => assert_eq!(j.retries_remaining, 2),
        RetryDecision::Drop(_) => panic!("dropped too early"),
    }
    match on_transient_failure(job("a", 1)) {
        RetryDecision::Requeue(_) => panic!("requeued past its budget"),
        RetryDecision::Drop(j) => {
            assert_eq!(j.retries_remaining, 0);
            assert_eq!(j.id, "a");
        }
    }
}

#[test]
fn in_flight_lookup() {
    let mut s = Scheduler::new(0);
    s.enqueue(job("a", 3));
    s.begin_cycle(0);
    assert_eq!(s.in_flight_len(), 1);
    assert_eq!(s.in_flight_job(0).unwrap().locator, "http://a.com");
    assert!(s.in_flight_job(1).is_none());
    assert!(!s.all_resolved());
}

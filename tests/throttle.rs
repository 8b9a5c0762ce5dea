use page_fetcher::throttle::{
    pacing_delay_ms, ThrottleState, CONCURRENCY_CAP, CYCLE_FLOOR_MS, INITIAL_CONCURRENCY,
};

#[test]
fn initial_ceiling() {
    let t = ThrottleState::new(0);
    assert_eq!(t.max_concurrency(), INITIAL_CONCURRENCY);
    assert_eq!(INITIAL_CONCURRENCY, 5);
}

#[test]
fn saturated_success_raises_ceiling() {
    let mut t = ThrottleState::new(0);
    t.after_cycle(5, false, 1000);
    assert_eq!(t.max_concurrency, 8);
    assert_eq!(t.last_success_ms, 1000);
}

#[test]
fn unsaturated_success_keeps_ceiling() {
    let mut t = ThrottleState::new(0);
    t.after_cycle(2, false, 1000);
    assert_eq!(t.max_concurrency, 5);
    assert_eq!(t.last_success_ms, 1000);
}

#[test]
fn transient_failure_lowers_ceiling_to_one_at_least() {
    let mut t = ThrottleState::new(7);
    for _ in 0..10 {
        t.after_cycle(1, true, 2000);
        assert!(t.max_concurrency >= 1);
    }
    assert_eq!(t.max_concurrency, 1);
    assert_eq!(t.last_success_ms, 7);
}

#[test]
fn ceiling_is_capped() {
    let mut t = ThrottleState::new(0);
    for _ in 0..1000 {
        let m = t.max_concurrency as usize;
        t.after_cycle(m, false, 0);
    }
    assert_eq!(t.max_concurrency, CONCURRENCY_CAP);
}

#[test]
fn staleness_window() {
    let t = ThrottleState::new(1000);
    assert!(!t.connection_stale(30_999));
    assert!(t.connection_stale(31_000));
    assert!(!t.connection_stale(500));
}

#[test]
fn pacing_pads_short_cycles() {
    assert_eq!(pacing_delay_ms(0, 2000), 8000);
    assert_eq!(2000 + pacing_delay_ms(0, 2000), CYCLE_FLOOR_MS);
    assert_eq!(pacing_delay_ms(5000, 15000), 0);
    assert_eq!(pacing_delay_ms(5000, 25000), 0);
    assert_eq!(pacing_delay_ms(100, 100), 10_000);
}

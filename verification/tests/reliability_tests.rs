use travelgraph_router::error::SubgraphError;
use travelgraph_router::plan::types::OperationKind;
use travelgraph_router::reliability::circuit::{
    breakers_for_subgraphs, count_failures, BreakerState, CircuitBreaker, CircuitBreakerConfig, Sample,
};
use travelgraph_router::reliability::dispatch::{
    after_failure, backoff, classify_status, no_breaker_error, retryable_error, settle_attempt, AfterAttempt, RetryPolicy,
};

const T0: u64 = 1_000_000;

fn cfg() -> CircuitBreakerConfig {
    CircuitBreakerConfig { window_ms: 60_000, min_samples: 4, failure_ratio_ppm: 500_000, recovery_ms: 15_000 }
}

#[test]
fn default_breaker_settings() {
    let d = CircuitBreakerConfig::default();
    assert_eq!(d, CircuitBreakerConfig { window_ms: 60_000, min_samples: 8, failure_ratio_ppm: 500_000, recovery_ms: 15_000 });
}

#[test]
fn opens_after_failure_ratio_with_enough_samples() {
    let mut b = CircuitBreaker::new(cfg());
    b.record(true, T0);
    b.record(false, T0 + 1);
    b.record(true, T0 + 2);
    assert_eq!(b.state, BreakerState::Closed, "below min_samples stays closed");
    b.record(false, T0 + 3);
    assert_eq!(b.state, BreakerState::Open { until_ms: T0 + 3 + 15_000 });
    match b.check(T0 + 10) {
        Err(SubgraphError::CircuitOpen { retry_after_ms }) => assert_eq!(retry_after_ms, 15_000 - 7),
        other => panic!("expected open, got {other:?}"),
    }
}

#[test]
fn half_open_trial_closes_or_reopens() {
    let mut b = CircuitBreaker::new(cfg());
    b.state = BreakerState::Open { until_ms: T0 };
    assert!(b.check(T0).is_ok());
    assert_eq!(b.state, BreakerState::HalfOpen);
    b.record(false, T0 + 5);
    assert_eq!(b.state, BreakerState::Open { until_ms: T0 + 5 + 15_000 });
    assert!(b.check(T0 + 5 + 14_999).is_err());
    assert!(b.check(T0 + 5 + 15_000).is_ok());
    b.record(true, T0 + 20_100);
    assert_eq!(b.state, BreakerState::Closed);
}

#[test]
fn old_samples_leave_the_window() {
    let mut b = CircuitBreaker::new(cfg());
    b.record(false, T0);
    b.record(false, T0 + 1);
    b.record(false, T0 + 2);
    b.record(true, T0 + 70_000);
    assert_eq!(b.samples, vec![Sample { at_ms: T0 + 70_000, success: true }]);
    assert_eq!(b.state, BreakerState::Closed);
    assert_eq!(count_failures(&b.samples), 0);
}

#[test]
fn one_breaker_per_subgraph() {
    let names = vec!["a".to_string(), "b".to_string()];
    let bs = breakers_for_subgraphs(&names, cfg());
    assert_eq!(bs.len(), 2);
    assert_eq!(bs[1].0, "b");
    assert_eq!(bs[1].1.state, BreakerState::Closed);
}

#[test]
fn backoff_doubles_up_to_cap() {
    assert_eq!(backoff(0, 10, 250), 10);
    assert_eq!(backoff(1, 10, 250), 20);
    assert_eq!(backoff(4, 10, 250), 160);
    assert_eq!(backoff(5, 10, 250), 250);
    assert_eq!(backoff(40, 10, u64::MAX), 10 * u32::MAX as u64);
}

#[test]
fn retryable_errors() {
    assert!(retryable_error(&SubgraphError::Timeout(5)));
    assert!(retryable_error(&SubgraphError::Transport("x".into())));
    assert!(retryable_error(&SubgraphError::BadStatus { status: 503, body: String::new() }));
    assert!(!retryable_error(&SubgraphError::BadStatus { status: 404, body: String::new() }));
    assert!(!retryable_error(&SubgraphError::Decode("x".into())));
    assert!(!retryable_error(&SubgraphError::CircuitOpen { retry_after_ms: 1 }));
}

#[test]
fn reads_retry_mutations_do_not() {
    let p = RetryPolicy { max_retries: 2, initial_backoff_ms: 10, max_backoff_ms: 250 };
    assert_eq!(p.max_attempts(), 3);
    assert_eq!(after_failure(&p, OperationKind::Query, 0, 3, SubgraphError::Timeout(1)).unwrap(), 10);
    assert_eq!(after_failure(&p, OperationKind::Query, 1, 3, SubgraphError::Timeout(1)).unwrap(), 20);
    assert!(matches!(
        after_failure(&p, OperationKind::Query, 2, 3, SubgraphError::Timeout(1)),
        Err(SubgraphError::Timeout(1))
    ));
    assert!(after_failure(&p, OperationKind::Mutation, 0, 3, SubgraphError::Timeout(1)).is_err());
    assert!(after_failure(&p, OperationKind::Query, 0, 3, SubgraphError::Decode("x".into())).is_err());
}

#[test]
fn status_classification() {
    assert!(classify_status(200, String::new()).is_ok());
    assert!(classify_status(299, String::new()).is_ok());
    match classify_status(502, "bad".to_string()) {
        Err(SubgraphError::BadStatus { status, body }) => {
            assert_eq!(status, 502);
            assert_eq!(body, "bad");
        },
        other => panic!("unexpected {other:?}"),
    }
}

#[test]
fn subgraph_error_texts() {
    assert_eq!(SubgraphError::Timeout(1500).message(), "subgraph timed out after 1.5s");
    assert_eq!(
        SubgraphError::BadStatus { status: 503, body: "busy".to_string() }.message(),
        "subgraph returned HTTP 503: busy"
    );
    assert_eq!(SubgraphError::Transport("reset".to_string()).message(), "transport error: reset");
    assert_eq!(
        SubgraphError::Decode("eof".to_string()).message(),
        "could not deserialize subgraph response: eof"
    );
    assert_eq!(
        SubgraphError::CircuitOpen { retry_after_ms: 250 }.message(),
        "circuit breaker open for this subgraph (retry after 250ms)"
    );
}

#[test]
fn duration_text_matches_std_debug() {
    for ms in [0u64, 1, 9, 250, 999, 1000, 1001, 1050, 1500, 2005, 60_000, 123_456, u64::MAX] {
        assert_eq!(
            travelgraph_router::error::duration_debug_text(ms),
            format!("{:?}", std::time::Duration::from_millis(ms)),
            "{ms}"
        );
    }
}

#[test]
fn settling_an_attempt_records_it_and_decides_the_next_step() {
    let policy = RetryPolicy { max_retries: 2, initial_backoff_ms: 10, max_backoff_ms: 250 };
    let mut b = CircuitBreaker::new(cfg());
    let now = 1_000_000;
    let ok = travelgraph_router::graphql::types::GraphQLResponse { data: None, errors: Vec::new(), extensions: None };
    match settle_attempt(&mut b, &policy, OperationKind::Query, 0, 3, Ok(ok), now) {
        AfterAttempt::Finish(Ok(_)) => {}
        other => panic!("unexpected {other:?}"),
    }
    assert_eq!(b.samples.len(), 1);
    assert!(b.samples[0].success);
    match settle_attempt(&mut b, &policy, OperationKind::Query, 1, 3, Err(SubgraphError::Timeout(5)), now) {
        AfterAttempt::Retry { wait_ms } => assert_eq!(wait_ms, 20),
        other => panic!("unexpected {other:?}"),
    }
    match settle_attempt(&mut b, &policy, OperationKind::Query, 2, 3, Err(SubgraphError::Timeout(5)), now) {
        AfterAttempt::Finish(Err(SubgraphError::Timeout(5))) => {}
        other => panic!("unexpected {other:?}"),
    }
    match settle_attempt(&mut b, &policy, OperationKind::Mutation, 0, 3, Err(SubgraphError::Timeout(5)), now) {
        AfterAttempt::Finish(Err(SubgraphError::Timeout(5))) => {}
        other => panic!("unexpected {other:?}"),
    }
    assert_eq!(b.samples.len(), 4);
    assert!(!b.samples[3].success);
}

#[test]
fn missing_breaker_error_names_the_subgraph() {
    match no_breaker_error("pricing") {
        SubgraphError::Transport(m) => assert_eq!(m, "no circuit breaker for subgraph \"pricing\""),
        other => panic!("unexpected {other:?}"),
    }
}

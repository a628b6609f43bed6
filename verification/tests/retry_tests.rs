use deadlock_cli::report::exit_status_for;
use deadlock_cli::retry::{
    parse_retry_after, retry_step, AttemptOutcome, DeadlockError, RetryDecision, RetryState,
};

#[test]
fn wait_hint_is_honoured_exactly() {
    let mut st = RetryState::new();
    let d = retry_step(
        &mut st,
        AttemptOutcome::RateLimited {
            wait_hint_ms: Some(2000),
            message: "slow down".to_string(),
        },
    );
    // exactly the hinted two seconds, and the backoff schedule is untouched
    assert!(matches!(d, RetryDecision::Wait { delay_ms: 2000 }));
    assert_eq!(st.backoff_ms, 400);
    assert_eq!(st.attempts_done, 1);
}

#[test]
fn backoff_doubles_without_a_hint() {
    let mut st = RetryState::new();
    let d1 = retry_step(
        &mut st,
        AttemptOutcome::RateLimited { wait_hint_ms: None, message: String::new() },
    );
    assert!(matches!(d1, RetryDecision::Wait { delay_ms: 400 }));
    assert_eq!(st.backoff_ms, 800);
}

#[test]
fn three_failures_then_success_surfaces_no_error() {
    let mut st = RetryState::new();
    let d1 = retry_step(&mut st, AttemptOutcome::NetworkError { message: "a".to_string() });
    assert!(matches!(d1, RetryDecision::Wait { delay_ms: 400 }));
    let d2 = retry_step(&mut st, AttemptOutcome::NetworkError { message: "b".to_string() });
    assert!(matches!(d2, RetryDecision::Wait { delay_ms: 800 }));
    let d3 = retry_step(&mut st, AttemptOutcome::NetworkError { message: "c".to_string() });
    assert!(matches!(d3, RetryDecision::Wait { delay_ms: 1600 }));
    let d4 = retry_step(&mut st, AttemptOutcome::Success);
    assert!(matches!(d4, RetryDecision::Succeed));
}

#[test]
fn budget_exhaustion_returns_last_error() {
    let mut st = RetryState::new();
    for _ in 0..3 {
        let d = retry_step(
            &mut st,
            AttemptOutcome::RateLimited { wait_hint_ms: None, message: "x".to_string() },
        );
        assert!(matches!(d, RetryDecision::Wait { .. }));
    }
    let d = retry_step(
        &mut st,
        AttemptOutcome::RateLimited { wait_hint_ms: None, message: "final".to_string() },
    );
    assert!(matches!(d, RetryDecision::Fail(DeadlockError::RateLimited(m)) if m == "final"));
}

#[test]
fn other_statuses_fail_at_once() {
    let mut st = RetryState::new();
    let d = retry_step(
        &mut st,
        AttemptOutcome::HttpError { status: 404, message: "missing".to_string() },
    );
    assert!(matches!(d, RetryDecision::Fail(DeadlockError::Http { status: 404, .. })));
}

#[test]
fn retry_after_seconds_form() {
    assert_eq!(parse_retry_after("2", 1_700_000_000), Some(2));
    assert_eq!(parse_retry_after("0", 1_700_000_000), Some(0));
    assert_eq!(parse_retry_after("nonsense", 1_700_000_000), None);
}

#[test]
fn retry_after_http_date_form() {
    // 2015-05-15 15:34:21 UTC is 1431704061 seconds past the epoch
    let s = "Fri, 15 May 2015 15:34:21 GMT";
    assert_eq!(parse_retry_after(s, 1431704061 - 61), Some(61));
    // a date already passed yields no hint
    assert_eq!(parse_retry_after(s, 1431704061 + 1), None);
}

#[test]
fn exit_statuses_are_distinct() {
    assert_eq!(exit_status_for(&DeadlockError::RateLimited("r".to_string())), 29);
    assert_eq!(
        exit_status_for(&DeadlockError::Http { status: 500, message: String::new() }),
        1
    );
    assert_eq!(exit_status_for(&DeadlockError::Other("x".to_string())), 1);
}

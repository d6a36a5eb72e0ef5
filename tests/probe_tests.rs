use netwatch::probe::{classify_attempt, classify_attempts, is_success_status, AttemptOutcome, CheckResult, Probe};

fn status(code: u16, reason: &str) -> AttemptOutcome {
    AttemptOutcome::Status { code, reason: reason.to_string() }
}

#[test]
fn success_status_range() {
    assert!(!is_success_status(199));
    assert!(is_success_status(200));
    assert!(is_success_status(204));
    assert!(is_success_status(301));
    assert!(is_success_status(399));
    assert!(!is_success_status(400));
    assert!(!is_success_status(503));
}

#[test]
fn single_attempt_classification() {
    assert_eq!(classify_attempt(status(200, "OK")), CheckResult::Success);
    assert_eq!(
        classify_attempt(status(404, "Not Found")),
        CheckResult::HttpError { status: 404, reason: "Not Found".to_string() }
    );
    assert_eq!(classify_attempt(AttemptOutcome::Transport), CheckResult::NetworkError);
}

#[test]
fn success_on_last_attempt_within_budget() {
    let outcomes = vec![AttemptOutcome::Transport, status(500, "Internal Server Error"), status(200, "OK")];
    assert_eq!(classify_attempts(outcomes, 3), CheckResult::Success);
}

#[test]
fn exhausted_budget_reports_last_attempt() {
    let outcomes = vec![status(500, "Internal Server Error"), AttemptOutcome::Transport];
    assert_eq!(classify_attempts(outcomes, 2), CheckResult::NetworkError);

    let outcomes = vec![AttemptOutcome::Transport, status(503, "Service Unavailable")];
    assert_eq!(
        classify_attempts(outcomes, 2),
        CheckResult::HttpError { status: 503, reason: "Service Unavailable".to_string() }
    );
}

#[test]
fn attempts_beyond_budget_are_not_made() {
    let outcomes = vec![AttemptOutcome::Transport, AttemptOutcome::Transport, status(200, "OK")];
    assert_eq!(classify_attempts(outcomes, 2), CheckResult::NetworkError);
}

#[test]
fn probe_steps_through_retries() {
    let mut probe = Probe::new(3);
    assert_eq!(probe.record(AttemptOutcome::Transport), None);
    assert_eq!(probe.failed, 1);
    assert_eq!(probe.record(status(502, "Bad Gateway")), None);
    assert_eq!(probe.failed, 2);
    assert_eq!(
        probe.record(status(502, "Bad Gateway")),
        Some(CheckResult::HttpError { status: 502, reason: "Bad Gateway".to_string() })
    );

    let mut probe = Probe::new(1);
    assert_eq!(probe.record(status(302, "Found")), Some(CheckResult::Success));
}

use netwatch::probe::{AttemptOutcome, CheckResult};
use netwatch::tick::{evaluate_tick, TickRun, TickVerdict};

fn status(code: u16, reason: &str) -> AttemptOutcome {
    AttemptOutcome::Status { code, reason: reason.to_string() }
}

#[test]
fn second_target_rescues_tick() {
    let a = vec![AttemptOutcome::Transport, AttemptOutcome::Transport, AttemptOutcome::Transport];
    let b = vec![status(200, "OK"), status(500, "Internal Server Error"), status(500, "Internal Server Error")];
    assert_eq!(evaluate_tick(vec![a, b], 3), TickVerdict::Reachable);
}

#[test]
fn all_targets_failing_reports_last_target() {
    let a = vec![status(500, "Internal Server Error"), status(500, "Internal Server Error")];
    let b = vec![AttemptOutcome::Transport, AttemptOutcome::Transport];
    assert_eq!(
        evaluate_tick(vec![a, b], 2),
        TickVerdict::Unreachable { target: 1, failure: CheckResult::NetworkError }
    );

    let a = vec![AttemptOutcome::Transport];
    let b = vec![status(404, "Not Found")];
    assert_eq!(
        evaluate_tick(vec![a, b], 1),
        TickVerdict::Unreachable {
            target: 1,
            failure: CheckResult::HttpError { status: 404, reason: "Not Found".to_string() },
        }
    );
}

#[test]
fn first_success_stops_the_tick() {
    let mut run = TickRun::new(3);
    assert_eq!(run.current_target(), 0);
    assert_eq!(run.record(CheckResult::NetworkError), None);
    assert_eq!(run.current_target(), 1);
    assert_eq!(run.record(CheckResult::Success), Some(TickVerdict::Reachable));
    assert_eq!(run.current_target(), 1);
}

#[test]
fn tick_run_ends_after_last_target() {
    let mut run = TickRun::new(2);
    assert_eq!(run.record(CheckResult::NetworkError), None);
    assert_eq!(
        run.record(CheckResult::HttpError { status: 500, reason: "Internal Server Error".to_string() }),
        Some(TickVerdict::Unreachable {
            target: 1,
            failure: CheckResult::HttpError { status: 500, reason: "Internal Server Error".to_string() },
        })
    );
}

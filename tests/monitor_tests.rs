use netwatch::monitor::{LogEvent, MonitorState};
use netwatch::probe::CheckResult;
use netwatch::tick::TickVerdict;

fn down() -> TickVerdict {
    TickVerdict::Unreachable { target: 0, failure: CheckResult::NetworkError }
}

#[test]
fn starts_online() {
    let s = MonitorState::new();
    assert!(s.is_online);
    assert_eq!(s.consecutive_failures, 0);
}

#[test]
fn failures_below_threshold_stay_quiet() {
    let mut s = MonitorState::new();
    assert_eq!(s.apply_tick(down(), 3), None);
    assert_eq!(s.apply_tick(down(), 3), None);
    assert!(s.is_online);
    assert_eq!(s.consecutive_failures, 2);
}

#[test]
fn success_resets_streak() {
    let mut s = MonitorState::new();
    assert_eq!(s.apply_tick(down(), 2), None);
    assert_eq!(s.apply_tick(TickVerdict::Reachable, 2), None);
    assert_eq!(s.consecutive_failures, 0);
    assert_eq!(s.apply_tick(down(), 2), None);
    assert!(s.is_online);
}

#[test]
fn outage_reported_once_then_restoration_once() {
    let mut s = MonitorState::new();
    assert_eq!(
        s.apply_tick(down(), 1),
        Some(LogEvent::OutageDetected { target: 0, failure: CheckResult::NetworkError })
    );
    for _ in 0..5 {
        assert_eq!(s.apply_tick(down(), 1), None);
        assert!(!s.is_online);
    }
    assert_eq!(s.apply_tick(TickVerdict::Reachable, 1), Some(LogEvent::ConnectionRestored));
    assert!(s.is_online);
    assert_eq!(s.apply_tick(TickVerdict::Reachable, 1), None);
}

#[test]
fn steady_online_is_silent() {
    let mut s = MonitorState::new();
    for _ in 0..10 {
        assert_eq!(s.apply_tick(TickVerdict::Reachable, 2), None);
        assert!(s.is_online);
        assert_eq!(s.consecutive_failures, 0);
    }
}

#[test]
fn threshold_two_transport_failures_scenario() {
    let mut s = MonitorState::new();
    assert_eq!(s.apply_tick(down(), 2), None);
    assert_eq!(s.consecutive_failures, 1);
    assert!(s.is_online);
    assert_eq!(
        s.apply_tick(down(), 2),
        Some(LogEvent::OutageDetected { target: 0, failure: CheckResult::NetworkError })
    );
    assert_eq!(s.consecutive_failures, 2);
    assert!(!s.is_online);
    assert_eq!(s.apply_tick(down(), 2), None);
    assert_eq!(s.consecutive_failures, 3);
    assert_eq!(s.apply_tick(TickVerdict::Reachable, 2), Some(LogEvent::ConnectionRestored));
    assert!(s.is_online);
    assert_eq!(s.consecutive_failures, 0);
}

#[test]
fn failure_count_saturates() {
    let mut s = MonitorState { is_online: false, consecutive_failures: u32::MAX };
    assert_eq!(s.apply_tick(down(), u32::MAX), None);
    assert_eq!(s.consecutive_failures, u32::MAX);
    let mut s = MonitorState { is_online: true, consecutive_failures: u32::MAX - 1 };
    assert_eq!(
        s.apply_tick(down(), u32::MAX),
        Some(LogEvent::OutageDetected { target: 0, failure: CheckResult::NetworkError })
    );
}

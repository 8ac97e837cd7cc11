use adventskalender_backend::backoff::BackoffHandler;
use adventskalender_backend::health::{check_backend_health, HealthSignal};

#[test]
fn two_calls_within_the_interval_execute_once() {
    let mut gate = BackoffHandler::new(60, 1000);
    assert!(gate.call(1000));
    assert!(!gate.call(1010));
    assert!(!gate.call(1059));
    // Once the full interval has elapsed the call executes again.
    assert!(gate.call(1060));
}

#[test]
fn fresh_handler_permits_its_first_call_right_away() {
    let mut gate = BackoffHandler::new(60, 70);
    assert!(gate.call(70));
    assert!(!gate.call(100));
}

#[test]
fn default_gate_permits_a_call_after_its_first_minute() {
    let mut gate = BackoffHandler::default();
    assert!(gate.call(100));
    assert!(!gate.call(120));
}

#[test]
fn healthy_probe_reports_up_and_backs_off() {
    let mut gate = BackoffHandler::new(60, 100);
    let (report, signal) = check_backend_health(&mut gate, true, 100);
    assert!(report.database_healthy);
    assert!(report.backend_healthy);
    assert_eq!(signal, Some(HealthSignal::ServiceUp));

    let (_, suppressed) = check_backend_health(&mut gate, true, 110);
    assert_eq!(suppressed, None);

    let (down_report, down_signal) = check_backend_health(&mut gate, false, 161);
    assert!(!down_report.database_healthy);
    assert!(!down_report.backend_healthy);
    assert_eq!(down_signal, Some(HealthSignal::ServiceDown));
}

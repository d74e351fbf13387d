use status_checker::outcome::{is_valid_status_code, AttemptEvent, ProbeOutcome, ProbeStatus};
use status_checker::probe::{
    client_failure_outcome, probe_with_events, ProbeAction, ProbeMachine, BACKOFF_MS,
};

fn err(msg: &str) -> AttemptEvent {
    AttemptEvent::TransportError(String::from(msg))
}

fn assert_success(o: &ProbeOutcome, code: u16) {
    match &o.status {
        ProbeStatus::Success(c) => assert_eq!(*c, code),
        ProbeStatus::Failure(e) => panic!("expected Success({}), got Failure({})", code, e),
    }
}

fn assert_failure(o: &ProbeOutcome, msg: &str) {
    match &o.status {
        ProbeStatus::Success(c) => panic!("expected Failure, got Success({})", c),
        ProbeStatus::Failure(e) => assert_eq!(e, msg),
    }
}

#[test]
fn always_failing_endpoint_attempts_retries_plus_one() {
    let events = vec![err("refused"), err("refused"), err("refused"), err("refused")];
    let ms = vec![10, 10, 10, 10];
    let (outcome, attempts) =
        probe_with_events(String::from("http://down.test"), 3, &events, &ms, 42);
    assert_eq!(attempts, 4);
    assert_failure(&outcome, "refused");
    assert_eq!(outcome.url, "http://down.test");
}

#[test]
fn no_retry_budget_attempts_once() {
    let events = vec![err("dns failure")];
    let ms = vec![7];
    let (outcome, attempts) = probe_with_events(String::from("http://x.test"), 0, &events, &ms, 0);
    assert_eq!(attempts, 1);
    assert_failure(&outcome, "dns failure");
    assert_eq!(outcome.elapsed_ms, 7);
}

#[test]
fn http_500_is_success_not_retried() {
    let events = vec![
        AttemptEvent::Response(500),
        AttemptEvent::Response(200),
        AttemptEvent::Response(200),
    ];
    let ms = vec![5, 5, 5];
    let (outcome, attempts) =
        probe_with_events(String::from("http://err.test"), 2, &events, &ms, 9);
    assert_eq!(attempts, 1);
    assert_success(&outcome, 500);
    assert_eq!(outcome.elapsed_ms, 5);
    assert_eq!(outcome.observed_at_ms, 9);
}

#[test]
fn first_response_after_failures_wins() {
    let events = vec![err("timed out"), err("timed out"), AttemptEvent::Response(404)];
    let ms = vec![1000, 1000, 30];
    let (outcome, attempts) =
        probe_with_events(String::from("http://flaky.test"), 5, &events, &ms, 0);
    assert_eq!(attempts, 3);
    assert_success(&outcome, 404);
    // two failed attempts, two backoff waits, one final attempt
    assert_eq!(outcome.elapsed_ms, 1000 + BACKOFF_MS + 1000 + BACKOFF_MS + 30);
}

#[test]
fn retried_probe_elapsed_covers_timeouts_and_backoffs() {
    let events = vec![err("timed out"), err("timed out")];
    let ms = vec![1000, 1000];
    let (outcome, attempts) =
        probe_with_events(String::from("http://fails.test"), 1, &events, &ms, 0);
    assert_eq!(attempts, 2);
    assert!(outcome.elapsed_ms >= 2 * 1000);
    assert_eq!(outcome.elapsed_ms, 1000 + BACKOFF_MS + 1000);
}

#[test]
fn machine_records_attempts_step_by_step() {
    let mut m = ProbeMachine::new(String::from("http://a.test"), 1);
    assert!(m.done.is_none());
    let a1 = m.record_attempt(err("refused"), 20);
    assert!(matches!(a1, ProbeAction::RetryAfterBackoff));
    assert!(m.done.is_none());
    let a2 = m.record_attempt(AttemptEvent::Response(301), 10);
    assert!(matches!(a2, ProbeAction::Finished));
    assert_eq!(m.attempts, 2);
    let outcome = m.finish(77);
    assert_success(&outcome, 301);
    assert_eq!(outcome.elapsed_ms, 20 + BACKOFF_MS + 10);
    assert_eq!(outcome.observed_at_ms, 77);
}

#[test]
fn client_build_failure_is_immediate_failure() {
    let outcome = client_failure_outcome(String::from("http://a.test"), 3, 12);
    assert_failure(&outcome, "Failed to create client");
    assert_eq!(outcome.url, "http://a.test");
    assert_eq!(outcome.elapsed_ms, 3);
    assert_eq!(outcome.observed_at_ms, 12);
}

#[test]
fn saturating_elapsed_never_overflows() {
    let events = vec![err("slow"), err("slow")];
    let ms = vec![u64::MAX, u64::MAX];
    let (outcome, _) = probe_with_events(String::from("http://slow.test"), 1, &events, &ms, 0);
    assert_eq!(outcome.elapsed_ms, u64::MAX);
}

#[test]
fn status_is_success_discriminates() {
    assert!(ProbeStatus::Success(200).is_success());
    assert!(!ProbeStatus::Failure(String::from("x")).is_success());
}

#[test]
fn status_code_range_matches_the_data_model() {
    assert!(!is_valid_status_code(99));
    assert!(is_valid_status_code(100));
    assert!(is_valid_status_code(200));
    assert!(is_valid_status_code(599));
    assert!(!is_valid_status_code(600));
    assert!(!is_valid_status_code(700));
}

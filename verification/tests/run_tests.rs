use status_checker::outcome::{AttemptEvent, ProbeOutcome, ProbeStatus};
use status_checker::queue::WorkQueue;
use status_checker::run::{run_in_arrival_order, run_with_events, validate, ConfigError, RunConfig};
use status_checker::sink::ResultSink;

fn config(workers: usize, timeout_secs: u64, retries: u32) -> RunConfig {
    RunConfig { workers, timeout_secs, retries }
}

fn ok_events(code: u16, n: usize) -> Vec<AttemptEvent> {
    (0..n).map(|_| AttemptEvent::Response(code)).collect()
}

fn fail_events(msg: &str, n: usize) -> Vec<AttemptEvent> {
    (0..n).map(|_| AttemptEvent::TransportError(String::from(msg))).collect()
}

fn same_outcome(a: &ProbeOutcome, b: &ProbeOutcome) -> bool {
    let status_eq = match (&a.status, &b.status) {
        (ProbeStatus::Success(x), ProbeStatus::Success(y)) => x == y,
        (ProbeStatus::Failure(x), ProbeStatus::Failure(y)) => x == y,
        _ => false,
    };
    a.url == b.url && status_eq && a.elapsed_ms == b.elapsed_ms
        && a.observed_at_ms == b.observed_at_ms
}

#[test]
fn one_outcome_per_url() {
    let targets = vec![
        String::from("http://a.test"),
        String::from("http://b.test"),
        String::from("http://c.test"),
    ];
    let events = vec![ok_events(200, 1), fail_events("refused", 1), ok_events(503, 1)];
    let ms = vec![vec![1], vec![2], vec![3]];
    let results = run_with_events(targets.clone(), &config(4, 1, 0), &events, &ms, 0).unwrap();
    assert_eq!(results.len(), targets.len());
    for (i, t) in targets.iter().enumerate() {
        assert_eq!(&results[i].url, t);
    }
}

#[test]
fn two_url_scenario_success_and_timeout() {
    // worker_count = 2, timeout = 1 s per attempt, one retry: the first URL
    // answers 200 at once, the second times out on every attempt.
    let targets = vec![String::from("http://ok.test"), String::from("http://fails.test")];
    let events = vec![ok_events(200, 2), fail_events("operation timed out", 2)];
    let ms = vec![vec![3, 3], vec![1000, 1000]];
    let results = run_with_events(targets, &config(2, 1, 1), &events, &ms, 0).unwrap();
    assert_eq!(results.len(), 2);
    assert_eq!(results[0].url, "http://ok.test");
    assert!(matches!(results[0].status, ProbeStatus::Success(200)));
    assert_eq!(results[1].url, "http://fails.test");
    assert!(matches!(results[1].status, ProbeStatus::Failure(_)));
    // initial attempt plus one retry, each consuming the full 1 s timeout
    assert!(results[1].elapsed_ms >= 2 * 1000);
}

#[test]
fn empty_input_rejected_before_running() {
    let targets: Vec<String> = vec![];
    let events: Vec<Vec<AttemptEvent>> = vec![];
    let ms: Vec<Vec<u64>> = vec![];
    let r = run_with_events(targets, &config(2, 1, 0), &events, &ms, 0);
    assert!(matches!(r, Err(ConfigError::NoUrls)));
}

#[test]
fn zero_workers_rejected() {
    assert!(matches!(validate(3, &config(0, 1, 0)), Err(ConfigError::NoWorkers)));
}

#[test]
fn zero_timeout_rejected() {
    assert!(matches!(validate(3, &config(1, 0, 0)), Err(ConfigError::NoTimeout)));
}

#[test]
fn valid_config_accepted() {
    assert!(validate(1, &config(1, 1, 0)).is_ok());
}

#[test]
fn same_input_twice_gives_same_outcomes() {
    let targets = vec![String::from("http://a.test"), String::from("http://b.test")];
    let events = vec![ok_events(200, 3), fail_events("refused", 3)];
    let ms = vec![vec![4, 4, 4], vec![9, 9, 9]];
    let first = run_with_events(targets.clone(), &config(3, 1, 2), &events, &ms, 5).unwrap();
    let second = run_with_events(targets, &config(3, 1, 2), &events, &ms, 5).unwrap();
    assert_eq!(first.len(), second.len());
    for (a, b) in first.iter().zip(second.iter()) {
        assert!(same_outcome(a, b));
    }
}

#[test]
fn arrival_order_changes_order_not_content() {
    let targets = vec![
        String::from("http://a.test"),
        String::from("http://b.test"),
        String::from("http://c.test"),
    ];
    let events = vec![ok_events(200, 1), fail_events("refused", 1), ok_events(404, 1)];
    let ms = vec![vec![1], vec![2], vec![3]];
    let in_order = run_with_events(targets.clone(), &config(1, 1, 0), &events, &ms, 0).unwrap();
    let order = vec![2usize, 0, 1];
    let shuffled =
        run_in_arrival_order(&targets, &config(3, 1, 0), &events, &ms, 0, &order).unwrap();
    assert_eq!(shuffled.len(), in_order.len());
    // every outcome of the one-worker run appears exactly once, just elsewhere
    for o in &in_order {
        let hits = shuffled.iter().filter(|s| same_outcome(s, o)).count();
        assert_eq!(hits, 1);
    }
    assert!(same_outcome(&shuffled[0], &in_order[2]));
    assert!(same_outcome(&shuffled[1], &in_order[0]));
    assert!(same_outcome(&shuffled[2], &in_order[1]));
}

#[test]
fn queue_is_fifo_and_close_signals_end() {
    let mut q = WorkQueue::new();
    assert!(!q.is_closed());
    q.enqueue(String::from("http://first.test"));
    q.enqueue(String::from("http://second.test"));
    q.close();
    assert!(q.is_closed());
    assert_eq!(q.dequeue().as_deref(), Some("http://first.test"));
    assert_eq!(q.dequeue().as_deref(), Some("http://second.test"));
    assert_eq!(q.dequeue(), None);
    assert_eq!(q.dequeue(), None);
}

#[test]
fn sink_keeps_everything_in_arrival_order() {
    let mut sink = ResultSink::new();
    assert_eq!(sink.len(), 0);
    sink.push(ProbeOutcome {
        url: String::from("http://a.test"),
        status: ProbeStatus::Success(200),
        elapsed_ms: 1,
        observed_at_ms: 2,
    });
    sink.push(ProbeOutcome {
        url: String::from("http://b.test"),
        status: ProbeStatus::Failure(String::from("refused")),
        elapsed_ms: 3,
        observed_at_ms: 4,
    });
    assert_eq!(sink.len(), 2);
    let all = sink.into_results();
    assert_eq!(all.len(), 2);
    assert_eq!(all[0].url, "http://a.test");
    assert_eq!(all[1].url, "http://b.test");
}

#[test]
fn empty_input_outranks_other_config_errors() {
    // an empty input is reported even when the rest of the configuration is
    // also broken: the run never gets further than the missing URLs
    assert!(matches!(validate(0, &config(0, 0, 0)), Err(ConfigError::NoUrls)));
}

#[test]
fn arrival_order_run_rejects_empty_input_too() {
    let targets: Vec<String> = vec![];
    let events: Vec<Vec<AttemptEvent>> = vec![];
    let ms: Vec<Vec<u64>> = vec![];
    let order: Vec<usize> = vec![];
    let r = run_in_arrival_order(&targets, &config(2, 1, 0), &events, &ms, 0, &order);
    assert!(matches!(r, Err(ConfigError::NoUrls)));
}

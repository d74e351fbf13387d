use status_checker::outcome::{ProbeOutcome, ProbeStatus};
use status_checker::report::{json_line, render_report, replace_quotes, status_line, u64_to_dec};

fn success(url: &str, code: u16, elapsed: u64, at: u64) -> ProbeOutcome {
    ProbeOutcome {
        url: String::from(url),
        status: ProbeStatus::Success(code),
        elapsed_ms: elapsed,
        observed_at_ms: at,
    }
}

fn failure(url: &str, msg: &str, elapsed: u64, at: u64) -> ProbeOutcome {
    ProbeOutcome {
        url: String::from(url),
        status: ProbeStatus::Failure(String::from(msg)),
        elapsed_ms: elapsed,
        observed_at_ms: at,
    }
}

#[test]
fn decimal_rendering_is_canonical() {
    assert_eq!(u64_to_dec(0), "0");
    assert_eq!(u64_to_dec(7), "7");
    assert_eq!(u64_to_dec(10), "10");
    assert_eq!(u64_to_dec(1234), "1234");
    assert_eq!(u64_to_dec(u64::MAX), "18446744073709551615");
}

#[test]
fn quotes_become_single_quotes() {
    assert_eq!(replace_quotes("plain"), "plain");
    assert_eq!(replace_quotes("say \"hi\""), "say 'hi'");
    assert_eq!(replace_quotes(""), "");
}

#[test]
fn status_line_for_success() {
    let line = status_line(&success("http://a.test", 200, 5, 0));
    assert_eq!(line, "[200] OK http://a.test in 5ms");
}

#[test]
fn status_line_for_failure() {
    let line = status_line(&failure("http://b.test", "connection refused", 2100, 0));
    assert_eq!(line, "[ERROR] http://b.test failed: connection refused (after 2100ms)");
}

#[test]
fn json_line_for_success() {
    let line = json_line(&success("http://a.test", 200, 5, 7));
    assert_eq!(
        line,
        "  {\"url\": \"http://a.test\", \"status\": 200, \"time_ms\": 5, \"timestamp_ms\": 7}"
    );
}

#[test]
fn json_line_for_failure_escapes_quotes() {
    let line = json_line(&failure("http://b.test", "error \"quoted\"", 9, 1));
    assert_eq!(
        line,
        "  {\"url\": \"http://b.test\", \"status\": \"error 'quoted'\", \"time_ms\": 9, \"timestamp_ms\": 1}"
    );
}

#[test]
fn report_joins_records_with_commas() {
    let results = vec![success("http://a.test", 200, 5, 7), failure("http://b.test", "x", 9, 1)];
    let report = render_report(&results);
    let expected = String::from("[\n")
        + "  {\"url\": \"http://a.test\", \"status\": 200, \"time_ms\": 5, \"timestamp_ms\": 7},\n"
        + "  {\"url\": \"http://b.test\", \"status\": \"x\", \"time_ms\": 9, \"timestamp_ms\": 1}\n"
        + "]\n";
    assert_eq!(report, expected);
}

#[test]
fn report_of_single_record_has_no_comma() {
    let results = vec![success("http://a.test", 204, 1, 2)];
    let report = render_report(&results);
    assert_eq!(
        report,
        "[\n  {\"url\": \"http://a.test\", \"status\": 204, \"time_ms\": 1, \"timestamp_ms\": 2}\n]\n"
    );
}

#[test]
fn report_of_nothing_is_empty_array() {
    let results: Vec<ProbeOutcome> = vec![];
    assert_eq!(render_report(&results), "[\n]\n");
}

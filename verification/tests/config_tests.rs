use status_checker::config::{
    collect_urls, from_arg_list, parse_u64, str_eq, ArgError, LoadError,
};

fn args(list: &[&str]) -> Vec<String> {
    list.iter().map(|s| String::from(*s)).collect()
}

#[test]
fn defaults_apply_when_only_urls_given() {
    let c = from_arg_list(&args(&["http://a.test", "http://b.test"])).unwrap();
    assert_eq!(c.workers, 4);
    assert_eq!(c.timeout_secs, 5);
    assert_eq!(c.retries, 0);
    assert!(c.file_path.is_none());
    assert_eq!(c.urls, vec!["http://a.test", "http://b.test"]);
}

#[test]
fn flags_set_their_values() {
    let c = from_arg_list(&args(&[
        "--workers",
        "8",
        "--timeout",
        "2",
        "--retries",
        "3",
        "--file",
        "urls.txt",
        "http://a.test",
    ]))
    .unwrap();
    assert_eq!(c.workers, 8);
    assert_eq!(c.timeout_secs, 2);
    assert_eq!(c.retries, 3);
    assert_eq!(c.file_path.as_deref(), Some("urls.txt"));
    assert_eq!(c.urls, vec!["http://a.test"]);
}

#[test]
fn later_flag_overwrites_earlier() {
    let c = from_arg_list(&args(&["--workers", "2", "--workers", "6", "http://a.test"])).unwrap();
    assert_eq!(c.workers, 6);
}

#[test]
fn file_alone_suffices() {
    let c = from_arg_list(&args(&["--file", "urls.txt"])).unwrap();
    assert_eq!(c.file_path.as_deref(), Some("urls.txt"));
    assert!(c.urls.is_empty());
}

#[test]
fn flag_without_value_is_rejected() {
    let r = from_arg_list(&args(&["http://a.test", "--file"]));
    match r {
        Err(ArgError::MissingValue(f)) => assert_eq!(f, "--file"),
        other => panic!("expected MissingValue, got {:?}", other.is_ok()),
    }
}

#[test]
fn bad_number_is_rejected() {
    let r = from_arg_list(&args(&["--workers", "abc", "http://a.test"]));
    match r {
        Err(ArgError::InvalidNumber(f)) => assert_eq!(f, "--workers"),
        other => panic!("expected InvalidNumber, got {:?}", other.is_ok()),
    }
}

#[test]
fn oversized_retries_is_rejected() {
    let r = from_arg_list(&args(&["--retries", "99999999999", "http://a.test"]));
    assert!(matches!(r, Err(ArgError::InvalidNumber(_))));
}

#[test]
fn unknown_flag_is_rejected() {
    let r = from_arg_list(&args(&["--frobnicate", "http://a.test"]));
    match r {
        Err(ArgError::UnknownFlag(f)) => assert_eq!(f, "--frobnicate"),
        other => panic!("expected UnknownFlag, got {:?}", other.is_ok()),
    }
}

#[test]
fn no_urls_at_all_is_rejected() {
    let r = from_arg_list(&args(&[]));
    assert!(matches!(r, Err(ArgError::NoUrls)));
    let r2 = from_arg_list(&args(&["--workers", "2"]));
    assert!(matches!(r2, Err(ArgError::NoUrls)));
}

#[test]
fn error_messages_name_the_flag() {
    assert_eq!(
        ArgError::MissingValue(String::from("--file")).message(),
        "Expected file path after --file"
    );
    assert_eq!(
        ArgError::MissingValue(String::from("--workers")).message(),
        "Expected number after --workers"
    );
    assert_eq!(
        ArgError::MissingValue(String::from("--timeout")).message(),
        "Expected number after --timeout"
    );
    assert_eq!(
        ArgError::MissingValue(String::from("--retries")).message(),
        "Expected number after --retries"
    );
    assert_eq!(
        ArgError::InvalidNumber(String::from("--workers")).message(),
        "Invalid number for --workers"
    );
    assert_eq!(
        ArgError::UnknownFlag(String::from("--x")).message(),
        "Unknown flag: --x"
    );
    assert_eq!(
        ArgError::NoUrls.message(),
        "No URLs provided. Use --file or provide URLs directly."
    );
    assert_eq!(LoadError::NoValidUrls.message(), "No valid URLs provided.");
}

#[test]
fn parse_u64_reads_decimal() {
    assert_eq!(parse_u64("0"), Some(0));
    assert_eq!(parse_u64("123"), Some(123));
    assert_eq!(parse_u64("18446744073709551615"), Some(u64::MAX));
}

#[test]
fn parse_u64_accepts_a_leading_plus() {
    assert_eq!(parse_u64("+5"), Some(5));
    assert_eq!(parse_u64("+0"), Some(0));
    assert_eq!(parse_u64("+"), None);
    assert_eq!(parse_u64("++1"), None);
    assert_eq!(parse_u64("5+"), None);
}

#[test]
fn flag_value_with_leading_plus_is_accepted() {
    let c = from_arg_list(&args(&["--workers", "+5", "http://a.test"])).unwrap();
    assert_eq!(c.workers, 5);
}

#[test]
fn parse_u64_rejects_junk_and_overflow() {
    assert_eq!(parse_u64(""), None);
    assert_eq!(parse_u64("12a"), None);
    assert_eq!(parse_u64("-5"), None);
    assert_eq!(parse_u64(" 7"), None);
    assert_eq!(parse_u64("18446744073709551616"), None);
}

#[test]
fn str_eq_compares_contents() {
    assert!(str_eq("abc", "abc"));
    assert!(!str_eq("abc", "abd"));
    assert!(!str_eq("abc", "abcd"));
    assert!(str_eq("", ""));
}

#[test]
fn lines_are_trimmed_and_comments_dropped() {
    let lines = args(&["  http://a.test  ", "", "   ", "# a comment", "http://b.test"]);
    let extras = args(&["http://c.test"]);
    let urls = collect_urls(&lines, &extras).unwrap();
    assert_eq!(urls, vec!["http://a.test", "http://b.test", "http://c.test"]);
}

#[test]
fn no_valid_urls_is_rejected() {
    let lines = args(&["   ", "# only a comment"]);
    let extras: Vec<String> = vec![];
    let r = collect_urls(&lines, &extras);
    assert!(matches!(r, Err(LoadError::NoValidUrls)));
}

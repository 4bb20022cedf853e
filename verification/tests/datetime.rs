use jira_commands::datetime::{
    build_worklog_range_dates, build_worklog_started, build_worklog_started_for_date,
    parse_date, parse_time, pick_started, weekday, CalendarDate, DateTimeError,
};

fn rendered(dates: &[CalendarDate]) -> Vec<String> {
    dates.iter().map(|d| d.to_iso_string()).collect()
}

#[test]
fn returns_none_when_no_inputs_are_provided() {
    assert!(build_worklog_started(None, None, None).ok().unwrap().is_none());
}

#[test]
fn builds_timestamp_when_date_and_time_are_provided() {
    let started = build_worklog_started(Some("2026-04-21"), Some("09:30"), None)
        .ok()
        .unwrap()
        .unwrap();

    assert!(started.starts_with("2026-04-21T09:30:00.000"));
    assert!(started.ends_with("+0000") || started.ends_with("-0000") || started.len() == 28);
}

#[test]
fn builds_timestamp_in_jira_timezone_when_provided() {
    let started = build_worklog_started(Some("2026-04-21"), Some("08:00"), Some("Asia/Jakarta"))
        .ok()
        .unwrap()
        .unwrap();

    assert_eq!(started, "2026-04-21T08:00:00.000+0700");
}

#[test]
fn rejects_invalid_date() {
    let err = build_worklog_started(Some("21-04-2026"), Some("09:30"), None)
        .err()
        .unwrap();
    assert!(err.message().contains("Invalid date"));
}

#[test]
fn rejects_invalid_time() {
    let err = build_worklog_started(Some("2026-04-21"), Some("9.30"), None)
        .err()
        .unwrap();
    assert!(err.message().contains("Invalid start time"));
}

#[test]
fn rejects_invalid_timezone() {
    let err = build_worklog_started(Some("2026-04-21"), Some("08:00"), Some("Mars/Olympus"))
        .err()
        .unwrap();
    assert!(err.message().contains("Invalid Jira timezone"));
}

#[test]
fn builds_inclusive_range_dates() {
    let dates = build_worklog_range_dates("2026-04-21", "2026-04-23", false)
        .ok()
        .unwrap();

    assert_eq!(
        rendered(&dates),
        vec!["2026-04-21", "2026-04-22", "2026-04-23"]
    );
}

#[test]
fn excludes_weekends_from_range_when_requested() {
    let dates = build_worklog_range_dates("2026-04-24", "2026-04-27", true)
        .ok()
        .unwrap();

    assert_eq!(rendered(&dates), vec!["2026-04-24", "2026-04-27"]);
}

#[test]
fn rejects_reversed_ranges() {
    let err = build_worklog_range_dates("2026-04-27", "2026-04-24", false)
        .err()
        .unwrap();
    assert!(err.message().contains("Invalid range"));
}

#[test]
fn range_error_names_both_ends_trimmed() {
    let err = build_worklog_range_dates(" 2026-04-27 ", "2026-04-24", false)
        .err()
        .unwrap();
    assert_eq!(
        err.message(),
        "Invalid range: end date '2026-04-24' is before start date '2026-04-27'"
    );
}

#[test]
fn single_day_range_holds_that_day() {
    let dates = build_worklog_range_dates("2026-04-25", "2026-04-25", false)
        .ok()
        .unwrap();
    assert_eq!(rendered(&dates), vec!["2026-04-25"]);
    let weekend_only = build_worklog_range_dates("2026-04-25", "2026-04-26", true)
        .ok()
        .unwrap();
    assert!(weekend_only.is_empty());
}

#[test]
fn weekday_counts_from_monday() {
    let monday = parse_date("2026-04-27").ok().unwrap();
    let saturday = parse_date("2026-04-25").ok().unwrap();
    let first = parse_date("0001-01-01").ok().unwrap();
    assert_eq!(weekday(&monday), 0);
    assert_eq!(weekday(&saturday), 5);
    assert_eq!(weekday(&first), 0);
    assert_eq!(first.day_number(), 1);
}

#[test]
fn parses_date_with_surrounding_whitespace() {
    let d = parse_date("  1970-01-01 ").ok().unwrap();
    assert_eq!(d.day_number(), 719_163);
    assert_eq!(d.to_iso_string(), "1970-01-01");
    let err = parse_date(" 2026-13-01").err().unwrap();
    assert_eq!(
        err.message(),
        "Invalid date '2026-13-01'. Expected format: YYYY-MM-DD"
    );
}

#[test]
fn accepts_time_with_seconds_and_zone_with_spaces() {
    let started = build_worklog_started(Some("2026-04-21"), Some("08:00:15"), Some(" UTC "))
        .ok()
        .unwrap()
        .unwrap();
    assert_eq!(started, "2026-04-21T08:00:15.000+0000");
}

#[test]
fn timezone_is_checked_before_the_date() {
    let err = build_worklog_started(Some("not-a-date"), Some("9.30"), Some("Mars/Olympus"))
        .err()
        .unwrap();
    assert!(err.message().contains("Invalid Jira timezone 'Mars/Olympus'"));
}

#[test]
fn dst_gap_is_reported_as_unresolved() {
    let err = build_worklog_started(
        Some("2026-03-08"),
        Some("02:30"),
        Some("America/New_York"),
    )
    .err()
    .unwrap();
    assert_eq!(
        err.message(),
        "Could not resolve time for started timestamp in timezone America/New_York: 2026-03-08 02:30:00"
    );
}

#[test]
fn dst_overlap_takes_the_earlier_instant() {
    let started = build_worklog_started(
        Some("2026-11-01"),
        Some("01:30"),
        Some("America/New_York"),
    )
    .ok()
    .unwrap()
    .unwrap();
    assert_eq!(started, "2026-11-01T01:30:00.000-0400");
}

#[test]
fn started_for_date_uses_given_time() {
    let date = CalendarDate::from_day_number(parse_date("2026-04-21").ok().unwrap().day_number())
        .unwrap();
    let started = build_worklog_started_for_date(&date, Some("10:05"), Some("Asia/Jakarta"))
        .ok()
        .unwrap();
    assert_eq!(started, "2026-04-21T10:05:00.000+0700");
}

fn offset_like(s: &str) -> bool {
    let b = s.as_bytes();
    b.len() == 5 && (b[0] == b'+' || b[0] == b'-') && b[1..].iter().all(|c| c.is_ascii_digit())
}

#[test]
fn local_timestamp_keeps_date_and_time_and_ends_with_an_offset() {
    let started = build_worklog_started(Some("2026-04-21"), Some("09:30:15"), None).ok().unwrap().unwrap();
    assert_eq!(started.len(), 28);
    assert_eq!(&started[..23], "2026-04-21T09:30:15.000");
    assert!(offset_like(&started[23..]));
}

#[test]
fn date_only_and_start_only_fill_in_from_the_clock() {
    let date_only = build_worklog_started(Some("2026-04-21"), None, Some("Asia/Jakarta")).ok().unwrap().unwrap();
    assert!(date_only.starts_with("2026-04-21T"));
    assert!(date_only.ends_with(".000+0700"));
    let start_only = build_worklog_started(None, Some("08:15"), Some("UTC")).ok().unwrap().unwrap();
    assert_eq!(&start_only[10..], "T08:15:00.000+0000");
}

#[test]
fn pick_started_takes_the_earliest_or_names_the_gap() {
    let date = parse_date("2026-03-08").ok().unwrap();
    let time = parse_time("02:30").ok().unwrap();
    let two = vec!["2026-03-08T02:30:00.000-0500".to_string(), "2026-03-08T02:30:00.000-0600".to_string()];
    assert_eq!(pick_started(two, &date, &time, Some("America/Chicago")).ok().unwrap(), "2026-03-08T02:30:00.000-0500");
    match pick_started(vec![], &date, &time, Some("America/Chicago")) {
        Err(DateTimeError::UnresolvedZonedTime { zone, date, time }) => {
            assert_eq!(zone, "America/Chicago");
            assert_eq!(date, "2026-03-08");
            assert_eq!(time, "02:30:00");
        }
        _ => panic!("expected UnresolvedZonedTime"),
    }
    match pick_started(vec![], &date, &time, None) {
        Err(e) => assert_eq!(e.message(), "Could not resolve local time for started timestamp: 2026-03-08 02:30:00"),
        Ok(_) => panic!("expected an error"),
    }
}

#[test]
fn a_written_date_reads_back() {
    for text in ["0001-01-01", "1970-01-01", "2024-02-29", "9999-12-31"] {
        let d = parse_date(text).ok().unwrap();
        assert_eq!(d.to_iso_string(), text);
        assert_eq!(parse_date(&d.to_iso_string()).ok().unwrap().day_number(), d.day_number());
    }
}

#[test]
fn date_specific_timestamp_agrees_with_the_general_one() {
    let d = parse_date("2026-04-21").ok().unwrap();
    let a = build_worklog_started_for_date(&d, Some("10:05"), Some("Asia/Jakarta")).ok().unwrap();
    let b = build_worklog_started(Some(&d.to_iso_string()), Some("10:05"), Some("Asia/Jakarta")).ok().unwrap().unwrap();
    assert_eq!(a, b);
}

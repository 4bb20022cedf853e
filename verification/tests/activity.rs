use jira_commands::activity::{
    check_comment, comment_source, handle, needs_timezone, range_days_to_log, range_failure,
    range_report, watcher_lines, CommentSource, Watcher, WorklogCommand, WorklogStep,
};

#[test]
fn worklog_add_uses_a_range_only_with_both_ends() {
    let add = |from: Option<&str>, to: Option<&str>| WorklogCommand::Add {
        time: "1h".to_string(),
        comment: None,
        date: None,
        start: None,
        from: from.map(String::from),
        to: to.map(String::from),
        exclude_weekends: true,
    };
    match handle(add(Some("2026-04-20"), Some("2026-04-24"))) {
        WorklogStep::Add(o) => {
            let r = o.range.as_ref().unwrap();
            assert_eq!(r.from, "2026-04-20");
            assert!(r.exclude_weekends);
            assert!(needs_timezone(&o));
        }
        _ => panic!("expected an add"),
    }
    match handle(add(Some("2026-04-20"), None)) {
        WorklogStep::Add(o) => {
            assert!(o.range.is_none());
            assert!(!needs_timezone(&o));
        }
        _ => panic!("expected an add"),
    }
    assert!(matches!(handle(WorklogCommand::List), WorklogStep::List));
}

#[test]
fn worklog_ranges_and_reports() {
    assert_eq!(range_days_to_log("2026-04-21", "2026-04-23", false).ok().unwrap().len(), 3);
    assert_eq!(
        range_days_to_log("2026-04-25", "2026-04-26", true).err().unwrap(),
        "No worklog dates remain in range 2026-04-25..2026-04-26 after applying weekend filtering."
    );
    assert_eq!(
        range_days_to_log("2026-04-27", "2026-04-24", false).err().unwrap(),
        "Invalid range: end date '2026-04-24' is before start date '2026-04-27'"
    );
    let created = vec![
        ("2026-04-21".to_string(), "101".to_string()),
        ("2026-04-22".to_string(), "102".to_string()),
    ];
    assert_eq!(
        range_failure("P-1", "2026-04-23", "HTTP 500", &created),
        "Failed to add worklog for P-1 on 2026-04-23: HTTP 500. Partial success: 2026-04-21 -> 101, 2026-04-22 -> 102."
    );
    assert_eq!(
        range_failure("P-1", "2026-04-21", "HTTP 500", &vec![]),
        "Failed to add worklog for P-1 on 2026-04-21: HTTP 500."
    );
    assert_eq!(
        range_report("2h", "P-1", &created, true),
        vec![
            "✓ Logged 2h on P-1 across 2 day(s) (excluding weekends)",
            "  - 2026-04-21 -> worklog id 101",
            "  - 2026-04-22 -> worklog id 102",
        ]
    );
}

#[test]
fn comments_need_exactly_one_non_empty_source() {
    assert!(matches!(comment_source(Some("hi".to_string()), None), Ok(CommentSource::Text(t)) if t == "hi"));
    assert!(matches!(comment_source(None, Some("c.md".to_string())), Ok(CommentSource::File(p)) if p == "c.md"));
    let refusal = "Provide exactly one of --body or --file with non-empty content";
    assert_eq!(comment_source(Some("  ".to_string()), None).err().unwrap(), refusal);
    assert_eq!(comment_source(None, None).err().unwrap(), refusal);
    assert_eq!(comment_source(Some("a".to_string()), Some("b".to_string())).err().unwrap(), refusal);
    assert_eq!(check_comment("\n \t".to_string()).err().unwrap(), "Comment cannot be empty");
    assert_eq!(check_comment(" ok ".to_string()).ok().unwrap(), " ok ");
}

#[test]
fn watcher_listing() {
    assert_eq!(watcher_lines("P-1", &vec![], 0, false), vec!["No watchers on P-1."]);
    let ws = vec![
        Watcher { display_name: "Amy".to_string(), account_id: "a1".to_string(), active: true },
        Watcher { display_name: "Bob".to_string(), account_id: "b2".to_string(), active: false },
    ];
    assert_eq!(
        watcher_lines("P-1", &ws, 2, true),
        vec![
            "Watchers on P-1 (2 total):",
            "  - Amy (a1) [active]",
            "  - Bob (b2) [inactive]",
            "",
            "You are currently watching this issue.",
        ]
    );
}

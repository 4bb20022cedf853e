use jira_commands::issue_input::select_options;
use jira_commands::model::{Issue, JsonValue};
use jira_commands::summaries::{
    assignee_counts, format_issue_line, issue_is_blocked, issue_status_category,
    parse_relative_window, search_limit, sprint_counts, sprint_lines, sprint_plan,
    standup_lines, standup_query, standup_section, standup_sections, status_groups,
    window_from_text, RelativeWindow, StandupSection, WindowUnit,
};

fn s(x: &str) -> JsonValue {
    JsonValue::Str(x.to_string())
}

fn obj(entries: Vec<(&str, JsonValue)>) -> JsonValue {
    JsonValue::Object(entries.into_iter().map(|(k, v)| (k.to_string(), v)).collect())
}

fn issue(key: &str, status: &str, category: &str, assignee: Option<&str>, updated: &str) -> Issue {
    Issue {
        id: key.to_string(),
        key: key.to_string(),
        summary: format!("Summary {key}"),
        description: None,
        status: status.to_string(),
        assignee: assignee.map(String::from),
        reporter: None,
        priority: None,
        issue_type: "Task".to_string(),
        project_key: "P".to_string(),
        created: String::new(),
        updated: updated.to_string(),
        fields: obj(vec![("status", obj(vec![("statusCategory", obj(vec![("name", s(category))]))]))]),
    }
}

#[test]
fn category_and_blocked_status_are_read() {
    let i = issue("P-1", "On Hold", "In Progress", None, "");
    assert_eq!(issue_status_category(&i), "in progress");
    assert!(issue_is_blocked(&i));
    let mut j = issue("P-2", "Done", "Done", None, "");
    j.fields = obj(vec![]);
    assert_eq!(issue_status_category(&j), "");
    assert!(!issue_is_blocked(&j));
    assert!(issue_is_blocked(&issue("P-3", "BLOCKED by infra", "new", None, "")));
}

#[test]
fn standup_queries_and_limits() {
    assert_eq!(standup_query(Some("key = P-1".to_string()), Some("P".to_string())), "key = P-1");
    assert_eq!(
        standup_query(None, Some("P".to_string())),
        "project = P AND assignee = currentUser() ORDER BY updated DESC"
    );
    assert_eq!(standup_query(None, None), "assignee = currentUser() ORDER BY updated DESC");
    assert_eq!(search_limit(250), 100);
    assert_eq!(search_limit(50), 50);
}

#[test]
fn relative_windows_are_parsed() {
    assert_eq!(
        parse_relative_window(" 2D "),
        Some(Ok(RelativeWindow { amount: 2, unit: WindowUnit::Days }))
    );
    assert_eq!(
        parse_relative_window("36h"),
        Some(Ok(RelativeWindow { amount: 36, unit: WindowUnit::Hours }))
    );
    assert_eq!(
        parse_relative_window("-1w"),
        Some(Ok(RelativeWindow { amount: -1, unit: WindowUnit::Weeks }))
    );
    let bad = |raw: &str| Some(Err(format!("Invalid relative window '{raw}'. Use values like 2d, 36h, or 1w.")));
    assert_eq!(parse_relative_window("d"), bad("d"));
    assert_eq!(parse_relative_window("2m"), bad("2m"));
    assert_eq!(parse_relative_window("xd"), bad("xd"));
    assert_eq!(parse_relative_window("+-2d"), bad("+-2d"));
    assert_eq!(parse_relative_window("2é"), None);
    assert_eq!(parse_relative_window("99999999999999w"), None);
    assert_eq!(RelativeWindow { amount: 2, unit: WindowUnit::Days }.seconds(), 172800);
    assert_eq!(window_from_text("3w", "3W").ok().unwrap().seconds(), 1814400);
}

#[test]
fn standup_sorts_issues_into_sections() {
    let cutoff = (1_700_000_000, 0);
    assert_eq!(
        standup_section(&issue("A", "Done", "Done", None, "2023-11-20T00:00:00Z"), cutoff),
        StandupSection::RecentlyDone
    );
    assert_eq!(
        standup_section(&issue("B", "Done", "Done", None, "2023-11-01T00:00:00Z"), cutoff),
        StandupSection::Other
    );
    let s = standup_sections(
        vec![
            issue("A", "Done", "Done", None, "2023-11-20T00:00:00Z"),
            issue("B", "In Progress", "In Progress", None, ""),
            issue("C", "Working", "Indeterminate", None, ""),
            issue("D", "To Do", "New", None, ""),
            issue("E", "Stuck", "Indeterminate", None, ""),
            issue("F", "Done", "Done", None, "not a date"),
        ],
        cutoff,
    );
    let keys = |v: &Vec<Issue>| v.iter().map(|i| i.key.clone()).collect::<Vec<_>>();
    assert_eq!(keys(&s.recently_done), vec!["A"]);
    assert_eq!(keys(&s.in_progress), vec!["C"]);
    assert_eq!(keys(&s.next_up), vec!["D"]);
    assert_eq!(keys(&s.blocked), vec!["E"]);
    assert_eq!(keys(&s.other), vec!["B", "F"]);
    let lines = standup_lines("q", "2d", &s);
    assert_eq!(lines[0], "# Daily standup");
    assert_eq!(lines[2], "Source: `q`");
    assert_eq!(lines[3], "Recently done window: 2d");
    assert_eq!(lines[5], "## Recently done (1)");
    assert_eq!(lines[6], "- A [Done] Summary A");
    assert_eq!(lines.len(), 5 + 3 + 3 + 3 + 3 + 4);
    let empty = standup_sections(vec![], cutoff);
    assert_eq!(
        standup_lines("q", "1w", &empty),
        vec!["# Daily standup", "", "Source: `q`", "Recently done window: 1w", "", "No issues matched the standup query."]
    );
    assert_eq!(format_issue_line(&issue("K-1", "Open", "new", None, "")), "- K-1 [Open] Summary K-1");
}

#[test]
fn sprint_plan_selects_the_sprint() {
    assert_eq!(
        sprint_plan(None, None).err().unwrap(),
        "Project is required. Pass --project or configure a default project."
    );
    let p = sprint_plan(Some("P".to_string()), Some(" 42 ".to_string())).ok().unwrap();
    assert_eq!(p.label, " 42 ");
    assert_eq!(p.query, "project = P AND sprint = 42 ORDER BY status ASC, updated DESC");
    let q = sprint_plan(Some("P".to_string()), Some(" Sprint \"7\" ".to_string())).ok().unwrap();
    assert_eq!(q.query, "project = P AND sprint = \"Sprint \\\"7\\\"\" ORDER BY status ASC, updated DESC");
    let r = sprint_plan(Some("P".to_string()), None).ok().unwrap();
    assert_eq!(r.label, "openSprints()");
    assert_eq!(r.query, "project = P AND sprint in openSprints() ORDER BY status ASC, updated DESC");
}

#[test]
fn sprint_summary_counts_groups_and_reports() {
    let issues = vec![
        issue("P-1", "To Do", "New", Some("bob"), ""),
        issue("P-2", "Done", "Done", Some("amy"), ""),
        issue("P-3", "In Progress", "Indeterminate", None, ""),
        issue("P-4", "To Do", "New", Some("amy"), ""),
        issue("P-5", "Blocked", "Indeterminate", Some("bob"), ""),
        issue("P-6", "Done", "Done", Some("cat"), ""),
    ];
    let counts = sprint_counts(&issues);
    assert_eq!((counts.total, counts.done, counts.in_progress, counts.todo, counts.blocked), (6, 2, 2, 2, 1));
    let rows = assignee_counts(&issues);
    let table: Vec<(String, u64)> = rows.iter().map(|r| (r.name.clone(), r.count)).collect();
    assert_eq!(
        table,
        vec![
            ("amy".to_string(), 2),
            ("bob".to_string(), 2),
            ("Unassigned".to_string(), 1),
            ("cat".to_string(), 1),
        ]
    );
    let groups = status_groups(issues);
    let shape: Vec<(String, Vec<String>)> = groups
        .iter()
        .map(|g| (g.status.clone(), g.issues.iter().map(|i| i.key.clone()).collect()))
        .collect();
    assert_eq!(
        shape,
        vec![
            ("Blocked".to_string(), vec!["P-5".to_string()]),
            ("Done".to_string(), vec!["P-2".to_string(), "P-6".to_string()]),
            ("In Progress".to_string(), vec!["P-3".to_string()]),
            ("To Do".to_string(), vec!["P-1".to_string(), "P-4".to_string()]),
        ]
    );
    let plan = sprint_plan(Some("P".to_string()), None).ok().unwrap();
    let lines = sprint_lines(&plan, &counts, &rows, &groups);
    assert_eq!(lines[0], "# Sprint summary — P");
    assert_eq!(lines[2], "Sprint: openSprints()");
    assert_eq!(lines[5], "- total issues: 6");
    assert_eq!(lines[9], "- blocked: 1");
    assert_eq!(lines[11], "## By assignee");
    assert_eq!(lines[12], "- amy: 2");
    assert_eq!(lines[17], "## Blocked (1)");
    assert_eq!(lines[18], "- P-5 [Blocked] Summary P-5");
    assert_eq!(lines.last().unwrap(), "");

    let none = sprint_counts(&vec![]);
    let no_lines = sprint_lines(&plan, &none, &assignee_counts(&vec![]), &status_groups(vec![]));
    assert_eq!(no_lines.len(), 12);
    assert_eq!(no_lines[11], "No issues matched the sprint query.");
}

#[test]
fn select_options_take_value_then_name() {
    let allowed = vec![
        obj(vec![("value", s("High")), ("name", s("ignored"))]),
        obj(vec![("name", s("Low"))]),
        obj(vec![("value", JsonValue::Number("3".to_string())), ("name", s("Three"))]),
        obj(vec![("id", s("9"))]),
    ];
    assert_eq!(select_options(Some(&allowed)), vec!["High", "Low"]);
    assert_eq!(select_options(None), Vec::<String>::new());
}

use jira_commands::bulk_ops::{
    bulk_change_lines, bulk_transition_question, bulk_update_question, check_bulk_update, failure_entry,
    option_id, pick_transition, transition_options, BulkChange,
};
use jira_commands::clone::{clone_message, clone_request, delete_original_question};
use jira_commands::issue_views::{
    issue_detail_head, issue_detail_tail, issue_row, issue_table, lines_of, list_query, AttachmentInfo,
};
use jira_commands::manifest::TransitionChoice;
use jira_commands::model::{Issue, JsonValue};

fn issue(key: &str, issue_type: &str, status: &str, summary: &str) -> Issue {
    Issue {
        id: "10001".to_string(),
        key: key.to_string(),
        summary: summary.to_string(),
        description: None,
        status: status.to_string(),
        assignee: Some("Alice".to_string()),
        reporter: None,
        priority: Some("High".to_string()),
        issue_type: issue_type.to_string(),
        project_key: "PROJ".to_string(),
        created: "2024-03-01T10:00:00.000+0000".to_string(),
        updated: "2024-03-02T11:30:00.000+0000".to_string(),
        fields: JsonValue::Null,
    }
}

fn named(name: &str) -> JsonValue {
    JsonValue::Object(vec![("name".to_string(), JsonValue::Str(name.to_string()))])
}

fn choice(id: &str, name: &str) -> TransitionChoice {
    TransitionChoice { id: id.to_string(), name: name.to_string() }
}

#[test]
fn list_query_prefers_given_jql() {
    assert_eq!(list_query(Some("PROJ"), Some("status = Done".to_string())), "status = Done");
    assert_eq!(list_query(Some("PROJ"), None), "project = PROJ ORDER BY updated DESC");
    assert_eq!(list_query(None, None), "assignee = currentUser() ORDER BY updated DESC");
}

#[test]
fn issue_row_pads_and_truncates() {
    let i = issue("PROJ-1", "Task", "To Do", "Fix it");
    assert_eq!(issue_row(&i), "PROJ-1       Task     To Do                Fix it");
    let long = issue("PROJ-2", "Improvement", "In Progress", &"x".repeat(40));
    let row = issue_row(&long);
    assert_eq!(row, format!("PROJ-2       Improv…  In Progress          {}…", "x".repeat(37)));
}

#[test]
fn issue_table_empty_and_total() {
    assert_eq!(issue_table(&vec![], Some(3)), vec!["No issues found.".to_string()]);
    let t = issue_table(&vec![issue("PROJ-1", "Task", "To Do", "Fix it")], Some(7));
    assert_eq!(t.len(), 5);
    assert_eq!(t[0], format!("{:<12} {:<8} {:<20} {:<40}", "KEY", "TYPE", "STATUS", "SUMMARY"));
    assert_eq!(t[1], "─".repeat(82));
    assert_eq!(t[3], "");
    assert_eq!(t[4], "Showing 1 of 7 issues");
    let no_total = issue_table(&vec![issue("PROJ-1", "Task", "To Do", "Fix it")], None);
    assert_eq!(no_total.len(), 3);
}

#[test]
fn detail_head_lists_fields() {
    let i = issue("PROJ-1", "Task", "To Do", "Fix it");
    let head = issue_detail_head(&i, &vec!["1.0".to_string(), "1.1".to_string()]);
    assert_eq!(head[1], "  PROJ-1 — Fix it");
    assert_eq!(head[4], "  Type:       Task");
    assert!(head.contains(&"  Priority:   High".to_string()));
    assert!(head.contains(&"  Assignee:   Alice".to_string()));
    assert!(!head.iter().any(|l| l.starts_with("  Reporter:")));
    assert!(head.contains(&"  Created:    2024-03-01".to_string()));
    assert!(head.contains(&"  Updated:    2024-03-02".to_string()));
    assert_eq!(head.last().unwrap(), "  Fix Versions: 1.0, 1.1");
}

#[test]
fn detail_tail_attachments_and_description() {
    let atts = vec![AttachmentInfo { filename: "a.png".into(), mime_type: "image/png".into(), size: 1024 }];
    let tail = issue_detail_tail(&atts, "line one\r\nline two\n");
    assert_eq!(
        tail,
        vec![
            "".to_string(),
            "  Attachments (1):".to_string(),
            "    • a.png (image/png, 1024 bytes)".to_string(),
            "".to_string(),
            "  Description:".to_string(),
            "  ───────────────────────────────────────".to_string(),
            "  line one".to_string(),
            "  line two".to_string(),
        ]
    );
    assert!(issue_detail_tail(&vec![], "").is_empty());
}

#[test]
fn lines_of_matches_str_lines() {
    for t in ["", "a", "a\n", "a\r\nb", "\n\nx\n", "x\r"] {
        let want: Vec<String> = t.lines().map(|l| l.to_string()).collect();
        assert_eq!(lines_of(t), want, "{t:?}");
    }
}

#[test]
fn clone_request_copies_source() {
    let mut src = issue("PROJ-1", "Bug", "To Do", "Crash");
    src.fields = JsonValue::Object(vec![
        ("labels".to_string(), JsonValue::Array(vec![JsonValue::Str("ui".into())])),
        ("components".to_string(), JsonValue::Array(vec![named("Core")])),
        ("fixVersions".to_string(), JsonValue::Array(vec![named("2.0")])),
    ]);
    let r = clone_request(&src, Some("OTHER".into()), None, Some("bob".into()));
    assert_eq!(r.project_key, "OTHER");
    assert_eq!(r.summary, "Crash");
    assert_eq!(r.issue_type, "Bug");
    assert_eq!(r.assignee, Some("bob".to_string()));
    assert_eq!(r.priority, Some("High".to_string()));
    assert_eq!(r.labels, vec!["ui".to_string()]);
    assert_eq!(r.components, vec!["Core".to_string()]);
    assert_eq!(r.fix_versions, vec!["2.0".to_string()]);
    let same = clone_request(&issue("PROJ-2", "Task", "Done", "Other"), None, Some("New".into()), None);
    assert_eq!(same.project_key, "PROJ");
    assert_eq!(same.summary, "New");
    assert!(same.labels.is_empty());
}

#[test]
fn clone_messages() {
    assert_eq!(delete_original_question("PROJ-1", "NEW-2"), "Delete original PROJ-1 after cloning to NEW-2?");
    assert_eq!(clone_message("PROJ-1", "NEW-2", "Crash", true), "✓ Moved: PROJ-1 → NEW-2");
    assert_eq!(clone_message("PROJ-1", "NEW-2", "Crash", false), "✓ Cloned: PROJ-1 → NEW-2 — Crash");
}

#[test]
fn pick_transition_by_id_or_exact_name() {
    let ts = vec![choice("11", "To Do"), choice("21", "In Progress")];
    assert_eq!(pick_transition(&ts, "21"), Ok("21".to_string()));
    assert_eq!(pick_transition(&ts, "To Do"), Ok("11".to_string()));
    assert_eq!(pick_transition(&ts, "to do"), Err("Transition 'to do' not found".to_string()));
}

#[test]
fn transition_menu_round_trip() {
    let ts = vec![choice("11", "To Do"), choice("31", "Done [final]")];
    let opts = transition_options(&ts);
    assert_eq!(opts, vec!["To Do [11]".to_string(), "Done [final] [31]".to_string()]);
    assert_eq!(option_id(&opts[0]), "11");
    assert_eq!(option_id(&opts[1]), "31");
    assert_eq!(option_id("no brackets"), "no brackets");
    assert_eq!(option_id("x [7]]]"), "7");
}

#[test]
fn bulk_reports() {
    let failed = vec![failure_entry("PROJ-2", "forbidden")];
    assert_eq!(failed[0], "PROJ-2: forbidden");
    assert_eq!(
        bulk_change_lines(&BulkChange::Transitioned { to: "Done".into() }, 1, 2, &failed),
        vec![
            "✓ Transitioned 1/2 issues to 'Done'".to_string(),
            "✗ Failed (1):".to_string(),
            "  PROJ-2: forbidden".to_string(),
        ]
    );
    assert_eq!(bulk_change_lines(&BulkChange::Updated, 3, 3, &vec![]), vec!["✓ Updated 3/3 issues".to_string()]);
    assert_eq!(bulk_transition_question(3, "Done"), "Transition all 3 issues to 'Done'?");
    assert_eq!(bulk_update_question(4), "Update 4 issues?");
}

#[test]
fn bulk_update_needs_a_field() {
    assert_eq!(check_bulk_update(&None, &None), Err("Nothing to update. Use --assignee or --priority.".to_string()));
    assert_eq!(check_bulk_update(&Some("me".into()), &None), Ok(()));
    assert_eq!(check_bulk_update(&None, &Some("High".into())), Ok(()));
}

use jira_commands::model::{Issue, JsonValue};
use jira_commands::notifications::{
    build_notifications_jql, mark_read_entries, notification_entry_id, notification_excerpt,
    notification_issue_jql, notification_issues, parse_jira_datetime, sort_entries_newest_first, NotificationEntry,
};

fn issue(key: &str, summary: &str) -> Issue {
    Issue {
        id: format!("id-{key}"),
        key: key.to_string(),
        summary: summary.to_string(),
        description: None,
        status: "To Do".to_string(),
        assignee: None,
        reporter: None,
        priority: None,
        issue_type: "Task".to_string(),
        project_key: "TEST".to_string(),
        created: "2023-01-01T00:00:00Z".to_string(),
        updated: "2023-01-01T00:00:00Z".to_string(),
        fields: JsonValue::Object(vec![]),
    }
}

fn entry(id: &str, key: &str, summary: &str, created: &str, read: bool) -> NotificationEntry {
    NotificationEntry {
        id: id.into(),
        issue: issue(key, summary),
        source: "comment-mention".into(),
        author: None,
        created: created.into(),
        excerpt: "x".into(),
        url: format!("https://example/browse/{key}"),
        read,
    }
}

#[test]
fn notification_issues_groups_and_marks_read_state() {
    let issues = notification_issues(&[
        NotificationEntry {
            id: "1".into(),
            issue: issue("TEST-1", "Alpha"),
            source: "comment-mention".into(),
            author: Some("A".into()),
            created: "2024-01-02T00:00:00Z".into(),
            excerpt: "x".into(),
            url: "https://example/browse/TEST-1".into(),
            read: false,
        },
        NotificationEntry {
            id: "2".into(),
            issue: issue("TEST-1", "Alpha"),
            source: "description-mention".into(),
            author: Some("B".into()),
            created: "2024-01-01T00:00:00Z".into(),
            excerpt: "y".into(),
            url: "https://example/browse/TEST-1".into(),
            read: true,
        },
        NotificationEntry {
            id: "3".into(),
            issue: issue("TEST-2", "Beta"),
            source: "comment-mention".into(),
            author: Some("C".into()),
            created: "2024-01-03T00:00:00Z".into(),
            excerpt: "z".into(),
            url: "https://example/browse/TEST-2".into(),
            read: true,
        },
    ]);

    assert_eq!(issues.len(), 2);
    assert_eq!(issues[0].key, "TEST-2");
    assert_eq!(issues[0].summary, "[read] Beta");
    assert_eq!(issues[1].summary, "[1 unread/2 mentions] Alpha");
}

#[test]
fn notification_entry_id_is_stable_for_same_source() {
    assert_eq!(
        notification_entry_id("TEST-1", "comment-mention", "2024-01-01T00:00:00Z"),
        "TEST-1|comment-mention|2024-01-01T00:00:00Z"
    );
}

#[test]
fn labels_single_and_all_unread_groups() {
    let issues = notification_issues(&[
        entry("1", "A-1", "One", "2024-01-01T00:00:00Z", false),
        entry("2", "A-2", "Two", "2024-01-05T00:00:00Z", false),
        entry("3", "A-2", "Two", "2024-01-04T00:00:00Z", false),
        entry("4", "A-3", "Three", "not a date", false),
    ]);
    assert_eq!(issues.len(), 3);
    assert_eq!(issues[0].key, "A-2");
    assert_eq!(issues[0].summary, "[2 mentions] Two");
    assert_eq!(issues[1].summary, "[mention] One");
    assert_eq!(issues[2].key, "A-3");
    assert!(notification_issues(&[]).is_empty());
}

#[test]
fn builds_notification_jql_with_and_without_project() {
    assert_eq!(
        build_notifications_jql(Some("PROJ"), " 7d "),
        "project = PROJ AND updated >= -7d ORDER BY updated DESC"
    );
    assert_eq!(
        build_notifications_jql(None, "2w"),
        "updated >= -2w ORDER BY updated DESC"
    );
}

#[test]
fn excerpt_collapses_whitespace() {
    assert_eq!(notification_excerpt("  hello \n\t world  "), "hello world");
    assert_eq!(notification_excerpt(" \n "), "(no preview)");
}

#[test]
fn issue_jql_lists_sorted_distinct_keys() {
    let entries = vec![
        entry("1", "B-2", "x", "2024-01-01T00:00:00Z", false),
        entry("2", "A-1", "x", "2024-01-01T00:00:00Z", false),
        entry("3", "B-2", "x", "2024-01-01T00:00:00Z", false),
    ];
    assert_eq!(
        notification_issue_jql(&entries, "fallback"),
        "key in (A-1, B-2) ORDER BY updated DESC"
    );
    assert_eq!(notification_issue_jql(&[], "fallback"), "fallback");
}

#[test]
fn marking_read_records_ids_once() {
    let mut entries = vec![
        entry("k1", "A-1", "x", "2024-01-01T00:00:00Z", false),
        entry("k2", "A-2", "x", "2024-01-01T00:00:00Z", false),
        entry("k3", "A-1", "x", "2024-01-01T00:00:00Z", true),
        entry("known", "A-1", "x", "2024-01-01T00:00:00Z", false),
    ];
    let mut ids = vec!["known".to_string()];
    let changed = mark_read_entries(&mut entries, "A-1", &mut ids);
    assert_eq!(changed, 1);
    assert!(entries[0].read);
    assert!(!entries[1].read);
    assert!(!entries[3].read);
    assert_eq!(ids, vec!["known".to_string(), "k1".to_string()]);
    assert_eq!(mark_read_entries(&mut entries, "A-1", &mut ids), 0);
}

#[test]
fn parses_rfc3339_to_utc() {
    assert_eq!(parse_jira_datetime("1970-01-01T00:00:01Z"), Some((1, 0)));
    assert_eq!(
        parse_jira_datetime("1970-01-01T01:00:00+01:00"),
        Some((0, 0))
    );
    assert_eq!(parse_jira_datetime("2024-01-01"), None);
}

#[test]
fn entries_sort_newest_first_stably() {
    let es = vec![
        entry("a", "P-1", "x", "2024-01-01T00:00:00Z", false),
        entry("b", "P-2", "x", "not a date", false),
        entry("c", "P-3", "x", "2024-03-01T00:00:00Z", false),
        entry("d", "P-4", "x", "2024-01-01T00:00:00Z", true),
    ];
    let ids: Vec<String> = sort_entries_newest_first(es).into_iter().map(|e| e.id).collect();
    assert_eq!(ids, vec!["c", "a", "d", "b"]);
}

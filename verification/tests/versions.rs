use jira_commands::model::{Issue, JsonValue, ProjectVersion};
use jira_commands::versions::{
    backlog_preview_lines, extract_fix_versions, issue_project_key, preview_targets,
    sort_project_versions, version_backlog_jql, version_sort_key, version_status_badges,
    VersionBacklogPreview,
};

fn s(x: &str) -> JsonValue {
    JsonValue::Str(x.to_string())
}

fn obj(entries: Vec<(&str, JsonValue)>) -> JsonValue {
    JsonValue::Object(entries.into_iter().map(|(k, v)| (k.to_string(), v)).collect())
}

fn version(name: &str, archived: bool, released: bool, release: Option<&str>, start: Option<&str>) -> ProjectVersion {
    ProjectVersion {
        id: format!("id-{name}"),
        name: name.to_string(),
        description: None,
        archived,
        released,
        release_date: release.map(String::from),
        start_date: start.map(String::from),
    }
}

fn issue(key: &str, status: &str, summary: &str) -> Issue {
    Issue {
        id: "1".to_string(),
        key: key.to_string(),
        summary: summary.to_string(),
        description: None,
        status: status.to_string(),
        assignee: None,
        reporter: None,
        priority: None,
        issue_type: "Task".to_string(),
        project_key: "PROJ".to_string(),
        created: String::new(),
        updated: String::new(),
        fields: JsonValue::Object(vec![]),
    }
}

#[test]
fn fix_versions_are_read_from_fields() {
    let fields = obj(vec![(
        "fixVersions",
        JsonValue::Array(vec![
            obj(vec![("name", s(" 1.0 "))]),
            obj(vec![("id", s("3"))]),
            obj(vec![("name", s("   "))]),
            obj(vec![("name", JsonValue::Bool(true))]),
            obj(vec![("name", s("2.0"))]),
        ]),
    )]);
    assert_eq!(extract_fix_versions(&fields), vec!["1.0", "2.0"]);
    assert_eq!(extract_fix_versions(&obj(vec![])), Vec::<String>::new());
    assert_eq!(extract_fix_versions(&obj(vec![("fixVersions", s("1.0"))])), Vec::<String>::new());
}

#[test]
fn versions_sort_unreleased_then_released_then_archived() {
    let mut vs = vec![
        version("Old", true, true, Some("2020-01-01"), None),
        version("beta", false, true, Some("2024-02-01"), None),
        version("Next", false, false, None, Some("2025-03-01")),
        version("Alpha", false, true, Some("2024-02-01"), None),
        version("Soon", false, false, Some("2025-01-01"), None),
        version("alpha", false, true, Some("2024-02-01"), None),
    ];
    sort_project_versions(&mut vs);
    let names: Vec<&str> = vs.iter().map(|v| v.name.as_str()).collect();
    assert_eq!(names, vec!["Soon", "Next", "Alpha", "alpha", "beta", "Old"]);
    let key = version_sort_key(&version("Mixed", false, false, None, Some("2025-03-01")));
    assert_eq!(key, (0, "2025-03-01".to_string(), "mixed".to_string()));
}

#[test]
fn badges_show_state_and_short_release_date() {
    assert_eq!(version_status_badges(&version("a", true, true, None, None)), "archived");
    assert_eq!(
        version_status_badges(&version("a", false, true, Some("2024-02-01T10:00:00Z"), None)),
        "released • release 2024-02-01"
    );
    assert_eq!(
        version_status_badges(&version("a", false, false, Some("2024"), None)),
        "unreleased • release 2024"
    );
}

#[test]
fn backlog_preview_lists_issues_and_the_rest() {
    let preview = VersionBacklogPreview::from_search(
        version("1.2", false, false, None, None),
        Some(5),
        vec![issue("P-1", "To Do", "One"), issue("P-2", "In Progress", "Two"), issue("P-3", "To Do", "Three")],
    );
    assert_eq!(
        backlog_preview_lines(&preview, 2),
        vec!["1.2 — 5 open issue(s)", "  - P-1 [To Do] One", "  - P-2 [In Progress] Two", "  … 2 more"]
    );
    let empty = VersionBacklogPreview::from_search(version("2.0", false, false, None, None), None, vec![]);
    assert_eq!(empty.total_open, 0);
    assert_eq!(backlog_preview_lines(&empty, 5), vec!["2.0 — 0 open issue(s)", "  ✓ No open backlog items"]);
    let counted = VersionBacklogPreview::from_search(version("3.0", false, false, None, None), None, vec![issue("P-9", "To Do", "Nine")]);
    assert_eq!(counted.total_open, 1);
    assert_eq!(backlog_preview_lines(&counted, 10), vec!["3.0 — 1 open issue(s)", "  - P-9 [To Do] Nine"]);
}

#[test]
fn backlog_query_and_issue_project() {
    assert_eq!(
        version_backlog_jql("PROJ", "v\"1\""),
        "project = \"PROJ\" AND fixVersion = \"v\\\"1\\\"\" AND statusCategory != Done ORDER BY updated DESC"
    );
    assert_eq!(issue_project_key("ABC-12", "ZZZ"), "ABC");
    assert_eq!(issue_project_key("MY-PROJ-3", "ZZZ"), "MY");
    assert_eq!(issue_project_key("nodash", "ZZZ"), "ZZZ");
}

#[test]
fn previews_follow_fix_versions_that_exist() {
    let project = vec![
        version("1.0", false, false, None, None),
        version("2.0", false, false, None, None),
        version("1.0", true, false, None, None),
    ];
    let fix = vec!["2.0".to_string(), "3.0".to_string(), "1.0".to_string()];
    assert_eq!(preview_targets(&fix, &project), vec![1, 0]);
}

use jira_commands::columns::{
    cell_text, default_column_ids, format_column_summary, json_scalar, json_to_display,
    join_named_array, join_string_array, short_date, status_color, ColumnSpec, StatusColor, Width,
};
use jira_commands::model::{Issue, JsonValue};
use jira_commands::tui_prefs::{
    legacy_to_id, DetailTab, SavedJql, ThemeColor, ThemeName, TuiPreferences,
};

fn s(x: &str) -> JsonValue {
    JsonValue::Str(x.to_string())
}

fn obj(entries: Vec<(&str, JsonValue)>) -> JsonValue {
    JsonValue::Object(entries.into_iter().map(|(k, v)| (k.to_string(), v)).collect())
}

fn issue(fields: JsonValue) -> Issue {
    Issue {
        id: "1".to_string(),
        key: "P-1".to_string(),
        summary: "Sum".to_string(),
        description: None,
        status: "In Review".to_string(),
        assignee: Some("amy".to_string()),
        reporter: None,
        priority: None,
        issue_type: "Bug".to_string(),
        project_key: "P".to_string(),
        created: "2024-01-02T03:04:05.000+0000".to_string(),
        updated: "2024".to_string(),
        fields,
    }
}

#[test]
fn builtin_and_field_columns() {
    let ids = default_column_ids();
    assert_eq!(ids.len(), 13);
    assert_eq!(ids[0], "key");
    assert_eq!(ids[12], "summary");
    let c = ColumnSpec::for_id("fixVersions");
    assert_eq!(c.label, "Fix Versions");
    assert_eq!(c.width, Width::Min(14));
    let d = ColumnSpec::for_id("customfield_1");
    assert_eq!(d.label, "customfield_1");
    assert_eq!(d.width, Width::Min(14));
    let e = ColumnSpec::from_field("customfield_2", "Story Points");
    assert_eq!(e.label, "Story Points");
    assert_eq!(ColumnSpec::from_field("status", "Whatever").label, "Status");
    assert_eq!(ColumnSpec::for_id("key").width, Width::Length(12));
    assert_eq!(format_column_summary(&vec![ColumnSpec::for_id("key"), ColumnSpec::for_id("summary")]), "Key, Summary");
}

#[test]
fn statuses_are_coloured() {
    assert_eq!(status_color("Done"), StatusColor::Green);
    assert_eq!(status_color("RESOLVED"), StatusColor::Green);
    assert_eq!(status_color("In Progress"), StatusColor::Yellow);
    assert_eq!(status_color("Blocked"), StatusColor::Red);
    assert_eq!(status_color("To Do"), StatusColor::White);
}

#[test]
fn json_values_are_displayed() {
    assert_eq!(json_to_display(None), "-");
    assert_eq!(json_to_display(Some(&JsonValue::Null)), "-");
    assert_eq!(json_to_display(Some(&s(""))), "-");
    assert_eq!(json_to_display(Some(&JsonValue::Bool(true))), "true");
    assert_eq!(json_to_display(Some(&JsonValue::Number("3.5".to_string()))), "3.5");
    assert_eq!(
        json_to_display(Some(&JsonValue::Array(vec![s("a"), JsonValue::Number("2".to_string()), obj(vec![("name", s("n"))])]))),
        "a, 2, n"
    );
    assert_eq!(json_to_display(Some(&JsonValue::Array(vec![JsonValue::Null]))), "-");
    assert_eq!(
        json_to_display(Some(&obj(vec![("displayName", s("")), ("key", s("K")), ("name", s("N"))]))),
        "N"
    );
    assert_eq!(json_to_display(Some(&obj(vec![("id", s("1"))]))), "-");
    assert_eq!(json_scalar(&JsonValue::Null), "");
    assert_eq!(json_scalar(&JsonValue::Bool(false)), "false");
}

#[test]
fn cells_show_issue_values() {
    let i = issue(obj(vec![
        ("labels", JsonValue::Array(vec![s("x"), JsonValue::Null, s("y")])),
        ("components", JsonValue::Array(vec![obj(vec![("name", s("api"))]), obj(vec![("id", s("2"))])])),
        ("fixVersions", JsonValue::Array(vec![])),
        ("customfield_9", JsonValue::Number("8".to_string())),
    ]));
    assert_eq!(cell_text(&i, "key"), "P-1");
    assert_eq!(cell_text(&i, "priority"), "-");
    assert_eq!(cell_text(&i, "assignee"), "amy");
    assert_eq!(cell_text(&i, "created"), "2024-01-02");
    assert_eq!(cell_text(&i, "updated"), "2024");
    assert_eq!(cell_text(&i, "labels"), "x, y");
    assert_eq!(cell_text(&i, "components"), "api");
    assert_eq!(cell_text(&i, "fixVersions"), "-");
    assert_eq!(cell_text(&i, "customfield_9"), "8");
    assert_eq!(cell_text(&i, "customfield_0"), "-");
    assert_eq!(join_string_array(&i, "missing"), "-");
    assert_eq!(join_named_array(&i, "components"), "api");
    assert_eq!(short_date("2024-01-0é"), "2024-01-0é");
}

#[test]
fn themes_and_tabs() {
    assert_eq!(ThemeName::Nord.label(), "Nord");
    assert_eq!(ThemeName::all().len(), 6);
    assert_eq!(ThemeName::Solarized.position(), 3);
    assert_eq!(ThemeName::at(4), Some(ThemeName::Gruvbox));
    assert_eq!(ThemeName::at(5), Some(ThemeName::GithubLight));
    assert_eq!(ThemeName::at(6), None);
    assert!(ThemeName::all().iter().any(|t| t.label() == "GitHub Light"));
    assert_eq!(ThemeName::GithubLight.palette().accent, ThemeColor::Rgb(9, 105, 218));
    assert_eq!(ThemeName::default(), ThemeName::Default);
    assert_eq!(ThemeName::Default.palette().header_bg, ThemeColor::Blue);
    assert_eq!(ThemeName::Dracula.palette().accent, ThemeColor::Rgb(189, 147, 249));
    assert_eq!(DetailTab::Summary.next(), DetailTab::Versions);
    assert_eq!(DetailTab::Summary.next().label(), "Versions");
    assert_eq!(DetailTab::Versions.next(), DetailTab::Comments);
    assert_eq!(DetailTab::Links.next(), DetailTab::Summary);
    assert_eq!(DetailTab::Summary.prev(), DetailTab::Links);
    assert_eq!(DetailTab::Worklog.index(), 3);
    assert_eq!(DetailTab::all().len(), 7);
    assert_eq!(DetailTab::Attachments.label(), "Attachments");
    for t in DetailTab::all() {
        assert_eq!(t.next().prev(), t);
    }
}

#[test]
fn preferences_are_normalized() {
    let mut p = TuiPreferences {
        visible_columns: vec!["key".into(), " ".into(), "status".into(), "key".into()],
        saved_jqls: vec![
            SavedJql { name: "A".into(), jql: "x".into() },
            SavedJql { name: " ".into(), jql: "y".into() },
            SavedJql { name: "B".into(), jql: "".into() },
        ],
        theme: ThemeName::Nord,
    };
    p.normalize();
    assert_eq!(p.visible_columns, vec!["key", "status", "summary"]);
    assert_eq!(p.saved_jqls.len(), 1);
    assert_eq!(p.saved_jqls[0].name, "A");
    assert_eq!(p.theme, ThemeName::Nord);
    let mut q = TuiPreferences { visible_columns: vec![], saved_jqls: vec![], theme: ThemeName::Default };
    q.normalize();
    assert_eq!(q.visible_columns, default_column_ids());
    let before = p.visible_columns.clone();
    p.normalize();
    assert_eq!(p.visible_columns, before);
    let d = TuiPreferences::default();
    assert_eq!(d.saved_jqls.len(), 3);
    assert_eq!(d.saved_jqls[1].jql, "updated >= -7d ORDER BY updated DESC");
}

#[test]
fn legacy_column_names_are_read() {
    assert_eq!(legacy_to_id(s("FixVersions")), Some("fixVersions".to_string()));
    assert_eq!(legacy_to_id(s("Type")), Some("issuetype".to_string()));
    assert_eq!(legacy_to_id(s("customfield_1")), Some("customfield_1".to_string()));
    assert_eq!(legacy_to_id(JsonValue::Bool(true)), None);
}

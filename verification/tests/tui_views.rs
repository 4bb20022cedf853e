use jira_commands::startup::{check_client_config, issue_browse_url, no_command_message, opened_message};
use jira_commands::detail_tabs::{version_browser_title, version_list_items, version_pane_lines, Span, Tone};
use jira_commands::issue_links::{delete_link_question, deleted_link_message, link_type_table, linked_message, LinkType};
use jira_commands::model::{Issue, JsonValue, ProjectVersion};
use jira_commands::tui_app::App;
use jira_commands::tui_layout::{detail_tab_rects, Rect};
use jira_commands::tui_modal::PickerOption;
use jira_commands::tui_prefs::{DetailTab, SavedJql, ThemeName, TuiPreferences};
use jira_commands::versions::VersionBacklogPreview;

fn text(lines: &[Vec<Span>]) -> Vec<String> {
    lines.iter().map(|l| l.iter().map(|s| s.text.clone()).collect::<String>()).collect()
}

fn version(name: &str) -> ProjectVersion {
    ProjectVersion {
        id: "10".into(),
        name: name.into(),
        description: Some("  Spring release  ".into()),
        archived: false,
        released: true,
        release_date: Some("2024-04-30".into()),
        start_date: None,
    }
}

fn issue(key: &str) -> Issue {
    Issue {
        id: "1".into(),
        key: key.into(),
        summary: "Open bug".into(),
        description: None,
        status: "To Do".into(),
        assignee: None,
        reporter: None,
        priority: None,
        issue_type: "Bug".into(),
        project_key: "PROJ".into(),
        created: String::new(),
        updated: String::new(),
        fields: JsonValue::Null,
    }
}

#[test]
fn detail_tab_rects_fit_the_header() {
    let wide = detail_tab_rects(Rect { x: 0, y: 5, width: 80, height: 3 });
    assert_eq!(wide.len(), 7);
    assert_eq!(wide[0].0, Rect { x: 1, y: 6, width: 9, height: 1 });
    assert_eq!(wide[1].0, Rect { x: 10, y: 6, width: 10, height: 1 });
    assert_eq!(wide[1].1, DetailTab::Versions);
    assert_eq!(wide[6].1, DetailTab::Links);
    // 18 inner columns: Summary (9) fits, Versions (10) and Comments (10) do not, Worklog (9) fills the rest.
    let narrow = detail_tab_rects(Rect { x: 0, y: 0, width: 20, height: 3 });
    assert_eq!(narrow.iter().map(|(_, t)| *t).collect::<Vec<_>>(), vec![DetailTab::Summary, DetailTab::Worklog]);
    assert_eq!(narrow[1].0.x, 10);
}

#[test]
fn version_browser_pane() {
    let v = version("1.0");
    let preview = VersionBacklogPreview { version: version("1.0"), total_open: 3, issues: vec![issue("PROJ-1")] };
    let lines = version_pane_lines(Some(&v), Some(&preview));
    let t = text(&lines);
    assert_eq!(t[0], "1.0");
    assert!(lines[0][0].tone == Tone::Heading);
    assert_eq!(t[1], "released • release 2024-04-30");
    assert_eq!(t[3], "Spring release");
    assert_eq!(t[5], "Metadata:");
    assert_eq!(t[6], "  Release: 2024-04-30");
    assert_eq!(t[7], "  Press e to edit, n to create a version");
    assert_eq!(t[11], "1.0 — 3 open issue(s)");
    assert_eq!(t[12], "  - PROJ-1 [To Do] Open bug");
    assert_eq!(t[13], "  … 2 more");
    let other = VersionBacklogPreview { version: version("2.0"), total_open: 0, issues: vec![] };
    assert_eq!(text(&version_pane_lines(Some(&v), Some(&other))).last().unwrap(), "Loading backlog preview...");
    assert_eq!(text(&version_pane_lines(None, None)), vec!["Select a fix version to preview its backlog."]);
    assert_eq!(version_browser_title(""), " Fix Versions — project ");
    assert_eq!(version_browser_title("PROJ"), " Fix Versions — PROJ ");
    assert_eq!(version_list_items(&vec![]), vec!["No fix versions".to_string()]);
    let opts = vec![PickerOption { value: "1.0".into(), label: "1.0 (released)".into() }];
    assert_eq!(version_list_items(&opts), vec!["1.0 (released)".to_string()]);
}

#[test]
fn picker_popup_items() {
    let mut prefs = TuiPreferences::default();
    prefs.theme = ThemeName::Nord;
    prefs.saved_jqls = vec![
        SavedJql { name: "Mine".into(), jql: "assignee = currentUser()".into() },
        SavedJql { name: "Bugs".into(), jql: "type = Bug".into() },
    ];
    let mut app = App::new("jql".to_string(), None, prefs);
    assert_eq!(app.theme_items()[2], "[✓] Nord");
    assert_eq!(app.theme_items()[0], "[ ] Default");
    app.jql_picker_filter = "bug".into();
    assert_eq!(app.saved_jql_items(), vec!["Bugs  •  type = Bug".to_string()]);
    app.column_picker_filter = "status".into();
    let items = app.column_picker_items();
    assert!(items.contains(&"[x] Status (status)".to_string()));
}

#[test]
fn active_project_falls_back_to_key_prefix() {
    let mut app = App::new("jql".to_string(), None, TuiPreferences::default());
    assert_eq!(app.active_project_key("X"), None);
    app.issue_keys = vec!["ABC-12".into(), "NODASH".into()];
    app.table_state.select(Some(0));
    assert_eq!(app.active_project_key("X"), Some("ABC".to_string()));
    app.table_state.select(Some(1));
    assert_eq!(app.active_project_key("OWN"), Some("OWN".to_string()));
    app.default_project = Some("DEF".into());
    assert_eq!(app.active_project_key("OWN"), Some("DEF".to_string()));
}

#[test]
fn issue_link_output() {
    let types = vec![LinkType { id: "1".into(), name: "Blocks".into(), inward: "is blocked by".into(), outward: "blocks".into() }];
    let t = link_type_table(&types);
    assert_eq!(t[0], format!("{:<10} {:<15} {:<20} {:<20}", "ID", "Name", "Inward", "Outward"));
    assert_eq!(t[1], "-".repeat(65));
    assert_eq!(t[2], format!("{:<10} {:<15} {:<20} {:<20}", "1", "Blocks", "is blocked by", "blocks"));
    assert_eq!(linked_message("A-1", "B-2", "Blocks"), "✓ Linked A-1 to B-2 as 'Blocks'");
    assert_eq!(delete_link_question("77"), "Delete issue link 77?");
    assert_eq!(deleted_link_message("77"), "✓ Deleted issue link 77");
}

#[test]
fn startup_checks() {
    assert_eq!(issue_browse_url("https://x.atlassian.net//", " PROJ-1 "), Ok("https://x.atlassian.net/browse/PROJ-1".to_string()));
    assert_eq!(issue_browse_url("https://x", "  "), Err("Issue key cannot be empty.".to_string()));
    assert_eq!(issue_browse_url("https://x", "PROJ"), Err("Issue shortcut expects a full issue key like `PROJ-123`.".to_string()));
    assert!(issue_browse_url("", "PROJ-1").unwrap_err().starts_with("Jira URL not configured."));
    assert_eq!(check_client_config("https://x", true, "me@x", true), Ok(()));
    assert!(check_client_config("https://x", true, " ", true).unwrap_err().starts_with("User identity not configured."));
    assert_eq!(check_client_config("https://x", false, "", true), Ok(()));
    assert!(check_client_config("https://x", false, "", false).unwrap_err().starts_with("API token not found."));
    assert_eq!(no_command_message(), "No command provided. Run `jirac --help` for usage.");
    assert_eq!(opened_message("u"), "Opened u");
}

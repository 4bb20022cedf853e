use jira_commands::custom_fields::{
    field_prompt, fields_to_ask, is_standard_field, split_comma_answer, split_field_flag,
    split_labels_answer, CreateField, FieldKind, PromptStyle,
};
use jira_commands::model::{Issue, JsonValue, ProjectVersion, Sprint};
use jira_commands::sprints::{
    boards_of, choose_board, eq_ignore_ascii_case, find_sprint_field, pick_sprint, single_sprint_id,
    sprint_lines, sprint_value, sprints_named_on_board, FieldMeta,
};
use jira_commands::version_views::{
    find_version, version_backlog_report, version_listing_line, version_metadata_lines,
    version_preview_lines, version_summary_line, versions_report,
};
use jira_commands::versions::VersionBacklogPreview;

fn sprint(id: u64, name: &str, board: Option<u64>) -> Sprint {
    Sprint {
        id,
        name: name.to_string(),
        state: "active".to_string(),
        board_id: board,
        goal: None,
        start_date: None,
        end_date: None,
        complete_date: None,
    }
}

fn num(n: u64) -> JsonValue {
    JsonValue::Number(n.to_string())
}

fn s(x: &str) -> JsonValue {
    JsonValue::Str(x.to_string())
}

fn obj(entries: Vec<(&str, JsonValue)>) -> JsonValue {
    JsonValue::Object(entries.into_iter().map(|(k, v)| (k.to_string(), v)).collect())
}

fn version(name: &str, released: bool, release: Option<&str>) -> ProjectVersion {
    ProjectVersion {
        id: "1".to_string(),
        name: name.to_string(),
        description: Some("  notes ".to_string()),
        archived: false,
        released,
        release_date: release.map(|d| d.to_string()),
        start_date: Some("2024-01-01T00:00:00".to_string()),
    }
}

fn issue(key: &str, status: &str, summary: &str) -> Issue {
    Issue {
        id: "1".to_string(),
        key: key.to_string(),
        summary: summary.to_string(),
        description: None,
        status: status.to_string(),
        assignee: None,
        reporter: None,
        priority: None,
        issue_type: "Task".to_string(),
        project_key: "PROJ".to_string(),
        created: String::new(),
        updated: String::new(),
        fields: JsonValue::Null,
    }
}

#[test]
fn boards_are_chosen() {
    let boards = vec![(3, "Team A".to_string()), (7, "Team B".to_string())];
    assert_eq!(choose_board("PROJ", &boards, Some(7)), Ok(7));
    assert_eq!(
        choose_board("PROJ", &boards, Some(9)),
        Err("Board 9 is not available for project PROJ. Available boards: Team A (3), Team B (7)".to_string())
    );
    assert_eq!(
        choose_board("PROJ", &boards, None),
        Err("Project PROJ maps to multiple boards. Re-run with --board-id. Available boards: Team A (3), Team B (7)".to_string())
    );
    assert_eq!(choose_board("PROJ", &vec![(5, "Only".to_string())], None), Ok(5));
    assert_eq!(
        choose_board("PROJ", &Vec::new(), Some(1)),
        Err("No sprint-enabled boards found for project PROJ".to_string())
    );
}

#[test]
fn boards_are_read_from_a_response() {
    let response = obj(vec![(
        "values",
        JsonValue::Array(vec![
            obj(vec![("id", num(3)), ("name", s("Team A"))]),
            obj(vec![("name", s("No id"))]),
            obj(vec![("id", num(4))]),
        ]),
    )]);
    assert_eq!(
        boards_of(&response),
        Some(vec![(3, "Team A".to_string()), (4, "Unnamed board".to_string())])
    );
    assert_eq!(boards_of(&obj(vec![])), None);
}

#[test]
fn sprints_are_picked_by_id_or_name() {
    let sprints = vec![sprint(11, "Sprint 1", Some(3)), sprint(12, "sprint 2", None), sprint(13, "SPRINT 2", Some(4))];
    assert_eq!(pick_sprint("PROJ", &sprints, " 12 "), Ok(1));
    assert_eq!(
        pick_sprint("PROJ", &sprints, "99"),
        Err("Sprint id 99 was not found in project PROJ".to_string())
    );
    assert_eq!(pick_sprint("PROJ", &sprints, " sprint 1 "), Ok(0));
    assert_eq!(
        pick_sprint("PROJ", &sprints, "Sprint 2"),
        Err("Sprint 'Sprint 2' matched multiple sprints. Use a numeric sprint ID instead: sprint 2 (id:12, board:0), SPRINT 2 (id:13, board:4)".to_string())
    );
    assert_eq!(
        pick_sprint("PROJ", &sprints, "Nope"),
        Err("Sprint 'Nope' was not found on any sprint-enabled board for project PROJ".to_string())
    );
    assert!(eq_ignore_ascii_case("AbC", "aBc"));
    assert!(!eq_ignore_ascii_case("É", "é"));
}

#[test]
fn sprints_are_found_by_name_across_boards() {
    let listing = obj(vec![(
        "values",
        JsonValue::Array(vec![
            obj(vec![("id", num(21)), ("name", s("Alpha"))]),
            obj(vec![("id", num(22)), ("name", s("Beta"))]),
            obj(vec![("name", s("alpha"))]),
        ]),
    )]);
    let m = sprints_named_on_board(5, &listing, "ALPHA");
    assert_eq!(m, vec![(21, 5, "Alpha".to_string())]);
    assert_eq!(single_sprint_id("PROJ", "ALPHA", &m), Ok(21));
    let two = vec![(21, 5, "Alpha".to_string()), (31, 6, "alpha".to_string())];
    assert_eq!(
        single_sprint_id("PROJ", "alpha", &two),
        Err("Sprint 'alpha' matched multiple sprints. Use a numeric sprint ID instead: Alpha (id:21, board:5), alpha (id:31, board:6)".to_string())
    );
    assert_eq!(
        single_sprint_id("PROJ", "x", &Vec::new()),
        Err("Sprint 'x' was not found on any sprint-enabled board for project PROJ".to_string())
    );
}

#[test]
fn sprint_field_and_value() {
    let fields = vec![
        FieldMeta { id: "f1".to_string(), name: "Team".to_string(), custom: None },
        FieldMeta {
            id: "f2".to_string(),
            name: "Iteration".to_string(),
            custom: Some("com.pyxis.greenhopper.jira:gh-sprint".to_string()),
        },
    ];
    assert_eq!(find_sprint_field(&fields), Some(1));
    let named = vec![FieldMeta { id: "f3".to_string(), name: "sprint".to_string(), custom: None }];
    assert_eq!(find_sprint_field(&named), Some(0));
    assert_eq!(find_sprint_field(&Vec::new()), None);
    match sprint_value(42) {
        JsonValue::Array(items) => match &items[0] {
            JsonValue::Object(entries) => {
                assert_eq!(entries[0].0, "id");
                assert!(matches!(&entries[0].1, JsonValue::Number(n) if n == "42"));
            }
            _ => panic!("expected an object"),
        },
        _ => panic!("expected an array"),
    }
}

#[test]
fn sprint_metadata_is_printed() {
    let mut sp = sprint(7, "Sprint 7", Some(2));
    sp.goal = Some("  Ship  ".to_string());
    sp.start_date = Some("2024-05-01T10:00:00.000Z".to_string());
    sp.complete_date = Some("2024-05-14".to_string());
    assert_eq!(
        sprint_lines(&sp, true),
        vec![
            "  • Sprint 7 [id:7 | active | board 2]".to_string(),
            "    goal: Ship".to_string(),
            "    start: 2024-05-01".to_string(),
            "    done:  2024-05-14".to_string(),
        ]
    );
    let plain = sprint(8, "S8", None);
    assert_eq!(sprint_lines(&plain, false), vec!["   S8 [id:8 | active]".to_string()]);
}

#[test]
fn version_metadata_and_listing() {
    let v = version("v1.0", true, Some("2024-02-03T00:00"));
    assert_eq!(
        version_metadata_lines("PROJ", &v, Some("✓ Updated fix version")),
        vec![
            "✓ Updated fix version — PROJ / v1.0".to_string(),
            "  Status: released".to_string(),
            "  Start: 2024-01-01".to_string(),
            "  Release: 2024-02-03".to_string(),
            "  Description: notes".to_string(),
        ]
    );
    assert_eq!(version_listing_line(&v), "  • v1.0 [released | start 2024-01-01 | release 2024-02-03]");
    assert_eq!(version_summary_line("v1.0", Some(&v)), "    • v1.0 (released, release 2024-02-03)");
    assert_eq!(version_summary_line("v9", None), "    • v9");
    let report = versions_report("PROJ", &vec![v]);
    assert_eq!(report.len(), 7);
    assert_eq!(report[0], "Project fix versions — PROJ");
    assert_eq!(report[2], "  • v1.0 [released | start 2024-01-01 | release 2024-02-03]");
}

#[test]
fn versions_are_found_by_name() {
    let vs = vec![version("Beta", false, None), version("beta", false, None), version("Gamma", false, None)];
    assert_eq!(find_version(&vs, "beta"), Some(1));
    assert_eq!(find_version(&vs, "GAMMA"), Some(2));
    assert_eq!(find_version(&vs, "delta"), None);
}

#[test]
fn backlog_lines() {
    let v = version("v2", false, None);
    let issues = vec![issue("PROJ-1", "To Do", "First")];
    let p = VersionBacklogPreview { version: version("v2", false, None), total_open: 3, issues: vec![issue("PROJ-1", "To Do", "First")] };
    assert_eq!(
        version_preview_lines(&p),
        vec![
            "      Open backlog: 3".to_string(),
            "        - PROJ-1 [To Do] First".to_string(),
            "        … 2 more".to_string(),
        ]
    );
    let empty = VersionBacklogPreview { version: version("v2", false, None), total_open: 0, issues: Vec::new() };
    assert_eq!(
        version_preview_lines(&empty),
        vec!["      Open backlog: 0".to_string(), "        ✓ No open backlog items".to_string()]
    );
    let report = version_backlog_report("PROJ", "v2", Some(&v), 1, &issues);
    assert_eq!(report[0], "Fix version backlog — PROJ / v2");
    assert_eq!(report[1], "  Status: unreleased");
    assert_eq!(report[report.len() - 1], "  - PROJ-1 [To Do] First");
    let none = version_backlog_report("PROJ", "v3", None, 0, &Vec::new());
    assert_eq!(
        none,
        vec![
            "Fix version backlog — PROJ / v3".to_string(),
            "  Open backlog: 0".to_string(),
            String::new(),
            "  ✓ No open backlog items".to_string(),
        ]
    );
}

#[test]
fn custom_fields_to_ask() {
    assert!(is_standard_field("fixVersions"));
    assert!(!is_standard_field("customfield_1"));
    let fields = vec![
        CreateField { id: "summary".to_string(), name: "Summary".to_string(), required: true, kind: FieldKind::Text },
        CreateField { id: "customfield_1".to_string(), name: "Team".to_string(), required: true, kind: FieldKind::Select },
        CreateField { id: "customfield_2".to_string(), name: "Notes".to_string(), required: false, kind: FieldKind::Text },
    ];
    assert_eq!(fields_to_ask(&fields), vec![1]);
    assert_eq!(field_prompt(FieldKind::Number, "Points", false), Some((PromptStyle::Text, "Points (number):".to_string())));
    assert_eq!(field_prompt(FieldKind::Select, "Team", true), Some((PromptStyle::Select, "Team:".to_string())));
    assert_eq!(
        field_prompt(FieldKind::MultiSelect, "Tags", false),
        Some((PromptStyle::Text, "Tags (comma-separated):".to_string()))
    );
    assert_eq!(field_prompt(FieldKind::Other, "X", true), None);
    assert_eq!(split_comma_answer(" a , b,,c "), vec!["a", "b", "", "c"]);
    assert_eq!(split_labels_answer("  one two\tthree "), vec!["one", "two", "three"]);
    assert_eq!(split_field_flag("a=b=c"), Ok(("a".to_string(), "b=c".to_string())));
    assert_eq!(
        split_field_flag("nope"),
        Err("Invalid --field format 'nope': expected key=value".to_string())
    );
}

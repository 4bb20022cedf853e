use jira_commands::auth::{JiraAuthType, JiraDeployment};
use jira_commands::custom_fields::parse_field_flags;
use jira_commands::detail_tabs::{
    attachment_lines, comment_lines, fix_version_lines, link_lines, placeholder_lines, subtask_lines, summary_lines, worklog_lines,
    CommentView, LinkInfo, Span, Tone, WatchersView, WorklogView,
};
use jira_commands::field_list::{field_table, find_issue_type, sorted_fields, FieldInfo};
use jira_commands::issue_updates::{issue_update, no_changes_message};
use jira_commands::issue_views::AttachmentInfo;
use jira_commands::jql_builder::{
    assignee_from_choice, builder_table, generated_jql_message, jql_params_filters_empty, order_from_choice,
    params_from_answers, status_options, with_builder_defaults, AssigneeFilter, OrderDir,
};
use jira_commands::model::{Issue, JsonValue};
use jira_commands::picker::{
    assignee_choices, build_project_version_options, normalize_picker_query, picker_option_matches, refine, Refined,
};
use jira_commands::profile_views::{
    config_view_lines, profile_lines, status_lines, Effective, EnvReport, ProfileSummary, StatusView, StoreLoad,
    StoreView,
};
use jira_commands::tui_modal::PickerOption;

fn text(lines: &[Vec<Span>]) -> Vec<String> {
    lines.iter().map(|l| l.iter().map(|s| s.text.clone()).collect::<String>()).collect()
}

fn obj(entries: Vec<(&str, JsonValue)>) -> JsonValue {
    JsonValue::Object(entries.into_iter().map(|(k, v)| (k.to_string(), v)).collect())
}

fn s(v: &str) -> JsonValue {
    JsonValue::Str(v.to_string())
}

fn opt(value: &str, label: &str) -> PickerOption {
    PickerOption { value: value.to_string(), label: label.to_string() }
}

fn issue(key: &str) -> Issue {
    Issue {
        id: "1".into(),
        key: key.into(),
        summary: "Fix login".into(),
        description: None,
        status: "To Do".into(),
        assignee: Some("Ann".into()),
        reporter: None,
        priority: None,
        issue_type: "Bug".into(),
        project_key: "PROJ".into(),
        created: "2024-05-01T09:00:00.000+0000".into(),
        updated: "2024-05-02T09:00:00.000+0000".into(),
        fields: JsonValue::Null,
    }
}

#[test]
fn jql_builder_defaults() {
    let empty = params_from_answers(Some("  ".into()), "(any)", "(any)", None, "(any)", "key ASC");
    assert!(empty.project.is_none());
    assert!(jql_params_filters_empty(&empty));
    let filled = with_builder_defaults(empty);
    assert_eq!(filled.assignee.len(), 1);
    assert!(matches!(filled.assignee[0], AssigneeFilter::CurrentUser));
    assert_eq!(filled.order_by.len(), 1);
    assert_eq!(filled.order_by[0].0, "key");
    assert!(matches!(filled.order_by[0].1, OrderDir::Asc));

    let p = params_from_answers(Some(" PROJ ".into()), "Done", "Custom email", Some("a@b.c".into()), "High", "created DESC");
    assert_eq!(p.project, Some("PROJ".to_string()));
    assert_eq!(p.status, vec!["Done".to_string()]);
    assert_eq!(p.priority, vec!["High".to_string()]);
    assert!(matches!(&p.assignee[0], AssigneeFilter::Email { email } if email == "a@b.c"));
    assert!(!jql_params_filters_empty(&p));
    assert_eq!(p.order_by[0].0, "created");
    assert!(matches!(p.order_by[0].1, OrderDir::Desc));
}

#[test]
fn jql_builder_choices() {
    assert_eq!(status_options().len(), 6);
    assert!(matches!(assignee_from_choice("Unassigned", None)[0], AssigneeFilter::Empty));
    assert!(assignee_from_choice("(any)", None).is_empty());
    let (f, d) = order_from_choice("anything else");
    assert_eq!(f, "key");
    assert!(matches!(d, OrderDir::Asc));
    assert_eq!(generated_jql_message("project = X"), "\nGenerated JQL:\n  project = X\n");
    let t = builder_table(&vec![issue("PROJ-1")], Some(9));
    assert_eq!(t[0], format!("{:<12} {:<8} {:<20} SUMMARY", "KEY", "TYPE", "STATUS"));
    assert_eq!(t.last().unwrap(), "Showing 1 of 9");
}

#[test]
fn picker_matching_and_refining() {
    assert_eq!(normalize_picker_query("  Alice "), "alice");
    assert!(picker_option_matches(&opt("acc-1", "Alice Smith"), "alice"));
    assert!(picker_option_matches(&opt("acc-1", "Alice Smith"), "ACC"));
    assert!(!picker_option_matches(&opt("acc-1", "Alice Smith"), "bob"));
    assert!(picker_option_matches(&opt("acc-1", "Alice Smith"), "   "));
    let options = vec![opt("me", "Assign to me"), opt("__search_again__", "Search again..."), opt("a1", "Alice"), opt("b2", "Bob")];
    assert!(matches!(refine(&options, None), Refined::Cancelled));
    assert!(matches!(refine(&options, Some("  ")), Refined::Unchanged));
    match refine(&options, Some("BOB")) {
        Refined::Kept(k) => assert_eq!(k.iter().map(|o| o.value.as_str()).collect::<Vec<_>>(), vec!["me", "__search_again__", "b2"]),
        _ => panic!("expected kept options"),
    }
    let only_again = vec![opt("__search_again__", "Search again..."), opt("a1", "Alice")];
    match refine(&only_again, Some("zed")) {
        Refined::NoMatches(m) => assert_eq!(m, "  No matches for 'zed'. Try another search."),
        _ => panic!("expected no matches"),
    }
}

#[test]
fn assignee_picker_from_users() {
    let users = vec![
        obj(vec![("displayName", s(" Alice ")), ("emailAddress", s("a@x.io")), ("accountId", s("id-1"))]),
        obj(vec![("displayName", s("Dup")), ("accountId", s("id-1"))]),
        obj(vec![("accountId", s("id-2"))]),
        obj(vec![("displayName", s("No id"))]),
    ];
    let os = assignee_choices(&users).unwrap();
    let labels: Vec<&str> = os.iter().map(|o| o.label.as_str()).collect();
    assert_eq!(
        labels,
        vec!["Assign to me", "Search again...", "Alice  •  <a@x.io>  •  accountId: id-1", "Unknown user  •  accountId: id-2"]
    );
    assert!(assignee_choices(&vec![obj(vec![("displayName", s("x"))])]).is_none());
}

#[test]
fn version_picker_filters_by_name() {
    let v = |n: &str| jira_commands::model::ProjectVersion {
        id: "1".into(),
        name: n.into(),
        description: None,
        archived: false,
        released: false,
        release_date: None,
        start_date: None,
    };
    let catalog = vec![v("Release 1.0"), v("Beta"), v("release 2")];
    let got = build_project_version_options(&catalog, "RELEASE");
    assert_eq!(got.iter().map(|o| o.value.as_str()).collect::<Vec<_>>(), vec!["Release 1.0", "release 2"]);
    assert_eq!(build_project_version_options(&catalog, "").len(), 3);
}

fn profile(name: &str, email: &str, token: Option<&str>) -> ProfileSummary {
    ProfileSummary {
        name: name.into(),
        base_url: "https://x.atlassian.net".into(),
        email: email.into(),
        project: None,
        timeout_secs: 30,
        deployment: JiraDeployment::Cloud,
        auth_type: JiraAuthType::CloudApiToken,
        api_version: 3,
        token: token.map(|t| t.to_string()),
    }
}

#[test]
fn auth_status_and_profiles() {
    let v = StatusView {
        profile_name: None,
        base_url: "https://x.atlassian.net".into(),
        deployment: JiraDeployment::Cloud,
        auth_type: JiraAuthType::CloudApiToken,
        requires_user: true,
        email: "me@x.io".into(),
        token_present: false,
        api_version: 3,
        project: Some("PROJ".into()),
    };
    let lines = status_lines(&v, "/home/me/.config/jira/config.toml", 0);
    assert_eq!(lines[2], "  Active profile: default");
    assert!(lines.contains(&"  User:           me@x.io".to_string()));
    assert!(lines.contains(&"  Secret:         ✗ not found — run `jirac auth login`".to_string()));
    assert!(lines.contains(&"  Profiles saved: 1".to_string()));
    assert_eq!(lines.last().unwrap(), "  Default project: PROJ");
    let none = StatusView { base_url: String::new(), ..v };
    assert_eq!(status_lines(&none, "p", 2), vec!["Not configured. Run `jirac auth login` to set up.".to_string()]);

    let ps = vec![profile("work", "me@x.io", Some("t")), profile("home", " ", None)];
    let out = profile_lines(&ps, &Some("work".into()));
    assert_eq!(out[2], "* work — Cloud · Cloud API token · api v3 [me@x.io]");
    assert_eq!(out[3], "  home — Cloud · Cloud API token · api v3");
    assert_eq!(profile_lines(&vec![], &None), vec!["No saved profiles. Run `jirac auth login` to create one.".to_string()]);
}

#[test]
fn tui_config_tab() {
    let store = StoreLoad::Loaded(StoreView {
        current_name: Some("work".into()),
        current_field: Some("work".into()),
        profiles: vec![profile("work", " ", Some("tok"))],
    });
    let env = EnvReport { profile_var: None, url_set: true, email_set: false, token_set: false };
    let eff: Result<Effective, String> =
        Ok(Effective { profile_name: None, base_url: "https://x".into(), project: None, timeout_secs: 30 });
    let lines = config_view_lines("/cfg.toml", &store, &env, &eff);
    assert_eq!(lines[0], "Config file: /cfg.toml");
    assert_eq!(lines[2], "Current profile: work");
    assert_eq!(lines[5], "* work");
    assert_eq!(lines[7], "  User: (empty)");
    assert_eq!(lines[10], "  Deployment: Cloud");
    assert_eq!(lines[11], "  Auth: CloudApiToken");
    assert_eq!(lines[13], "  Token: present");
    assert!(lines.contains(&"  JIRA_URL => set".to_string()));
    assert!(lines.contains(&"  JIRA_PROFILE => (unset)".to_string()));
    assert_eq!(lines.last().unwrap(), "  Effective timeout: 30s");
    let failed = StoreLoad::Failed { error: "bad toml".into(), raw_read_error: None };
    let err: Result<Effective, String> = Err("boom".into());
    let lines = config_view_lines("/cfg.toml", &failed, &env, &err);
    assert_eq!(lines[2], "Config parse failed: bad toml");
    assert_eq!(lines[4], "Raw config preview suppressed to avoid exposing secrets.");
    assert_eq!(lines.last().unwrap(), "  Failed to load effective config: boom");
}

fn field(id: &str, name: &str, required: bool) -> FieldInfo {
    FieldInfo { id: id.into(), name: name.into(), field_type: "string".into(), required }
}

#[test]
fn fields_listing() {
    assert_eq!(find_issue_type(&vec!["Bug".into(), "Task".into()], "task", "PROJ"), Ok(1));
    assert_eq!(
        find_issue_type(&vec!["Bug".into()], "Epic", "PROJ"),
        Err("Issue type 'Epic' not found in PROJ".to_string())
    );
    let fs = vec![field("c", "Zeta", false), field("a", "Beta", true), field("b", "Alpha", false), field("d", "Alpha", true)];
    let sorted = sorted_fields(&fs, false);
    assert_eq!(sorted.iter().map(|f| f.id.as_str()).collect::<Vec<_>>(), vec!["d", "a", "b", "c"]);
    let req = sorted_fields(&fs, true);
    assert_eq!(req.iter().map(|f| f.id.as_str()).collect::<Vec<_>>(), vec!["d", "a"]);
    let table = field_table("PROJ", "Bug", &req);
    assert_eq!(table[0], "\nFields for PROJ / Bug (2 total):\n");
    assert_eq!(table[1], format!("{:<30} {:<20} {:<12} REQUIRED", "NAME", "ID", "TYPE"));
    assert_eq!(table[3], format!("{:<30} {:<20} {:<12} {}", "Alpha", "d", "string", "✓"));
}

#[test]
fn update_needs_a_change() {
    assert!(issue_update(None, None, None, None, None, None, None, None, None, 0).is_none());
    assert!(no_changes_message().starts_with("No fields to update. Use --summary"));
    let u = issue_update(None, None, None, None, None, Some("a, b,,"), None, None, None, 0).unwrap();
    assert_eq!(u.labels, Some(vec!["a".to_string(), "b".to_string()]));
    assert!(u.components.is_none());
    assert!(issue_update(None, None, None, None, None, None, None, None, None, 2).is_some());
}

#[test]
fn field_flags_split() {
    let ok = parse_field_flags(&vec!["customfield_1=5".into(), "x=a=b".into()]).unwrap();
    assert_eq!(ok, vec![("customfield_1".to_string(), "5".to_string()), ("x".to_string(), "a=b".to_string())]);
    assert_eq!(
        parse_field_flags(&vec!["a=1".into(), "broken".into(), "also".into()]),
        Err("Invalid --field format 'broken': expected key=value".to_string())
    );
}

#[test]
fn detail_tabs_text() {
    assert_eq!(text(&placeholder_lines("Links", "None.")), vec!["Links", "", "None."]);
    assert!(placeholder_lines("Links", "x")[0][0].tone == Tone::Bold);
    let mut i = issue("PROJ-3");
    i.priority = Some("High".into());
    let w = WatchersView {
        watch_count: 7,
        is_watching: true,
        names: (1..=7).map(|n| format!("W{n}")).collect(),
    };
    let lines = summary_lines(&i, &Some(w), &Some("first\nsecond".into()));
    let t = text(&lines);
    assert_eq!(t[0], "PROJ-3 — Fix login");
    assert_eq!(t[2], format!("  {:<12}Bug", "Type"));
    assert!(t.contains(&format!("  {:<12}High", "Priority")));
    assert!(t.contains(&format!("  {:<12}2024-05-01", "Created")));
    assert!(t.contains(&format!("  {:<12}7 (watching)", "Watchers")));
    assert!(t.contains(&"           W1, W2, W3, W4, W5 (+2 more)".to_string()));
    assert_eq!(&t[t.len() - 3..], &["", "  first", "  second"]);
    assert!(lines[0][0].tone == Tone::Accent);

    let comments = vec![
        CommentView { author: None, created: "2024-01-02T03:04:05".into(), body: None },
        CommentView { author: Some("Bo".into()), created: "short".into(), body: Some("hi".into()) },
    ];
    let c = text(&comment_lines(&Some(comments)));
    assert_eq!(c[0], "2 comment(s)");
    assert_eq!(c[2], "Unknown  2024-01-02");
    assert_eq!(c[3], "  (empty)");
    assert_eq!(c[5], "─".repeat(48));
    assert_eq!(c[7], "Bo  short");
    assert_eq!(text(&comment_lines(&None)), vec!["Comments", "", "Loading comments..."]);

    let wl = vec![WorklogView { author: Some("Al".into()), started: "2024-02-03T10:00".into(), time_spent: "1h".into(), comment: None }];
    assert_eq!(text(&worklog_lines(&Some(wl))), vec!["1 worklog entr(y/ies)", "", "Al  1h  2024-02-03", ""]);

    let links = vec![LinkInfo { title: "Doc".into(), url: "https://d".into() }];
    assert_eq!(text(&link_lines(&Some(links))), vec!["1 link(s)", "", "Doc", "  https://d", ""]);

    let atts = vec![AttachmentInfo { filename: "a.txt".into(), mime_type: "text/plain".into(), size: 12 }];
    assert_eq!(text(&attachment_lines(&atts)), vec!["1 attachment(s)", "", "• a.txt (12 bytes)"]);

    let fields = obj(vec![(
        "subtasks",
        JsonValue::Array(vec![
            obj(vec![("key", s("PROJ-9")), ("fields", obj(vec![("summary", s("Child")), ("status", obj(vec![("name", s("Done"))]))]))]),
            obj(vec![]),
        ]),
    )]);
    assert_eq!(
        text(&subtask_lines(&fields)),
        vec!["2 subtask(s)", "", "• PROJ-9  [Done]  Child", "• ?  [Unknown]  (no summary)"]
    );
    assert_eq!(text(&subtask_lines(&JsonValue::Null)), vec!["Subtasks", "", "No subtasks found."]);
}

#[test]
fn versions_tab_lists_fix_versions() {
    let none = fix_version_lines(&obj(vec![("summary", s("x"))]));
    assert_eq!(text(&none), vec!["Versions", "", "No fix versions set."]);
    let fields = obj(vec![(
        "fixVersions",
        JsonValue::Array(vec![
            obj(vec![("name", s("1.0")), ("releaseDate", s("2024-05-01"))]),
            obj(vec![("id", s("7"))]),
        ]),
    )]);
    assert_eq!(
        text(&fix_version_lines(&fields)),
        vec!["2 fix version(s)", "", "• 1.0  (release 2024-05-01)", "• ?"]
    );
}

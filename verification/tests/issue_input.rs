use jira_commands::issue_input::{
    escape_jql_literal, normalize_issue_keys, normalize_optional_text, normalize_render_format,
    normalize_render_output, parse_csv, parse_sprint_states, truncate, validate_ymd_date,
    ymd_to_jira_datetime,
};
use jira_commands::jql::{build_search_jql, escape_jql, looks_like_jql};

fn strings(v: &[&str]) -> Vec<String> {
    v.iter().map(|s| s.to_string()).collect()
}

#[test]
fn optional_text_is_trimmed_and_blank_is_none() {
    assert_eq!(normalize_optional_text(Some("  goal  ")), Some("goal".to_string()));
    assert_eq!(normalize_optional_text(Some("   ")), None);
    assert_eq!(normalize_optional_text(None), None);
}

#[test]
fn csv_items_are_trimmed_and_blank_items_dropped() {
    assert_eq!(parse_csv(Some(" a, b ,,c ")), strings(&["a", "b", "c"]));
    assert_eq!(parse_csv(Some("   ")), Vec::<String>::new());
    assert_eq!(parse_csv(None), Vec::<String>::new());
    assert_eq!(parse_csv(Some("one")), strings(&["one"]));
}

#[test]
fn jql_literals_escape_backslash_and_quote() {
    assert_eq!(escape_jql_literal(r#"a"b\c"#), r#"a\"b\\c"#);
    assert_eq!(escape_jql("plain"), "plain");
    assert_eq!(escape_jql(r#"\""#), r#"\\\""#);
}

#[test]
fn sprint_states_accept_known_names_only() {
    assert_eq!(parse_sprint_states("active, future ,closed").ok().unwrap(), strings(&["active", "future", "closed"]));
    assert_eq!(parse_sprint_states(",active,,").ok().unwrap(), strings(&["active"]));
    assert_eq!(
        parse_sprint_states("active,Done,bogus").err().unwrap(),
        "Unsupported sprint state 'Done'. Use a comma-separated subset of: active,future,closed"
    );
    assert_eq!(parse_sprint_states(" , ").err().unwrap(), "At least one sprint state is required");
}

#[test]
fn render_formats_are_normalized() {
    assert_eq!(normalize_render_format(" MD ").ok().unwrap(), "markdown");
    assert_eq!(normalize_render_format("Txt").ok().unwrap(), "text");
    assert_eq!(normalize_render_format("json").ok().unwrap(), "adf");
    assert_eq!(
        normalize_render_format(" HTML ").err().unwrap(),
        "Unsupported input format 'html'. Use one of: markdown, text, adf"
    );
    assert_eq!(normalize_render_output("ADF").ok().unwrap(), "adf");
    assert_eq!(normalize_render_output("text").ok().unwrap(), "text");
    assert_eq!(
        normalize_render_output("markdown").err().unwrap(),
        "Unsupported output format 'markdown'. Use one of: adf, text"
    );
}

#[test]
fn truncate_cuts_by_bytes_and_marks_the_cut() {
    assert_eq!(truncate("hello", 10), "hello");
    assert_eq!(truncate("hello", 5), "hello");
    assert_eq!(truncate("hello world", 6), "hello…");
    assert_eq!(truncate("héllo", 4), "hé…");
    assert_eq!(truncate("abc", 0), "…");
    assert_eq!(truncate("abc", 1), "…");
}

#[test]
fn issue_keys_are_split_and_kept_once_in_order() {
    let keys = normalize_issue_keys(strings(&["PROJ-1,PROJ-2", " PROJ-3  PROJ-1", "", "PROJ-2,,PROJ-4"]));
    assert_eq!(keys, strings(&["PROJ-1", "PROJ-2", "PROJ-3", "PROJ-4"]));
    assert_eq!(normalize_issue_keys(vec![]), Vec::<String>::new());
}

#[test]
fn ymd_dates_are_checked_and_converted() {
    assert_eq!(validate_ymd_date(" 2026-04-21 ", "release date").ok().unwrap(), "2026-04-21");
    assert_eq!(
        validate_ymd_date("21-04-2026", "release date").err().unwrap(),
        "Invalid release date '21-04-2026'. Expected format: YYYY-MM-DD"
    );
    assert_eq!(ymd_to_jira_datetime("2026-02-03").ok().unwrap(), "2026-02-03T00:00:00.000Z");
    assert_eq!(
        ymd_to_jira_datetime(" 2026-02-30 ").err().unwrap(),
        "Invalid sprint date '2026-02-30'. Expected format: YYYY-MM-DD"
    );
}

#[test]
fn jql_detection_and_search_queries() {
    assert!(looks_like_jql("  Project = ABC "));
    assert!(looks_like_jql("status = Done ORDER BY created"));
    assert!(!looks_like_jql("login page broken"));
    assert_eq!(build_search_jql(None, " project = X "), "project = X");
    assert_eq!(
        build_search_jql(Some("PROJ"), " login bug "),
        "project = PROJ AND summary ~ \"login bug\" ORDER BY updated DESC"
    );
    assert_eq!(
        build_search_jql(None, "say \"hi\""),
        "assignee = currentUser() AND summary ~ \"say \\\"hi\\\"\" ORDER BY updated DESC"
    );
}

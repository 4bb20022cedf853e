use jira_commands::issue_updates::{ProjectVersionUpdateArgs, SprintUpdateArgs};
use jira_commands::model::JsonValue;

fn version_args() -> ProjectVersionUpdateArgs {
    ProjectVersionUpdateArgs {
        create: false,
        set_name: None,
        description: None,
        clear_description: false,
        set_release_date: None,
        clear_release_date: false,
        set_start_date: None,
        clear_start_date: false,
        released: false,
        unreleased: false,
        archived: false,
        unarchived: false,
    }
}

fn sprint_args() -> SprintUpdateArgs {
    SprintUpdateArgs {
        name: None,
        goal: None,
        clear_goal: false,
        start_date: None,
        clear_start_date: false,
        end_date: None,
        clear_end_date: false,
    }
}

fn text(v: &JsonValue) -> String {
    match v {
        JsonValue::Str(s) => s.clone(),
        _ => panic!("not a string"),
    }
}

#[test]
fn version_changes_are_detected() {
    assert!(!version_args().has_changes());
    let mut a = version_args();
    a.unarchived = true;
    assert!(a.has_changes());
    let mut b = version_args();
    b.set_start_date = Some("2026-01-01".to_string());
    assert!(b.has_changes());
}

#[test]
fn version_update_request_reads_every_option() {
    let mut a = version_args();
    a.set_name = Some("  v2.0 ".to_string());
    a.description = Some("   ".to_string());
    a.set_release_date = Some(" 2026-05-01 ".to_string());
    a.clear_start_date = true;
    a.released = true;
    a.unreleased = true;
    a.unarchived = true;
    let r = a.to_request().ok().unwrap();
    assert_eq!(r.name, Some("v2.0".to_string()));
    assert_eq!(r.description, None);
    assert_eq!(r.release_date, Some("2026-05-01".to_string()));
    assert_eq!(r.start_date, Some(String::new()));
    assert_eq!(r.released, Some(true));
    assert_eq!(r.archived, Some(false));

    let mut c = version_args();
    c.clear_description = true;
    c.description = Some("ignored".to_string());
    assert_eq!(c.to_request().ok().unwrap().description, Some(String::new()));
}

#[test]
fn version_dates_are_checked_release_first() {
    let mut a = version_args();
    a.set_release_date = Some("May 1".to_string());
    a.set_start_date = Some("nope".to_string());
    assert_eq!(
        a.to_request().err().unwrap(),
        "Invalid release date 'May 1'. Expected format: YYYY-MM-DD"
    );
    let mut b = version_args();
    b.set_start_date = Some("nope".to_string());
    assert_eq!(
        b.to_create_request("PROJ", "v1").err().unwrap(),
        "Invalid start date 'nope'. Expected format: YYYY-MM-DD"
    );
}

#[test]
fn version_create_request_leaves_cleared_dates_out() {
    let mut a = version_args();
    a.description = Some(" first cut ".to_string());
    a.set_release_date = Some("2026-05-01".to_string());
    a.clear_release_date = true;
    a.set_start_date = Some("2026-04-01".to_string());
    a.archived = true;
    let r = a.to_create_request("PROJ", "  v1.0  ").ok().unwrap();
    assert_eq!(r.name, "v1.0");
    assert_eq!(r.project, "PROJ");
    assert_eq!(r.description, Some("first cut".to_string()));
    assert_eq!(r.release_date, None);
    assert_eq!(r.start_date, Some("2026-04-01".to_string()));
    assert!(r.archived);
    assert!(!r.released);
}

#[test]
fn sprint_changes_are_detected() {
    assert!(!sprint_args().has_changes());
    let mut a = sprint_args();
    a.clear_end_date = true;
    assert!(a.has_changes());
}

#[test]
fn sprint_body_holds_the_changed_entries() {
    let mut a = sprint_args();
    a.name = Some("  Sprint 7 ".to_string());
    a.goal = Some("ship".to_string());
    a.clear_goal = true;
    a.start_date = Some("2026-04-21".to_string());
    a.clear_end_date = true;
    match a.to_request().ok().unwrap() {
        JsonValue::Object(entries) => {
            let keys: Vec<&str> = entries.iter().map(|(k, _)| k.as_str()).collect();
            assert_eq!(keys, vec!["name", "goal", "startDate", "endDate"]);
            assert_eq!(text(&entries[0].1), "Sprint 7");
            assert_eq!(text(&entries[1].1), "");
            assert_eq!(text(&entries[2].1), "2026-04-21T00:00:00.000Z");
            assert_eq!(text(&entries[3].1), "");
        }
        _ => panic!("expected an object"),
    }
    let mut b = sprint_args();
    b.name = Some("   ".to_string());
    b.goal = Some("  ".to_string());
    match b.to_request().ok().unwrap() {
        JsonValue::Object(entries) => assert!(entries.is_empty()),
        _ => panic!("expected an object"),
    }
}

#[test]
fn sprint_dates_are_checked_start_first() {
    let mut a = sprint_args();
    a.start_date = Some("2026/04/21".to_string());
    a.end_date = Some("bad".to_string());
    assert_eq!(
        a.to_request().err().unwrap(),
        "Invalid sprint start date '2026/04/21'. Expected format: YYYY-MM-DD"
    );
    let mut b = sprint_args();
    b.end_date = Some("bad".to_string());
    assert_eq!(
        b.to_request().err().unwrap(),
        "Invalid sprint end date 'bad'. Expected format: YYYY-MM-DD"
    );
}

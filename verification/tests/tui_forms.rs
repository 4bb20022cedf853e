use jira_commands::model::{ProjectVersion, Sprint};
use jira_commands::tui_app::{Focus, Mode};
use jira_commands::tui_layout::{
    contains, footer_hint, footer_layout, footer_status, help_layout, help_sections, notif_label,
    picker_hit_for_bordered, point_in, FooterTone, HelpLayout, Rect,
};
use jira_commands::tui_modal::{Modal, ModalKind};
use jira_commands::tui_submit::{
    bulk_comment_targets, bulk_worklog_confirmation, optional_modal_date, optional_modal_text,
    parse_yes_no_field, submit_form, Submission,
};

fn texts(v: &[&str]) -> Vec<String> {
    v.iter().map(|s| s.to_string()).collect()
}

fn labels(m: &Modal) -> Vec<String> {
    m.fields.iter().map(|f| f.label.clone()).collect()
}

fn sprint() -> Sprint {
    Sprint {
        id: 42,
        name: "Sprint 9".to_string(),
        state: "future".to_string(),
        board_id: Some(3),
        goal: Some("Ship it".to_string()),
        start_date: Some("2024-03-01T09:00:00.000Z".to_string()),
        end_date: None,
        complete_date: None,
    }
}

#[test]
fn forms_are_built_with_their_fields() {
    let m = Modal::edit_issue("PROJ-1".to_string(), "Title".to_string(), "a\nb".to_string());
    assert_eq!(labels(&m), vec!["Summary", "Description (markdown)"]);
    assert_eq!(m.fields[0].initial, vec!["Title".to_string()]);
    assert_eq!(m.fields[1].initial, vec!["a".to_string(), "b".to_string()]);
    assert!(m.fields[1].multiline);
    assert_eq!(m.focus, 0);

    let e = Modal::edit_issue("PROJ-1".to_string(), String::new(), String::new());
    assert_eq!(e.fields[1].initial, vec![String::new()]);

    let w = Modal::add_bulk_worklog("PROJ-2".to_string());
    assert_eq!(w.fields.len(), 6);
    assert_eq!(w.fields[4].label, "Exclude weekends  (y/N)");
    assert_eq!(w.fields[4].placeholder.as_deref(), Some("n"));

    let s = Modal::edit_sprint("PROJ".to_string(), sprint());
    assert_eq!(s.kind.title(), " Edit Sprint: PROJ / Sprint 9 ");
    assert_eq!(s.fields[1].initial, vec!["Ship it".to_string()]);
    assert_eq!(s.fields[2].initial, vec!["2024-03-01".to_string()]);
    assert_eq!(s.fields[3].initial, vec![String::new()]);

    let d = Modal::delete_sprint("PROJ".to_string(), sprint());
    assert_eq!(d.fields[0].placeholder.as_deref(), Some("Sprint 9"));

    let v = ProjectVersion {
        id: "10".to_string(),
        name: "v1".to_string(),
        description: None,
        archived: false,
        released: true,
        release_date: Some("2024-01-02".to_string()),
        start_date: None,
    };
    let pv = Modal::edit_project_version("PROJ".to_string(), v);
    assert_eq!(pv.fields[3].initial, vec!["2024-01-02".to_string()]);
    assert_eq!(pv.fields[4].initial, vec!["y".to_string()]);
    assert_eq!(pv.fields[5].initial, vec!["n".to_string()]);
    let cv = Modal::create_project_version("PROJ".to_string());
    assert_eq!(cv.fields[4].initial, vec!["n".to_string()]);

    let mv = Modal::move_issue("PROJ-3".to_string(), "PROJ".to_string(), "Bug".to_string());
    assert_eq!(mv.fields[1].initial, vec!["Bug".to_string()]);
    assert_eq!(Modal::add_comment("A-1".to_string()).fields.len(), 2);
    assert_eq!(Modal::bulk_comment("project = A".to_string()).fields[0].initial, vec!["project = A".to_string()]);
    assert_eq!(Modal::upload_attachment("A-1".to_string()).fields.len(), 1);
    assert_eq!(Modal::add_worklog("A-1".to_string()).fields.len(), 4);
    assert_eq!(Modal::create_sprint("A".to_string()).fields.len(), 5);
    assert_eq!(Modal::start_sprint("A".to_string(), sprint()).fields[0].initial, vec!["Ship it".to_string()]);
    assert_eq!(Modal::complete_sprint("A".to_string(), sprint()).fields.len(), 2);
    assert_eq!(
        Modal::change_issue_type("A-1".to_string(), "A".to_string(), "Task".to_string()).fields[0].initial,
        vec!["Task".to_string()]
    );
}

#[test]
fn yes_no_fields() {
    assert_eq!(parse_yes_no_field("  ", "Released"), Ok(false));
    assert_eq!(parse_yes_no_field(" YES ", "Released"), Ok(true));
    assert_eq!(parse_yes_no_field("0", "Released"), Ok(false));
    assert_eq!(parse_yes_no_field("True", "Released"), Ok(true));
    assert_eq!(
        parse_yes_no_field(" maybe ", "Archived"),
        Err("Invalid Archived value 'maybe'. Use y/n, yes/no, true/false, or 1/0".to_string())
    );
}

#[test]
fn optional_fields() {
    assert_eq!(optional_modal_text("  "), None);
    assert_eq!(optional_modal_text(" hi "), Some("hi".to_string()));
    assert_eq!(optional_modal_date(" ", "start date"), Ok(None));
    assert_eq!(optional_modal_date(" 2024-02-29 ", "start date"), Ok(Some("2024-02-29".to_string())));
    assert_eq!(
        optional_modal_date("2023-02-29", "start date"),
        Err("Invalid start date '2023-02-29'. Expected format: YYYY-MM-DD".to_string())
    );
}

#[test]
fn submitting_issue_forms() {
    let key = "PROJ-1".to_string();
    match submit_form(&ModalKind::EditIssue { key: key.clone() }, &texts(&["  ", "d"]), &None) {
        Submission::Invalid(m) => assert_eq!(m, "Summary cannot be empty"),
        _ => panic!("expected Invalid"),
    }
    match submit_form(&ModalKind::EditIssue { key: key.clone() }, &texts(&[" New ", " body "]), &None) {
        Submission::EditIssue { key: k, summary, description } => {
            assert_eq!(k, "PROJ-1");
            assert_eq!(summary, "New");
            assert_eq!(description, " body ");
        }
        _ => panic!("expected EditIssue"),
    }
    match submit_form(&ModalKind::AddComment { key: key.clone() }, &texts(&["hello", "  "]), &None) {
        Submission::AddComment { body, attachment, .. } => {
            assert_eq!(body, "hello");
            assert_eq!(attachment, None);
        }
        _ => panic!("expected AddComment"),
    }
    match submit_form(&ModalKind::UploadAttachment { key: key.clone() }, &texts(&[]), &None) {
        Submission::Invalid(m) => assert_eq!(m, "Path cannot be empty"),
        _ => panic!("expected Invalid"),
    }
    match submit_form(&ModalKind::AddWorklog { key: key.clone() }, &texts(&["2h", "", " 09:30 ", "x"]), &None) {
        Submission::AddWorklog { time_spent, date, start, comment, .. } => {
            assert_eq!(time_spent, "2h");
            assert_eq!(date, None);
            assert_eq!(start, Some("09:30".to_string()));
            assert_eq!(comment, Some("x".to_string()));
        }
        _ => panic!("expected AddWorklog"),
    }
    let mv = ModalKind::MoveIssue { key: key.clone(), current_issue_type: "Bug".to_string() };
    match submit_form(&mv, &texts(&[" other ", ""]), &None) {
        Submission::MoveIssue { project, issue_type, .. } => {
            assert_eq!(project, "OTHER");
            assert_eq!(issue_type, "Bug");
        }
        _ => panic!("expected MoveIssue"),
    }
    let ct = ModalKind::ChangeIssueType { key: key.clone(), current_project: "PROJ".to_string() };
    match submit_form(&ct, &texts(&[""]), &None) {
        Submission::Invalid(m) => assert_eq!(m, "Target issue type is required"),
        _ => panic!("expected Invalid"),
    }
    let cs = ModalKind::CreateSprint { project_key: "PROJ".to_string() };
    assert!(matches!(submit_form(&cs, &texts(&["x"]), &None), Submission::NotSubmitted));
}

#[test]
fn bulk_comment_needs_a_second_press() {
    let t = texts(&["", "A-1, A-2 A-1", "note"]);
    let token = match submit_form(&ModalKind::BulkComment, &t, &None) {
        Submission::Confirm { notice, token } => {
            assert_eq!(notice, "Press Ctrl+S again to comment on 2 issue(s)");
            assert_eq!(token, "|A-1,A-2|note");
            token
        }
        _ => panic!("expected Confirm"),
    };
    match submit_form(&ModalKind::BulkComment, &t, &Some(token)) {
        Submission::BulkComment { keys, body } => {
            assert_eq!(keys, vec!["A-1".to_string(), "A-2".to_string()]);
            assert_eq!(body, "note");
        }
        _ => panic!("expected BulkComment"),
    }
    match submit_form(&ModalKind::BulkComment, &texts(&["project = A", "A-1", "n"]), &None) {
        Submission::Invalid(m) => assert_eq!(m, "Use JQL or issue keys, not both"),
        _ => panic!("expected Invalid"),
    }
    match submit_form(&ModalKind::BulkComment, &texts(&["", "", "n"]), &None) {
        Submission::Invalid(m) => assert_eq!(m, "Provide JQL or at least one issue key"),
        _ => panic!("expected Invalid"),
    }
    match submit_form(&ModalKind::BulkComment, &texts(&[" project = A ", "", "n"]), &None) {
        Submission::BulkCommentQuery { jql, body } => {
            assert_eq!(jql, "project = A");
            assert_eq!(body, "n");
        }
        _ => panic!("expected BulkCommentQuery"),
    }
    match bulk_comment_targets("project = A", Vec::new(), "n", &None) {
        Submission::Invalid(m) => assert_eq!(m, "No issues matched the target"),
        _ => panic!("expected Invalid"),
    }
}

#[test]
fn bulk_worklog_plans_days_and_confirms() {
    let kind = ModalKind::AddBulkWorklog { key: "PROJ-1".to_string() };
    let t = texts(&["1h", "2024-03-01", "2024-03-04", "", "y", ""]);
    let plan = match submit_form(&kind, &t, &None) {
        Submission::BulkWorklog(p) => p,
        _ => panic!("expected BulkWorklog"),
    };
    assert_eq!(plan.dates.len(), 2);
    assert!(plan.exclude_weekends);
    match bulk_worklog_confirmation(&plan, &None) {
        Some(Submission::Confirm { notice, token }) => {
            assert_eq!(notice, "Press Ctrl+S again to create 2 worklogs for PROJ-1 (excluding weekends)");
            assert_eq!(token, "PROJ-1|1h|2024-03-01|2024-03-04||true|");
            assert!(bulk_worklog_confirmation(&plan, &Some(token)).is_none());
        }
        _ => panic!("expected Confirm"),
    }
    match submit_form(&kind, &texts(&["1h", "2024-03-02", "2024-03-03", "", "y", ""]), &None) {
        Submission::Invalid(m) => assert_eq!(m, "No worklog dates remain after weekend filtering"),
        _ => panic!("expected Invalid"),
    }
    match submit_form(&kind, &texts(&["1h", "2024-03-05", "2024-03-04", "", "n", ""]), &None) {
        Submission::Invalid(m) => {
            assert_eq!(m, "Invalid range: end date '2024-03-04' is before start date '2024-03-05'")
        }
        _ => panic!("expected Invalid"),
    }
    match submit_form(&kind, &texts(&["1h", "2024-03-05", "", "", "n", ""]), &None) {
        Submission::Invalid(m) => assert_eq!(m, "To date is required (YYYY-MM-DD)"),
        _ => panic!("expected Invalid"),
    }
    match submit_form(&kind, &texts(&["1h", "2024-03-05", "2024-03-06", "", "perhaps", ""]), &None) {
        Submission::Invalid(m) => assert_eq!(
            m,
            "Invalid Exclude weekends value 'perhaps'. Use y/n, yes/no, true/false, or 1/0"
        ),
        _ => panic!("expected Invalid"),
    }
}

#[test]
fn version_forms() {
    let create = ModalKind::CreateProjectVersion { project_key: "PROJ".to_string() };
    match submit_form(&create, &texts(&[" v2 ", "  ", "", "2024-06-01", "n", "yes"]), &None) {
        Submission::CreateProjectVersion(r) => {
            assert_eq!(r.name, "v2");
            assert_eq!(r.project, "PROJ");
            assert_eq!(r.description, None);
            assert_eq!(r.start_date, None);
            assert_eq!(r.release_date, Some("2024-06-01".to_string()));
            assert!(!r.released);
            assert!(r.archived);
        }
        _ => panic!("expected CreateProjectVersion"),
    }
    match submit_form(&create, &texts(&["v2", "", "06/01/2024"]), &None) {
        Submission::Invalid(m) => {
            assert_eq!(m, "Invalid start date '06/01/2024'. Expected format: YYYY-MM-DD")
        }
        _ => panic!("expected Invalid"),
    }
    let edit = ModalKind::EditProjectVersion {
        project_key: "PROJ".to_string(),
        version_id: "77".to_string(),
        version_name: "v1".to_string(),
    };
    match submit_form(&edit, &texts(&["v1", " d ", "", "", "y", "n"]), &None) {
        Submission::EditProjectVersion { version_id, request } => {
            assert_eq!(version_id, "77");
            assert_eq!(request.name, Some("v1".to_string()));
            assert_eq!(request.description, Some("d".to_string()));
            assert_eq!(request.start_date, Some(String::new()));
            assert_eq!(request.released, Some(true));
            assert_eq!(request.archived, Some(false));
        }
        _ => panic!("expected EditProjectVersion"),
    }
    match submit_form(&edit, &texts(&[" "]), &None) {
        Submission::Invalid(m) => assert_eq!(m, "Version name is required"),
        _ => panic!("expected Invalid"),
    }
}

#[test]
fn clicks_and_picker_rows() {
    let r = Rect { x: 2, y: 3, width: 4, height: 2 };
    assert!(contains(&r, 2, 3));
    assert!(contains(&r, 5, 4));
    assert!(!contains(&r, 6, 4));
    assert!(!point_in(None, 2, 3));
    assert!(point_in(Some(r), 3, 3));
    let hit = picker_hit_for_bordered(Rect { x: 0, y: 10, width: 20, height: 6 }, 5, 8);
    assert_eq!(hit.area, Rect { x: 1, y: 11, width: 18, height: 4 });
    assert_eq!(hit.row_to_index(10), None);
    assert_eq!(hit.row_to_index(11), Some(5));
    assert_eq!(hit.row_to_index(13), Some(7));
    assert_eq!(hit.row_to_index(14), None);
    let edge = picker_hit_for_bordered(Rect { x: u16::MAX, y: 0, width: 1, height: 1 }, 0, 1);
    assert_eq!(edge.area, Rect { x: u16::MAX, y: 1, width: 0, height: 0 });
}

#[test]
fn footer_texts_and_buttons() {
    assert_eq!(footer_hint(Mode::Help, Focus::List), " Any key: close");
    assert_eq!(footer_hint(Mode::BoardPicker, Focus::List), " Esc:back");
    assert!(footer_hint(Mode::Browse, Focus::Detail).starts_with(" ↑/↓:scroll"));
    assert_eq!(footer_status(&None), None);
    assert_eq!(
        footer_status(&Some(("boom".to_string(), true))),
        Some((" ✗ boom".to_string(), FooterTone::Error))
    );
    assert_eq!(
        footer_status(&Some(("Update available: 2.0".to_string(), false))),
        Some((" Update available: 2.0".to_string(), FooterTone::Update))
    );
    assert_eq!(
        footer_status(&Some(("ok".to_string(), false))),
        Some((" ok".to_string(), FooterTone::Info))
    );
    assert_eq!(notif_label(12), " [🔔 12] ");
    let area = Rect { x: 0, y: 30, width: 80, height: 1 };
    let l = footer_layout(area, 12);
    assert_eq!(l.help, Rect { x: 75, y: 30, width: 5, height: 1 });
    assert_eq!(l.notif, Some(Rect { x: 66, y: 30, width: 9, height: 1 }));
    assert_eq!(l.text.width, 66);
    let quiet = footer_layout(area, 0);
    assert_eq!(quiet.notif, None);
    assert_eq!(quiet.text.width, 75);
}

#[test]
fn help_popup_layouts() {
    let sections = help_sections();
    let lens: Vec<u16> = sections.iter().map(|s| s.len() as u16).collect();
    assert_eq!(lens, vec![33, 5, 10]);
    assert_eq!(sections[2][0], "Mouse:");
    // 2 + 33 + 5 + 10 + 2 blank separators + blank + hint = 54 lines.
    assert_eq!(help_layout(2, &lens, 60, 7), HelpLayout::OneColumn { scroll: 0, scrolls: false });
    assert_eq!(help_layout(2, &lens, 40, 0), HelpLayout::TwoColumns { split_at: 1 });
    assert_eq!(help_layout(2, &lens, 20, 100), HelpLayout::OneColumn { scroll: 34, scrolls: true });
    assert_eq!(help_layout(2, &lens, 20, 3), HelpLayout::OneColumn { scroll: 3, scrolls: true });
}

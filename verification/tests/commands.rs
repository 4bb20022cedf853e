use jira_commands::api::{failure_context, request, ApiCommand};
use jira_commands::board::{board_details, board_issue_row, board_issues_label, board_row, Board};
use jira_commands::model::{Issue, JsonValue};
use jira_commands::plan::{plan_heading_line, plan_row};

fn obj(entries: Vec<(&str, JsonValue)>) -> JsonValue {
    JsonValue::Object(entries.into_iter().map(|(k, v)| (k.to_string(), v)).collect())
}

#[test]
fn api_commands_become_requests() {
    let r = request(ApiCommand::Post { path: "/rest/api/3/issue".to_string(), body: Some("{}".to_string()) });
    assert_eq!(r.method, "POST");
    assert_eq!(r.path, "/rest/api/3/issue");
    assert_eq!(r.body, Some("{}".to_string()));
    let g = request(ApiCommand::Get { path: "/rest/api/3/myself".to_string() });
    assert_eq!(g.method, "GET");
    assert_eq!(g.body, None);
    assert_eq!(request(ApiCommand::Delete { path: "/x".to_string() }).method, "DELETE");
    assert_eq!(failure_context("GET", "/x"), "GET /x failed");
}

#[test]
fn board_lines() {
    let b = Board {
        id: 42,
        name: "Team board".to_string(),
        board_type: "scrum".to_string(),
        project_key: None,
        project_id: Some(10001),
        self_url: String::new(),
    };
    assert_eq!(board_row(&b), "42       scrum      -          Team board");
    assert_eq!(
        board_details(&b),
        vec!["ID:           42", "Name:         Team board", "Type:         scrum", "Project ID:   10001"]
    );
    assert_eq!(board_issues_label(true), "backlog");
    let issue = Issue {
        id: "1".to_string(),
        key: "P-1".to_string(),
        summary: "Fix".to_string(),
        description: None,
        status: "To Do".to_string(),
        assignee: None,
        reporter: None,
        priority: None,
        issue_type: "Task".to_string(),
        project_key: "P".to_string(),
        created: String::new(),
        updated: String::new(),
        fields: obj(vec![]),
    };
    assert_eq!(board_issue_row(&issue), "P-1            To Do          Fix");
}

#[test]
fn plan_rows() {
    let p = obj(vec![
        ("id", JsonValue::Number("7".to_string())),
        ("title", JsonValue::Str("Roadmap".to_string())),
        ("status", JsonValue::Str("ACTIVE".to_string())),
    ]);
    assert_eq!(plan_row(&p), format!("{:<8} {:<40} {}", 7, "Roadmap", "ACTIVE"));
    let q = obj(vec![("name", JsonValue::Str("Other".to_string()))]);
    assert_eq!(plan_row(&q), format!("{:<8} {:<40} {}", 0, "Other", "—"));
    let r = obj(vec![("title", JsonValue::Bool(true)), ("name", JsonValue::Str("x".to_string()))]);
    assert_eq!(plan_row(&r), format!("{:<8} {:<40} {}", 0, "—", "—"));
    assert_eq!(plan_heading_line(), format!("{:<8} {:<40} STATUS", "ID", "NAME"));
}

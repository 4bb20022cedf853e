use jira_commands::manifest::{
    batch_report_lines, bulk_entry, bulk_report_lines, created_line, failed, failed_line,
    find_transition, manifest_op, skipped, succeeded, transitioned_status, ManifestOp,
    TransitionChoice,
};
use jira_commands::model::JsonValue;

fn s(x: &str) -> JsonValue {
    JsonValue::Str(x.to_string())
}

fn obj(entries: Vec<(&str, JsonValue)>) -> JsonValue {
    JsonValue::Object(entries.into_iter().map(|(k, v)| (k.to_string(), v)).collect())
}

#[test]
fn create_entries_fill_defaults() {
    let e = obj(vec![
        ("op", s("create")),
        ("project", s("PROJ")),
        ("summary", s("Fix login")),
        ("labels", JsonValue::Array(vec![s("a"), JsonValue::Null, s("b")])),
        ("fields", obj(vec![("customfield_1", JsonValue::Number("3".to_string()))])),
    ]);
    let (name, op) = manifest_op(&e);
    assert_eq!(name, "create");
    match op {
        ManifestOp::Create(d) => {
            assert_eq!(d.project_key, "PROJ");
            assert_eq!(d.summary, "Fix login");
            assert_eq!(d.issue_type, "Task");
            assert_eq!(d.labels, vec!["a", "b"]);
            assert!(d.components.is_empty());
            assert_eq!(d.assignee, None);
            assert_eq!(d.custom_fields.len(), 1);
            assert_eq!(d.custom_fields[0].0, "customfield_1");
        }
        _ => panic!("expected a create"),
    }
    let (_, op) = manifest_op(&obj(vec![("op", s("create")), ("type", s("Bug"))]));
    match op {
        ManifestOp::Create(d) => {
            assert_eq!(d.project_key, "");
            assert_eq!(d.summary, "");
            assert_eq!(d.issue_type, "Bug");
        }
        _ => panic!("expected a create"),
    }
}

#[test]
fn other_operations_are_read() {
    let (_, op) = manifest_op(&obj(vec![
        ("op", s("update")),
        ("key", s("P-1")),
        ("priority", s("High")),
        ("components", JsonValue::Array(vec![])),
    ]));
    match op {
        ManifestOp::Update { key, changes } => {
            assert_eq!(key, "P-1");
            assert_eq!(changes.priority, Some("High".to_string()));
            assert_eq!(changes.summary, None);
            assert_eq!(changes.labels, None);
            assert_eq!(changes.components, Some(vec![]));
        }
        _ => panic!("expected an update"),
    }
    match manifest_op(&obj(vec![("op", s("transition")), ("key", s("P-2")), ("to", s("Done"))])).1 {
        ManifestOp::Transition { key, to } => {
            assert_eq!(key, "P-2");
            assert_eq!(to, "Done");
        }
        _ => panic!("expected a transition"),
    }
    match manifest_op(&obj(vec![("op", s("archive"))])).1 {
        ManifestOp::Archive { key } => assert_eq!(key, ""),
        _ => panic!("expected an archive"),
    }
    let (name, op) = manifest_op(&obj(vec![("key", s("P-3"))]));
    assert_eq!(name, "unknown");
    assert!(matches!(op, ManifestOp::Unknown));
    let (name, op) = manifest_op(&obj(vec![("op", s("delete"))]));
    assert_eq!(name, "delete");
    assert!(matches!(op, ManifestOp::Unknown));
}

#[test]
fn transitions_match_id_or_name_in_any_case() {
    let ts = vec![
        TransitionChoice { id: "11".to_string(), name: "To Do".to_string() },
        TransitionChoice { id: "21".to_string(), name: "In Progress".to_string() },
        TransitionChoice { id: "31".to_string(), name: "DONE".to_string() },
    ];
    assert_eq!(find_transition(&ts, "21"), Ok("21".to_string()));
    assert_eq!(find_transition(&ts, "done"), Ok("31".to_string()));
    assert_eq!(find_transition(&ts, "in progress"), Ok("21".to_string()));
    assert_eq!(find_transition(&ts, "Review"), Err("Transition 'Review' not found".to_string()));
}

#[test]
fn batch_report_counts_operations_without_errors() {
    let results = vec![
        succeeded("create", "P-9", "created"),
        failed("update", "P-1", "HTTP 400".to_string()),
        skipped("delete"),
        succeeded("transition", "P-2", &transitioned_status("Done")),
    ];
    assert_eq!(
        batch_report_lines(&results),
        vec![
            "✓ 2/4 operations completed",
            "  ✓ create P-9: created",
            "  ✗ update P-1: HTTP 400",
            "  ✗ delete: Unknown op: 'delete'",
            "  ✓ transition P-2: transitioned to 'Done'",
        ]
    );
    assert_eq!(batch_report_lines(&vec![]), vec!["✓ 0/0 operations completed"]);
}

#[test]
fn bulk_entries_need_project_and_summary() {
    assert_eq!(
        bulk_entry(&obj(vec![("summary", s("x"))])).err().unwrap(),
        "Each manifest entry must have a \"project\" field"
    );
    assert_eq!(
        bulk_entry(&obj(vec![("project", s("P"))])).err().unwrap(),
        "Each manifest entry must have a \"summary\" field"
    );
    let d = bulk_entry(&obj(vec![("project", s("P")), ("summary", s("x")), ("parent", s("P-1"))])).ok().unwrap();
    assert_eq!(d.project_key, "P");
    assert_eq!(d.parent, Some("P-1".to_string()));
}

#[test]
fn bulk_report_lists_created_and_failed() {
    let created = vec![created_line("P-1", "One")];
    let failures = vec![failed_line("Two", "HTTP 500")];
    assert_eq!(
        bulk_report_lines(&created, &failures, 2),
        vec!["✓ Created 1/2 issues:", "  P-1 — One", "✗ Failed (1):", "  \"Two\" failed: HTTP 500"]
    );
    assert_eq!(bulk_report_lines(&vec![], &vec![], 0), vec!["✓ Created 0/0 issues:"]);
}

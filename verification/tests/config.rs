use jira_commands::config::{confirmation, handle, show_lines, ConfigAction, ConfigCommand};

fn set(key: &str, value: &str) -> ConfigCommand {
    ConfigCommand::SetValue { key: key.to_string(), value: value.to_string() }
}

#[test]
fn limit_is_parsed_trimmed_and_zero_clears_it() {
    assert_eq!(handle(set("default_issue_limit", " 100 ")), Ok(ConfigAction::SetIssueLimit(Some(100))));
    assert_eq!(handle(set("default_issue_limit", "0")), Ok(ConfigAction::SetIssueLimit(None)));
    assert_eq!(handle(set("default_issue_limit", "+7")), Ok(ConfigAction::SetIssueLimit(Some(7))));
    assert_eq!(
        handle(set("default_issue_limit", "4294967295")),
        Ok(ConfigAction::SetIssueLimit(Some(4294967295)))
    );
}

#[test]
fn bad_limits_and_keys_are_refused() {
    let bad = "`default_issue_limit` must be a non-negative integer".to_string();
    assert_eq!(handle(set("default_issue_limit", "-1")), Err(bad.clone()));
    assert_eq!(handle(set("default_issue_limit", "4294967296")), Err(bad.clone()));
    assert_eq!(handle(set("default_issue_limit", "")), Err(bad.clone()));
    assert_eq!(handle(set("default_issue_limit", "1e3")), Err(bad));
    assert_eq!(
        handle(set("theme", "dark")),
        Err("unsupported config key `theme`. Supported: default_issue_limit".to_string())
    );
    assert_eq!(
        handle(ConfigCommand::Unset { key: "x".to_string() }),
        Err("unsupported config key `x`. Supported: default_issue_limit".to_string())
    );
    assert_eq!(
        handle(ConfigCommand::Unset { key: "default_issue_limit".to_string() }),
        Ok(ConfigAction::RemoveIssueLimit)
    );
    assert_eq!(handle(ConfigCommand::Show), Ok(ConfigAction::Show));
}

#[test]
fn confirmations_and_show_lines() {
    assert_eq!(confirmation(ConfigAction::SetIssueLimit(Some(25))), "✓ default_issue_limit = 25");
    assert_eq!(
        confirmation(ConfigAction::SetIssueLimit(None)),
        "✓ default_issue_limit cleared (will fetch all issues)"
    );
    assert_eq!(
        confirmation(ConfigAction::RemoveIssueLimit),
        "✓ default_issue_limit removed (will fetch all issues)"
    );
    assert_eq!(
        show_lines(&None, "", &None, None),
        vec![
            "Profile:        default",
            "Base URL:       (not set)",
            "Project:        (not set)",
            "default_issue_limit: unset (fetch all)",
        ]
    );
    assert_eq!(
        show_lines(&Some("work".to_string()), "https://x.atlassian.net", &Some("PROJ".to_string()), Some(50)),
        vec![
            "Profile:        work",
            "Base URL:       https://x.atlassian.net",
            "Project:        PROJ",
            "default_issue_limit: 50",
        ]
    );
}

use jira_commands::version_check::{
    cli_message, compare_versions, is_newer, normalize_version, parse_version, tui_message,
    update_notice_for_release, UpdateNotice, CURRENT_VERSION,
};

#[test]
fn cli_message_mentions_upgrade_path_and_release_url() {
    let notice = UpdateNotice {
        latest: "0.23.0".into(),
        url: "https://github.com/mulhamna/jira-commands/releases/tag/v0.23.0".into(),
    };

    let message = cli_message(&notice);

    assert!(message.contains("update available: jirac"));
    assert!(message.contains("-> 0.23.0"));
    assert!(message.contains("/releases/tag/v0.23.0"));
}

#[test]
fn tui_message_mentions_upgrade_path_and_release_url() {
    let notice = UpdateNotice {
        latest: "0.23.0".into(),
        url: "https://github.com/mulhamna/jira-commands/releases/tag/v0.23.0".into(),
    };

    let message = tui_message(&notice);

    assert!(message.contains("Update available: jirac"));
    assert!(message.contains("→ 0.23.0"));
    assert!(message.contains("/releases/tag/v0.23.0"));
}

#[test]
fn compares_versions_numerically() {
    assert!(is_newer("0.22.1", "0.22.0"));
    assert!(is_newer("0.23.0", "0.22.9"));
    assert!(!is_newer("0.22.0", "0.22.0"));
    assert!(!is_newer("0.21.9", "0.22.0"));
    assert!(is_newer("v1.2.0", "1.1.9"));
}

#[test]
fn version_parts_read_non_numbers_as_zero() {
    assert_eq!(parse_version(" v1.x.3 "), vec![1, 0, 3]);
    assert_eq!(parse_version("2..+4"), vec![2, 0, 4]);
    assert_eq!(parse_version(""), vec![0]);
    assert_eq!(parse_version("18446744073709551616"), vec![0]);
    assert_eq!(normalize_version("  vv0.9 "), "0.9");
}

#[test]
fn longer_versions_are_newer_on_ties() {
    assert_eq!(compare_versions("1.2", "1.2.0"), std::cmp::Ordering::Less);
    assert_eq!(compare_versions("1.10", "1.9"), std::cmp::Ordering::Greater);
    assert_eq!(compare_versions("v2", "2"), std::cmp::Ordering::Equal);
}

#[test]
fn full_messages_have_expected_shape() {
    let notice = UpdateNotice {
        latest: "9.0.0".into(),
        url: "https://x/r".into(),
    };
    assert_eq!(
        cli_message(&notice),
        format!("update available: jirac {CURRENT_VERSION} -> 9.0.0 (https://x/r)")
    );
    assert_eq!(
        tui_message(&notice),
        format!("Update available: jirac {CURRENT_VERSION} → 9.0.0  (release: https://x/r)")
    );
}

#[test]
fn notice_only_for_newer_releases() {
    let newer = update_notice_for_release(" v99.0.0 ", "https://x/r").unwrap();
    assert_eq!(newer.latest, "99.0.0");
    assert_eq!(newer.url, "https://x/r");
    assert!(update_notice_for_release(CURRENT_VERSION, "https://x/r").is_none());
    assert!(update_notice_for_release("v0.0.1", "https://x/r").is_none());
}

#[test]
fn versions_compare_as_numbers_and_ignore_a_leading_v() {
    assert_eq!(compare_versions("0.10.0", "0.9.0"), std::cmp::Ordering::Greater);
    assert_eq!(compare_versions("0.9.0", "0.10.0"), std::cmp::Ordering::Less);
    assert_eq!(compare_versions("v1.2.0", "1.2.0"), std::cmp::Ordering::Equal);
    assert_eq!(compare_versions("1.2.0", "1.2.0"), std::cmp::Ordering::Equal);
}

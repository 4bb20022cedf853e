use jira_commands::auth::{
    auth_type_from_arg, auth_type_label, default_auth_type, deployment_from_arg,
    deployment_label, derive_profile_name, infer_deployment, normalize_optional, AuthTypeArg,
    DeploymentArg, JiraAuthType, JiraDeployment,
};

#[test]
fn deployment_is_inferred_from_the_url() {
    assert!(infer_deployment("https://acme.atlassian.net") == JiraDeployment::Cloud);
    assert!(infer_deployment("https://jira.acme.com") == JiraDeployment::DataCenter);
    assert!(default_auth_type(JiraDeployment::Cloud) == JiraAuthType::CloudApiToken);
    assert!(default_auth_type(JiraDeployment::DataCenter) == JiraAuthType::DataCenterPat);
}

#[test]
fn arguments_map_to_settings_and_labels() {
    assert!(deployment_from_arg(DeploymentArg::Datacenter) == JiraDeployment::DataCenter);
    assert!(auth_type_from_arg(AuthTypeArg::DatacenterBasic) == JiraAuthType::DataCenterBasic);
    assert_eq!(deployment_label(JiraDeployment::DataCenter), "Data Center");
    assert_eq!(auth_type_label(JiraAuthType::CloudApiToken), "Cloud API token");
    assert_eq!(auth_type_label(JiraAuthType::DataCenterPat), "Data Center PAT");
}

#[test]
fn optional_answers_are_trimmed() {
    assert_eq!(normalize_optional("  PROJ ".to_string()), Some("PROJ".to_string()));
    assert_eq!(normalize_optional("   ".to_string()), None);
}

#[test]
fn profile_names_come_from_host_and_user() {
    assert_eq!(
        derive_profile_name("https://acme.atlassian.net/jira", "jane.doe+x@acme.com"),
        "acme.atlassian.net-jane-doe-x"
    );
    assert_eq!(derive_profile_name("http://localhost:8080", "  "), "localhost-8080");
    assert_eq!(derive_profile_name("https://https://host", "a_b"), "host-a_b");
}

use jira_commands::auth::{
    apply_update, auth_type_choices, auth_type_from_choice, deployment_choices,
    deployment_from_choice, handle, login_auth_type, login_deployment, login_profile_name,
    profile_line, AuthCommand, ProfileSettings, ProfileUpdate,
};

fn settings() -> ProfileSettings {
    ProfileSettings {
        base_url: "https://old.example".to_string(),
        email: "old@example.com".to_string(),
        token: None,
        project: Some("OLD".to_string()),
        timeout_secs: 30,
        deployment: JiraDeployment::Cloud,
        auth_type: JiraAuthType::CloudApiToken,
        api_version: 3,
    }
}

fn no_update() -> ProfileUpdate {
    ProfileUpdate {
        url: None,
        email: None,
        token: None,
        project: None,
        timeout_secs: None,
        deployment: None,
        auth_type: None,
    }
}

#[test]
fn empty_updates_are_refused() {
    let empty = AuthCommand::Update {
        profile: Some("work".to_string()),
        url: None,
        email: None,
        token: None,
        project: None,
        timeout_secs: None,
        deployment: None,
        auth_type: None,
    };
    assert_eq!(
        handle(empty).err().unwrap(),
        "Nothing to update. Use --url, --email, --token, --project, --timeout-secs, --deployment, or --auth-type."
    );
    assert!(handle(AuthCommand::Profiles).is_ok());
    let with_token = AuthCommand::Update {
        profile: None,
        url: None,
        email: None,
        token: Some("t".to_string()),
        project: None,
        timeout_secs: None,
        deployment: None,
        auth_type: None,
    };
    assert!(handle(with_token).is_ok());
}

#[test]
fn updates_trim_and_move_the_auth_mode() {
    let mut u = no_update();
    u.url = Some("  https://jira.corp  ".to_string());
    u.project = Some("   ".to_string());
    u.deployment = Some(DeploymentArg::Datacenter);
    let s = apply_update(settings(), u);
    assert_eq!(s.base_url, "https://jira.corp");
    assert_eq!(s.project, None);
    assert!(s.deployment == JiraDeployment::DataCenter);
    assert!(s.auth_type == JiraAuthType::DataCenterPat);
    assert_eq!(s.api_version, 0);
    assert_eq!(s.email, "old@example.com");

    let mut v = no_update();
    v.deployment = Some(DeploymentArg::Datacenter);
    v.auth_type = Some(AuthTypeArg::DatacenterBasic);
    v.timeout_secs = Some(90);
    let t = apply_update(settings(), v);
    assert!(t.auth_type == JiraAuthType::DataCenterBasic);
    assert_eq!(t.timeout_secs, 90);

    let kept = apply_update(settings(), no_update());
    assert_eq!(kept.api_version, 3);
    assert_eq!(kept.project, Some("OLD".to_string()));
}

#[test]
fn login_defaults_and_choices() {
    let (d, ask) = login_deployment(None, "https://acme.atlassian.net");
    assert!(d == JiraDeployment::Cloud && ask);
    let (d2, ask2) = login_deployment(Some(DeploymentArg::Datacenter), "https://acme.atlassian.net");
    assert!(d2 == JiraDeployment::DataCenter && !ask2);
    let (a, ask3) = login_auth_type(None, JiraDeployment::DataCenter);
    assert!(a == JiraAuthType::DataCenterPat && ask3);
    let (opts, cursor) = deployment_choices(JiraDeployment::DataCenter);
    assert_eq!(opts, vec!["Cloud", "Data Center"]);
    assert_eq!(cursor, 1);
    let (aopts, acursor) = auth_type_choices(JiraDeployment::DataCenter, JiraAuthType::DataCenterBasic);
    assert_eq!(aopts, vec!["Data Center PAT", "Data Center basic"]);
    assert_eq!(acursor, 1);
    assert!(deployment_from_choice("Cloud") == JiraDeployment::Cloud);
    assert!(deployment_from_choice("other") == JiraDeployment::DataCenter);
    assert!(auth_type_from_choice("Data Center basic") == JiraAuthType::DataCenterBasic);
    assert!(auth_type_from_choice("???") == JiraAuthType::DataCenterPat);
    assert_eq!(login_profile_name(Some(" ".to_string()), "https://h.example", ""), "h.example");
    assert_eq!(login_profile_name(Some("mine".to_string()), "https://h.example", ""), "mine");
}

#[test]
fn profile_lines_mark_the_active_one() {
    assert_eq!(
        profile_line("work", true, JiraDeployment::Cloud, JiraAuthType::CloudApiToken, 3, "me@x.com"),
        "* work — Cloud · Cloud API token · api v3 [me@x.com]"
    );
    assert_eq!(
        profile_line("dc", false, JiraDeployment::DataCenter, JiraAuthType::DataCenterPat, 2, "  "),
        "  dc — Data Center · Data Center PAT · api v2"
    );
}

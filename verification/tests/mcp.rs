use jira_commands::interactive::{is_non_interactive, non_interactive_setting, require_interactive};
use jira_commands::mcp::{
    auth_check, auth_line, doctor_verdict, handle, install_message, install_spec,
    missing_command_warning, needs_path_lookup, picker_clients, prerequisites_verdict,
    resolve_command_for_client, server_args, AuthCheck, HarnessId, McpClient, McpCommand, McpStep,
};

#[test]
fn existing_client_names_map_to_kurir_harnesses() {
    assert_eq!(McpClient::ClaudeCode.harness(), HarnessId::ClaudeCode);
    assert_eq!(McpClient::Codex.harness(), HarnessId::Codex);
    assert_eq!(McpClient::AntigravityDesktop.harness(), HarnessId::AntigravityDesktop);
    assert_eq!(McpClient::GenericJson.harness(), HarnessId::Omp);
}

#[test]
fn resolve_command_for_file_clients_rejects_missing_binary() {
    let err = resolve_command_for_client(
        McpClient::AntigravityCli,
        "definitely-not-a-real-binary",
        None,
        false,
    )
    .err()
    .expect("missing binary");
    assert!(err.contains("cargo install jira-mcp"));
}

#[test]
fn install_spec_runs_the_server_with_the_requested_transport() {
    let spec = install_spec("jira", "/tmp/jirac-mcp".to_string(), "streamable-http");
    assert_eq!(spec.name, "jira");
    assert_eq!(spec.command, "/tmp/jirac-mcp");
    assert_eq!(spec.args, vec!["serve", "--transport", "streamable-http"]);
    assert_eq!(server_args("stdio"), vec!["serve", "--transport", "stdio"]);
}

#[test]
fn snippet_clients_keep_the_command_as_given() {
    assert!(!needs_path_lookup(McpClient::GenericJson));
    assert!(needs_path_lookup(McpClient::Cursor));
    let r = resolve_command_for_client(McpClient::GenericJson, "jirac-mcp", None, false)
        .ok()
        .unwrap();
    assert_eq!(r.command, "jirac-mcp");
    assert!(!r.warn_missing);
}

#[test]
fn found_path_wins_and_dry_run_keeps_missing_command() {
    let found = resolve_command_for_client(
        McpClient::Cursor,
        "jirac-mcp",
        Some("/usr/local/bin/jirac-mcp".to_string()),
        false,
    )
    .ok()
    .unwrap();
    assert_eq!(found.command, "/usr/local/bin/jirac-mcp");
    assert!(!found.warn_missing);
    let dry = resolve_command_for_client(McpClient::Cursor, "jirac-mcp", None, true)
        .ok()
        .unwrap();
    assert_eq!(dry.command, "jirac-mcp");
    assert!(dry.warn_missing);
    let err = resolve_command_for_client(McpClient::Zed, "x-mcp", None, false)
        .err()
        .unwrap();
    assert_eq!(
        err,
        "MCP server command 'x-mcp' was not found on PATH. Install it first:\n  cargo install jira-mcp\n  # or download `jirac-mcp` from https://github.com/mulhamna/jira-commands/releases\n  # or pass --command /path/to/jirac-mcp"
    );
    assert!(missing_command_warning("x-mcp").starts_with("[warn] MCP server command 'x-mcp' was not found on PATH.\n"));
}

#[test]
fn install_without_client_needs_a_terminal() {
    let cmd = || McpCommand::Install {
        client: None,
        name: "jira".to_string(),
        command: "jirac-mcp".to_string(),
        transport: "stdio".to_string(),
        print: false,
        dry_run: false,
        force: false,
    };
    let err = handle(cmd(), Some(true)).err().unwrap();
    assert_eq!(
        err,
        "cannot prompt for MCP client: no interactive terminal. Pass --client <target> instead (or run without --non-interactive on a terminal)."
    );
    assert!(matches!(handle(cmd(), Some(false)), Ok(McpStep::PickThenInstall { .. })));
    assert!(matches!(handle(cmd(), None), Ok(McpStep::PickThenInstall { .. })));
    let with_client = McpCommand::Install {
        client: Some(McpClient::Cursor),
        name: "jira".to_string(),
        command: "jirac-mcp".to_string(),
        transport: "stdio".to_string(),
        print: true,
        dry_run: false,
        force: true,
    };
    match handle(with_client, Some(true)) {
        Ok(McpStep::Install { client, name, print, force, .. }) => {
            assert_eq!(client, McpClient::Cursor);
            assert_eq!(name, "jira");
            assert!(print && force);
        }
        _ => panic!("expected an install step"),
    }
    let doctor = McpCommand::Doctor { client: None, command: "jirac-mcp".to_string() };
    assert!(matches!(handle(doctor, Some(true)), Ok(McpStep::Doctor { client: None, .. })));
}

#[test]
fn interactive_setting_and_guard() {
    assert!(non_interactive_setting(true, false, true));
    assert!(non_interactive_setting(false, true, true));
    assert!(non_interactive_setting(false, false, false));
    assert!(!non_interactive_setting(false, false, true));
    assert!(!is_non_interactive(None));
    assert!(is_non_interactive(Some(true)));
    assert!(require_interactive(Some(false), "x", "--x").is_ok());
    assert_eq!(
        require_interactive(Some(true), "issue key", "--key <KEY>").err().unwrap(),
        "cannot prompt for issue key: no interactive terminal. Pass --key <KEY> instead (or run without --non-interactive on a terminal)."
    );
}

#[test]
fn picker_lists_every_client_once() {
    let clients = picker_clients();
    assert_eq!(clients.len(), 16);
    assert_eq!(clients[4], McpClient::Codex);
    assert_eq!(clients[5], McpClient::GeminiCli);
    assert_eq!(clients[15], McpClient::GenericJson);
}

#[test]
fn install_messages_follow_the_registration_answer() {
    assert_eq!(
        install_message("jira", "cursor", true, "written", false),
        Some("Installed MCP entry 'jira' via Kurir for cursor".to_string())
    );
    assert_eq!(
        install_message("jira", "cursor", false, "already-configured", false),
        Some("MCP entry 'jira' already configured via Kurir".to_string())
    );
    assert_eq!(
        install_message("jira", "cursor", false, "dry-run", true),
        Some("Dry run, no client config written via Kurir.".to_string())
    );
    assert_eq!(install_message("jira", "cursor", false, "dry-run", false), None);
}

#[test]
fn credentials_are_checked_in_order() {
    assert_eq!(auth_check("  ", true, true, "a@b"), AuthCheck::MissingUrl);
    assert_eq!(auth_check("https://x", false, true, ""), AuthCheck::MissingToken);
    assert_eq!(auth_check("https://x", true, true, " "), AuthCheck::MissingIdentity);
    assert_eq!(auth_check("https://x", true, false, ""), AuthCheck::Present);
    assert_eq!(auth_line(AuthCheck::Present), "[ok] Jira auth config present");
    assert_eq!(
        auth_line(AuthCheck::MissingToken),
        "[warn] Jira token not configured. Run `jirac auth login`."
    );
}

#[test]
fn prerequisites_and_doctor_verdicts() {
    let e = prerequisites_verdict(false, "jirac-mcp", AuthCheck::Present).err().unwrap();
    assert!(e.starts_with("MCP server binary 'jirac-mcp' not found on PATH."));
    let e = prerequisites_verdict(true, "jirac-mcp", AuthCheck::MissingUrl).err().unwrap();
    assert!(e.starts_with("Jira credentials not configured."));
    assert!(prerequisites_verdict(true, "jirac-mcp", AuthCheck::Present).is_ok());
    assert!(doctor_verdict(&vec![true, true]).is_ok());
    assert!(doctor_verdict(&vec![]).is_ok());
    assert_eq!(
        doctor_verdict(&vec![false, true, false]).err().unwrap(),
        "MCP doctor found 2 blocking issue(s)"
    );
}

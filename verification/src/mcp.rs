//! `jirac mcp`: the choices made when installing the MCP server into a client's
//! configuration and when checking that an install can work.
//!
//! Looking a command up on `PATH`, reading the Jira configuration, prompting and
//! writing client configuration files happen in the caller; the functions here
//! decide from what those steps found.
use vstd::prelude::*;

use crate::interactive::{refusal_text, require_interactive};
use crate::text::{chars_of, push_decimal, push_str, decimal, trim, trim_bounds, views};

verus! {

/// The MCP clients `jirac mcp install --client` accepts.
#[derive(Clone, Copy, Debug, PartialEq, Eq, Structural)]
pub enum McpClient {
    ClaudeCode,
    ClaudeCodeCli,
    ClaudeDesktop,
    Cursor,
    GeminiCli,
    Codex,
    Vscode,
    CopilotCli,
    OpenCode,
    Windsurf,
    Zed,
    OpenClaw,
    Hermes,
    AntigravityCli,
    AntigravityDesktop,
    GenericJson,
}

/// The registration targets of the MCP registration library that the clients map to.
#[derive(Clone, Copy, Debug, PartialEq, Eq, Structural)]
pub enum HarnessId {
    ClaudeCode,
    ClaudeCodeCli,
    ClaudeDesktop,
    Cursor,
    GeminiCli,
    Codex,
    Vscode,
    CopilotCli,
    OpenCode,
    Windsurf,
    Zed,
    OpenClaw,
    Hermes,
    AntigravityCli,
    AntigravityDesktop,
    Omp,
}

/// The registration target of each client: the same name, except that
/// `generic-json` prints a snippet through `Omp`.
pub open spec fn harness_of(c: McpClient) -> HarnessId {
    match c {
        McpClient::ClaudeCode => HarnessId::ClaudeCode,
        McpClient::ClaudeCodeCli => HarnessId::ClaudeCodeCli,
        McpClient::ClaudeDesktop => HarnessId::ClaudeDesktop,
        McpClient::Cursor => HarnessId::Cursor,
        McpClient::GeminiCli => HarnessId::GeminiCli,
        McpClient::Codex => HarnessId::Codex,
        McpClient::Vscode => HarnessId::Vscode,
        McpClient::CopilotCli => HarnessId::CopilotCli,
        McpClient::OpenCode => HarnessId::OpenCode,
        McpClient::Windsurf => HarnessId::Windsurf,
        McpClient::Zed => HarnessId::Zed,
        McpClient::OpenClaw => HarnessId::OpenClaw,
        McpClient::Hermes => HarnessId::Hermes,
        McpClient::AntigravityCli => HarnessId::AntigravityCli,
        McpClient::AntigravityDesktop => HarnessId::AntigravityDesktop,
        McpClient::GenericJson => HarnessId::Omp,
    }
}

/// Every client registers through the target of the same name, and only
/// `generic-json` goes through the snippet target `Omp`; so no two clients share
/// a target.
pub proof fn law_client_targets(c: McpClient, d: McpClient)
    ensures
        harness_of(McpClient::ClaudeCode) == HarnessId::ClaudeCode,
        harness_of(McpClient::ClaudeCodeCli) == HarnessId::ClaudeCodeCli,
        harness_of(McpClient::ClaudeDesktop) == HarnessId::ClaudeDesktop,
        harness_of(McpClient::Cursor) == HarnessId::Cursor,
        harness_of(McpClient::GeminiCli) == HarnessId::GeminiCli,
        harness_of(McpClient::Codex) == HarnessId::Codex,
        harness_of(McpClient::Vscode) == HarnessId::Vscode,
        harness_of(McpClient::CopilotCli) == HarnessId::CopilotCli,
        harness_of(McpClient::OpenCode) == HarnessId::OpenCode,
        harness_of(McpClient::Windsurf) == HarnessId::Windsurf,
        harness_of(McpClient::Zed) == HarnessId::Zed,
        harness_of(McpClient::OpenClaw) == HarnessId::OpenClaw,
        harness_of(McpClient::Hermes) == HarnessId::Hermes,
        harness_of(McpClient::AntigravityCli) == HarnessId::AntigravityCli,
        harness_of(McpClient::AntigravityDesktop) == HarnessId::AntigravityDesktop,
        harness_of(McpClient::GenericJson) == HarnessId::Omp,
        harness_of(c) == harness_of(d) ==> c == d,
{
}

impl McpClient {
    /// The registration target this client installs through.
    pub fn harness(self) -> (r: HarnessId)
        ensures
            r == harness_of(self),
    {
        match self {
            McpClient::ClaudeCode => HarnessId::ClaudeCode,
            McpClient::ClaudeCodeCli => HarnessId::ClaudeCodeCli,
            McpClient::ClaudeDesktop => HarnessId::ClaudeDesktop,
            McpClient::Cursor => HarnessId::Cursor,
            McpClient::GeminiCli => HarnessId::GeminiCli,
            McpClient::Codex => HarnessId::Codex,
            McpClient::Vscode => HarnessId::Vscode,
            McpClient::CopilotCli => HarnessId::CopilotCli,
            McpClient::OpenCode => HarnessId::OpenCode,
            McpClient::Windsurf => HarnessId::Windsurf,
            McpClient::Zed => HarnessId::Zed,
            McpClient::OpenClaw => HarnessId::OpenClaw,
            McpClient::Hermes => HarnessId::Hermes,
            McpClient::AntigravityCli => HarnessId::AntigravityCli,
            McpClient::AntigravityDesktop => HarnessId::AntigravityDesktop,
            McpClient::GenericJson => HarnessId::Omp,
        }
    }
}

impl HarnessId {
    /// Whether the target only prints a configuration snippet instead of
    /// writing a client's configuration.
    pub fn is_snippet_only(self) -> (r: bool)
        ensures
            r == (self == HarnessId::Omp),
    {
        match self {
            HarnessId::Omp => true,
            _ => false,
        }
    }
}

/// The clients offered by the interactive picker, in the order shown.
pub open spec fn picker_order() -> Seq<McpClient> {
    seq![
        McpClient::ClaudeCode,
        McpClient::ClaudeCodeCli,
        McpClient::ClaudeDesktop,
        McpClient::Cursor,
        McpClient::Codex,
        McpClient::GeminiCli,
        McpClient::Vscode,
        McpClient::CopilotCli,
        McpClient::OpenCode,
        McpClient::Windsurf,
        McpClient::Zed,
        McpClient::OpenClaw,
        McpClient::Hermes,
        McpClient::AntigravityCli,
        McpClient::AntigravityDesktop,
        McpClient::GenericJson,
    ]
}

/// The clients offered by the interactive picker.
pub fn picker_clients() -> (r: Vec<McpClient>)
    ensures
        r@ == picker_order(),
{
    let r = vec![
        McpClient::ClaudeCode,
        McpClient::ClaudeCodeCli,
        McpClient::ClaudeDesktop,
        McpClient::Cursor,
        McpClient::Codex,
        McpClient::GeminiCli,
        McpClient::Vscode,
        McpClient::CopilotCli,
        McpClient::OpenCode,
        McpClient::Windsurf,
        McpClient::Zed,
        McpClient::OpenClaw,
        McpClient::Hermes,
        McpClient::AntigravityCli,
        McpClient::AntigravityDesktop,
        McpClient::GenericJson,
    ];
    assert(r@ =~= picker_order());
    r
}

/// `jirac mcp` subcommands, with their options.
pub enum McpCommand {
    /// Install the MCP server into a client's configuration; without a client
    /// the user picks one.
    Install {
        client: Option<McpClient>,
        name: String,
        command: String,
        transport: String,
        print: bool,
        dry_run: bool,
        force: bool,
    },
    /// Check install prerequisites and target readiness.
    Doctor { client: Option<McpClient>, command: String },
}

/// What the caller does next for a `jirac mcp` command.
pub enum McpStep {
    /// Install into `client`.
    Install {
        client: McpClient,
        name: String,
        command: String,
        transport: String,
        print: bool,
        dry_run: bool,
        force: bool,
    },
    /// Check the prerequisites, let the user pick a client, then install into it.
    PickThenInstall {
        name: String,
        command: String,
        transport: String,
        print: bool,
        dry_run: bool,
        force: bool,
    },
    /// Run the readiness checks.
    Doctor { client: Option<McpClient>, command: String },
}

/// Decides the first step of a `jirac mcp` command. `recorded` is the
/// non-interactive setting recorded at start-up; an install without a client
/// needs a prompt, which that setting can refuse.
pub fn handle(cmd: McpCommand, recorded: Option<bool>) -> (r: Result<McpStep, String>)
    ensures
        match cmd {
            McpCommand::Install { client: Some(c), name, command, transport, print, dry_run, force } =>
                r == Ok::<McpStep, String>(McpStep::Install { client: c, name, command, transport, print, dry_run, force }),
            McpCommand::Install { client: None, name, command, transport, print, dry_run, force } =>
                if recorded == Some(true) {
                    r matches Err(m) && m@ == refusal_text("MCP client"@, "--client <target>"@)
                } else {
                    r == Ok::<McpStep, String>(McpStep::PickThenInstall { name, command, transport, print, dry_run, force })
                },
            McpCommand::Doctor { client, command } =>
                r == Ok::<McpStep, String>(McpStep::Doctor { client, command }),
        },
{
    match cmd {
        McpCommand::Install { client, name, command, transport, print, dry_run, force } => {
            match client {
                Some(c) => Ok(McpStep::Install { client: c, name, command, transport, print, dry_run, force }),
                None => {
                    match require_interactive(recorded, "MCP client", "--client <target>") {
                        Err(m) => Err(m),
                        Ok(()) => Ok(McpStep::PickThenInstall { name, command, transport, print, dry_run, force }),
                    }
                },
            }
        },
        McpCommand::Doctor { client, command } => Ok(McpStep::Doctor { client, command }),
    }
}

/// The arguments the MCP server is started with.
pub open spec fn server_args_of(transport: Seq<char>) -> Seq<Seq<char>> {
    seq!["serve"@, "--transport"@, transport]
}

/// The arguments the MCP server is started with: `serve --transport <transport>`.
pub fn server_args(transport: &str) -> (r: Vec<String>)
    ensures
        views(r@) == server_args_of(transport@),
{
    let mut r: Vec<String> = Vec::new();
    let mut a = String::new();
    push_str(&mut a, "serve");
    let mut b = String::new();
    push_str(&mut b, "--transport");
    let mut c = String::new();
    push_str(&mut c, transport);
    r.push(a);
    r.push(b);
    r.push(c);
    assert(views(r@) =~= server_args_of(transport@));
    r
}

/// A stdio MCP server entry: its name, the command that starts it, and that
/// command's arguments.
pub struct McpServerSpec {
    pub name: String,
    pub command: String,
    pub args: Vec<String>,
}

/// The entry installed into a client: the server runs over stdio and is told
/// which transport to serve.
pub fn install_spec(name: &str, command: String, transport: &str) -> (r: McpServerSpec)
    ensures
        r.name@ == name@,
        r.command@ == command@,
        views(r.args@) == server_args_of(transport@),
{
    let mut n = String::new();
    push_str(&mut n, name);
    McpServerSpec { name: n, command, args: server_args(transport) }
}

/// The error given when the server command cannot be found and the install
/// would write a configuration.
pub open spec fn command_missing_text(command: Seq<char>) -> Seq<char> {
    "MCP server command '"@ + command
        + "' was not found on PATH. Install it first:\n  cargo install jira-mcp\n  # or download `jirac-mcp` from https://github.com/mulhamna/jira-commands/releases\n  # or pass --command /path/to/jirac-mcp"@
}

/// The warning printed by a dry run when the server command cannot be found.
pub open spec fn command_missing_warning(command: Seq<char>) -> Seq<char> {
    "[warn] MCP server command '"@ + command
        + "' was not found on PATH.\n       Install it with `cargo install jira-mcp`, download `jirac-mcp` from https://github.com/mulhamna/jira-commands/releases, or pass `--command /path/to/jirac-mcp`."@
}

/// The command an install writes into the client's configuration, and whether
/// the dry-run warning is printed.
pub struct ResolvedCommand {
    pub command: String,
    pub warn_missing: bool,
}

/// Whether installing into `client` looks the server command up on `PATH`.
pub fn needs_path_lookup(client: McpClient) -> (r: bool)
    ensures
        r == (harness_of(client) != HarnessId::Omp),
{
    !client.harness().is_snippet_only()
}

/// The command written for `client`. `found` is the resolved path of `command`
/// when it was found on `PATH` (the caller looks it up when
/// `needs_path_lookup(client)`). Snippet clients keep `command` as given; a found
/// path wins; a dry run keeps `command` and warns; otherwise the install fails.
pub fn resolve_command_for_client(client: McpClient, command: &str, found: Option<String>, dry_run: bool) -> (r: Result<ResolvedCommand, String>)
    ensures
        harness_of(client) == HarnessId::Omp ==> (r matches Ok(c) && c.command@ == command@ && !c.warn_missing),
        harness_of(client) != HarnessId::Omp ==> match found {
            Some(p) => r matches Ok(c) && c.command@ == p@ && !c.warn_missing,
            None => if dry_run {
                r matches Ok(c) && c.command@ == command@ && c.warn_missing
            } else {
                r matches Err(m) && m@ == command_missing_text(command@)
            },
        },
{
    if client.harness().is_snippet_only() {
        let mut c = String::new();
        push_str(&mut c, command);
        return Ok(ResolvedCommand { command: c, warn_missing: false });
    }
    match found {
        Some(p) => Ok(ResolvedCommand { command: p, warn_missing: false }),
        None => {
            if dry_run {
                let mut c = String::new();
                push_str(&mut c, command);
                Ok(ResolvedCommand { command: c, warn_missing: true })
            } else {
                let mut m = String::new();
                push_str(&mut m, "MCP server command '");
                push_str(&mut m, command);
                push_str(&mut m, "' was not found on PATH. Install it first:\n  cargo install jira-mcp\n  # or download `jirac-mcp` from https://github.com/mulhamna/jira-commands/releases\n  # or pass --command /path/to/jirac-mcp");
                Err(m)
            }
        },
    }
}

/// The dry-run warning for a command that is not on `PATH`.
pub fn missing_command_warning(command: &str) -> (r: String)
    ensures
        r@ == command_missing_warning(command@),
{
    let mut m = String::new();
    push_str(&mut m, "[warn] MCP server command '");
    push_str(&mut m, command);
    push_str(&mut m, "' was not found on PATH.\n       Install it with `cargo install jira-mcp`, download `jirac-mcp` from https://github.com/mulhamna/jira-commands/releases, or pass `--command /path/to/jirac-mcp`.");
    m
}

/// What an install reports once the registration library answered:
/// `changed`, the action it took, and whether it was a dry run.
pub open spec fn install_report(name: Seq<char>, harness: Seq<char>, changed: bool, action: Seq<char>, dry_run: bool) -> Option<Seq<char>> {
    if changed {
        Some("Installed MCP entry '"@ + name + "' via Kurir for "@ + harness)
    } else if action == "already-configured"@ {
        Some("MCP entry '"@ + name + "' already configured via Kurir"@)
    } else if dry_run {
        Some("Dry run, no client config written via Kurir."@)
    } else {
        None
    }
}

/// The line an install prints after registering, if any. `harness` is the
/// target's name as the registration library writes it.
pub fn install_message(name: &str, harness: &str, changed: bool, action: &str, dry_run: bool) -> (r: Option<String>)
    ensures
        match r {
            Some(m) => install_report(name@, harness@, changed, action@, dry_run) == Some(m@),
            None => install_report(name@, harness@, changed, action@, dry_run) is None,
        },
{
    let mut m = String::new();
    if changed {
        push_str(&mut m, "Installed MCP entry '");
        push_str(&mut m, name);
        push_str(&mut m, "' via Kurir for ");
        push_str(&mut m, harness);
        Some(m)
    } else if crate::text::str_eq(action, "already-configured") {
        push_str(&mut m, "MCP entry '");
        push_str(&mut m, name);
        push_str(&mut m, "' already configured via Kurir");
        Some(m)
    } else if dry_run {
        push_str(&mut m, "Dry run, no client config written via Kurir.");
        Some(m)
    } else {
        None
    }
}

/// The text is empty once trimmed.
fn is_blank(s: &str) -> (r: bool)
    ensures
        r == (trim(s@).len() == 0),
{
    let v = chars_of(s);
    let (a, b) = trim_bounds(&v);
    a == b
}

/// The state of the Jira credentials, as the readiness checks see it.
#[derive(Clone, Copy, Debug, PartialEq, Eq, Structural)]
pub enum AuthCheck {
    MissingUrl,
    MissingToken,
    MissingIdentity,
    Present,
}

/// The first missing piece of the credentials, in the order checked.
pub open spec fn auth_check_of(base_url: Seq<char>, token_present: bool, requires_identity: bool, email: Seq<char>) -> AuthCheck {
    if trim(base_url).len() == 0 {
        AuthCheck::MissingUrl
    } else if !token_present {
        AuthCheck::MissingToken
    } else if requires_identity && trim(email).len() == 0 {
        AuthCheck::MissingIdentity
    } else {
        AuthCheck::Present
    }
}

/// Checks the stored credentials: a base URL, a token, and a user when the
/// authentication mode needs one.
pub fn auth_check(base_url: &str, token_present: bool, requires_identity: bool, email: &str) -> (r: AuthCheck)
    ensures
        r == auth_check_of(base_url@, token_present, requires_identity, email@),
{
    if is_blank(base_url) {
        AuthCheck::MissingUrl
    } else if !token_present {
        AuthCheck::MissingToken
    } else if requires_identity && is_blank(email) {
        AuthCheck::MissingIdentity
    } else {
        AuthCheck::Present
    }
}

/// The line the doctor prints for the credentials.
pub open spec fn auth_line_of(c: AuthCheck) -> Seq<char> {
    match c {
        AuthCheck::MissingUrl => "[warn] Jira base URL not configured. Run `jirac auth login`."@,
        AuthCheck::MissingToken => "[warn] Jira token not configured. Run `jirac auth login`."@,
        AuthCheck::MissingIdentity => "[warn] Jira user identity not configured. Run `jirac auth login`."@,
        AuthCheck::Present => "[ok] Jira auth config present"@,
    }
}

/// The line the doctor prints for the credentials.
pub fn auth_line(c: AuthCheck) -> (r: &'static str)
    ensures
        r@ == auth_line_of(c),
{
    match c {
        AuthCheck::MissingUrl => "[warn] Jira base URL not configured. Run `jirac auth login`.",
        AuthCheck::MissingToken => "[warn] Jira token not configured. Run `jirac auth login`.",
        AuthCheck::MissingIdentity => "[warn] Jira user identity not configured. Run `jirac auth login`.",
        AuthCheck::Present => "[ok] Jira auth config present",
    }
}

/// The error of the interactive install when the server binary is missing.
pub open spec fn binary_missing_text(command: Seq<char>) -> Seq<char> {
    "MCP server binary '"@ + command
        + "' not found on PATH. Install it first:\n  cargo install jira-mcp\n  # or download from https://github.com/mulhamna/jira-commands/releases"@
}

/// The error of the interactive install when the credentials are incomplete.
pub open spec fn credentials_missing_text() -> Seq<char> {
    "Jira credentials not configured. Set them up first:\n\n  Option A (recommended): install the jirac CLI and run auth login\n    cargo install jira-commands\n    jirac auth login\n\n  Option B: edit the config file directly\n    ~/.config/jirac/config.toml (or platform equivalent)\n\nThen re-run `jirac mcp install` to register the MCP entry."@
}

/// Whether the interactive install may go on to the picker: the server binary
/// was found and the credentials are complete, checked in that order.
pub fn prerequisites_verdict(server_found: bool, server_command: &str, auth: AuthCheck) -> (r: Result<(), String>)
    ensures
        !server_found ==> (r matches Err(m) && m@ == binary_missing_text(server_command@)),
        server_found && auth != AuthCheck::Present ==> (r matches Err(m) && m@ == credentials_missing_text()),
        server_found && auth == AuthCheck::Present ==> r is Ok,
{
    if !server_found {
        let mut m = String::new();
        push_str(&mut m, "MCP server binary '");
        push_str(&mut m, server_command);
        push_str(&mut m, "' not found on PATH. Install it first:\n  cargo install jira-mcp\n  # or download from https://github.com/mulhamna/jira-commands/releases");
        return Err(m);
    }
    match auth {
        AuthCheck::Present => Ok(()),
        _ => {
            let mut m = String::new();
            push_str(&mut m, "Jira credentials not configured. Set them up first:\n\n  Option A (recommended): install the jirac CLI and run auth login\n    cargo install jira-commands\n    jirac auth login\n\n  Option B: edit the config file directly\n    ~/.config/jirac/config.toml (or platform equivalent)\n\nThen re-run `jirac mcp install` to register the MCP entry.");
            Err(m)
        },
    }
}

/// How many of the targets checked are not available.
pub open spec fn unavailable_count(available: Seq<bool>) -> nat
    decreases available.len(),
{
    if available.len() == 0 {
        0
    } else {
        unavailable_count(available.drop_last()) + if available.last() {
            0nat
        } else {
            1nat
        }
    }
}

/// The doctor's verdict over the availability of each target it checked:
/// every unavailable target is a blocking issue.
pub fn doctor_verdict(available: &Vec<bool>) -> (r: Result<(), String>)
    ensures
        unavailable_count(available@) == 0 ==> r is Ok,
        unavailable_count(available@) > 0 ==> (r matches Err(m) && m@ == "MCP doctor found "@
            + decimal(unavailable_count(available@)) + " blocking issue(s)"@),
{
    let mut n: u64 = 0;
    let mut i: usize = 0;
    while i < available.len()
        invariant
            i <= available@.len(),
            n == unavailable_count(available@.take(i as int)),
            n <= i,
        decreases available@.len() - i,
    {
        assert(available@.take(i + 1).drop_last() =~= available@.take(i as int));
        if !available[i] {
            n = n + 1;
        }
        i = i + 1;
    }
    assert(available@.take(i as int) =~= available@);
    if n == 0 {
        return Ok(());
    }
    let mut m = String::new();
    push_str(&mut m, "MCP doctor found ");
    push_decimal(&mut m, n);
    push_str(&mut m, " blocking issue(s)");
    Err(m)
}

} // verus!

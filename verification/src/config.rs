//! `jirac config`: settings of the active profile that are not credentials.
//!
//! One key is supported, `default_issue_limit`: the cap applied by list-like
//! commands when no `--limit` is given. Loading and saving the profile happen in
//! the caller.
use vstd::prelude::*;

use crate::text::{decimal, parse_u32, parse_u32_str, push_decimal, push_str, str_eq, trim, trim_str};

verus! {

/// `jirac config` subcommands.
pub enum ConfigCommand {
    /// Set `key` to `value` for the active profile.
    SetValue { key: String, value: String },
    /// Remove `key` from the active profile, restoring the default.
    Unset { key: String },
    /// Show the active profile's effective configuration.
    Show,
}

/// What a `jirac config` command does to the active profile.
#[derive(Clone, Copy, Debug, PartialEq, Eq, Structural)]
pub enum ConfigAction {
    /// Store this issue limit (`None`: fetch everything).
    SetIssueLimit(Option<u32>),
    /// Remove the issue limit.
    RemoveIssueLimit,
    /// Print the configuration.
    Show,
}

/// The only key the command knows.
pub open spec fn limit_key() -> Seq<char> {
    "default_issue_limit"@
}

/// The error for a key the command does not know.
pub open spec fn unsupported_key_text(key: Seq<char>) -> Seq<char> {
    "unsupported config key `"@ + key + "`. Supported: default_issue_limit"@
}

/// The error for a limit that is not a non-negative integer.
pub open spec fn bad_limit_text() -> Seq<char> {
    "`default_issue_limit` must be a non-negative integer"@
}

/// The limit a `set` stores: `0` clears it.
pub open spec fn stored_limit(n: u32) -> Option<u32> {
    if n == 0 {
        None
    } else {
        Some(n)
    }
}

fn unsupported_key(key: &str) -> (r: String)
    ensures
        r@ == unsupported_key_text(key@),
{
    let mut m = String::new();
    push_str(&mut m, "unsupported config key `");
    push_str(&mut m, key);
    push_str(&mut m, "`. Supported: default_issue_limit");
    m
}

/// Decides what a `jirac config` command does. A `set` of the limit takes the
/// trimmed value as a `u32`; any other key is refused.
pub fn handle(cmd: ConfigCommand) -> (r: Result<ConfigAction, String>)
    ensures
        match cmd {
            ConfigCommand::SetValue { key, value } => if key@ != limit_key() {
                r matches Err(m) && m@ == unsupported_key_text(key@)
            } else {
                match parse_u32(trim(value@)) {
                    Some(n) => r == Ok::<ConfigAction, String>(ConfigAction::SetIssueLimit(stored_limit(n))),
                    None => r matches Err(m) && m@ == bad_limit_text(),
                }
            },
            ConfigCommand::Unset { key } => if key@ != limit_key() {
                r matches Err(m) && m@ == unsupported_key_text(key@)
            } else {
                r == Ok::<ConfigAction, String>(ConfigAction::RemoveIssueLimit)
            },
            ConfigCommand::Show => r == Ok::<ConfigAction, String>(ConfigAction::Show),
        },
{
    match cmd {
        ConfigCommand::SetValue { key, value } => {
            if !str_eq(key.as_str(), "default_issue_limit") {
                return Err(unsupported_key(key.as_str()));
            }
            let t = trim_str(value.as_str());
            match parse_u32_str(t.as_str()) {
                Some(n) => {
                    if n == 0 {
                        Ok(ConfigAction::SetIssueLimit(None))
                    } else {
                        Ok(ConfigAction::SetIssueLimit(Some(n)))
                    }
                },
                None => {
                    let mut m = String::new();
                    push_str(&mut m, "`default_issue_limit` must be a non-negative integer");
                    Err(m)
                },
            }
        },
        ConfigCommand::Unset { key } => {
            if !str_eq(key.as_str(), "default_issue_limit") {
                return Err(unsupported_key(key.as_str()));
            }
            Ok(ConfigAction::RemoveIssueLimit)
        },
        ConfigCommand::Show => Ok(ConfigAction::Show),
    }
}

/// The confirmation printed once the profile was saved.
pub open spec fn confirmation_text(action: ConfigAction) -> Seq<char> {
    match action {
        ConfigAction::SetIssueLimit(Some(n)) => "✓ default_issue_limit = "@ + decimal(n as nat),
        ConfigAction::SetIssueLimit(None) => "✓ default_issue_limit cleared (will fetch all issues)"@,
        ConfigAction::RemoveIssueLimit => "✓ default_issue_limit removed (will fetch all issues)"@,
        ConfigAction::Show => Seq::empty(),
    }
}

/// The confirmation printed once the profile was saved (empty for `show`).
pub fn confirmation(action: ConfigAction) -> (r: String)
    ensures
        r@ == confirmation_text(action),
{
    let mut m = String::new();
    match action {
        ConfigAction::SetIssueLimit(Some(n)) => {
            push_str(&mut m, "✓ default_issue_limit = ");
            push_decimal(&mut m, n as u64);
        },
        ConfigAction::SetIssueLimit(None) => {
            push_str(&mut m, "✓ default_issue_limit cleared (will fetch all issues)");
        },
        ConfigAction::RemoveIssueLimit => {
            push_str(&mut m, "✓ default_issue_limit removed (will fetch all issues)");
        },
        ConfigAction::Show => {},
    }
    m
}

/// The lines `jirac config show` prints for a profile.
pub open spec fn show_lines_of(profile: Option<Seq<char>>, base_url: Seq<char>, project: Option<Seq<char>>, limit: Option<u32>) -> Seq<Seq<char>> {
    seq![
        "Profile:        "@ + match profile {
            Some(p) => p,
            None => "default"@,
        },
        "Base URL:       "@ + if base_url.len() == 0 {
            "(not set)"@
        } else {
            base_url
        },
        "Project:        "@ + match project {
            Some(p) => p,
            None => "(not set)"@,
        },
        "default_issue_limit: "@ + match limit {
            Some(n) => decimal(n as nat),
            None => "unset (fetch all)"@,
        },
    ]
}

/// The lines `jirac config show` prints for a profile.
pub fn show_lines(profile: &Option<String>, base_url: &str, project: &Option<String>, limit: Option<u32>) -> (r: Vec<String>)
    ensures
        crate::text::views(r@) == show_lines_of(
            match profile {
                Some(p) => Some(p@),
                None => None,
            },
            base_url@,
            match project {
                Some(p) => Some(p@),
                None => None,
            },
            limit,
        ),
{
    let mut a = String::new();
    push_str(&mut a, "Profile:        ");
    match profile {
        Some(p) => push_str(&mut a, p.as_str()),
        None => push_str(&mut a, "default"),
    }
    let mut b = String::new();
    push_str(&mut b, "Base URL:       ");
    if base_url.unicode_len() == 0 {
        push_str(&mut b, "(not set)");
    } else {
        push_str(&mut b, base_url);
    }
    let mut c = String::new();
    push_str(&mut c, "Project:        ");
    match project {
        Some(p) => push_str(&mut c, p.as_str()),
        None => push_str(&mut c, "(not set)"),
    }
    let mut d = String::new();
    push_str(&mut d, "default_issue_limit: ");
    match limit {
        Some(n) => push_decimal(&mut d, n as u64),
        None => push_str(&mut d, "unset (fetch all)"),
    }
    let mut r: Vec<String> = Vec::new();
    r.push(a);
    r.push(b);
    r.push(c);
    r.push(d);
    let ghost lines = show_lines_of(
        match profile {
            Some(p) => Some(p@),
            None => None,
        },
        base_url@,
        match project {
            Some(p) => Some(p@),
            None => None,
        },
        limit,
    );
    assert(crate::text::views(r@) =~= lines);
    r
}

} // verus!

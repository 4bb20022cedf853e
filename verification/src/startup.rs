//! What `jirac` checks before it talks to Jira: that a client can be built
//! from the configuration, and the browser link of the `jirac KEY --web`
//! shortcut.
use vstd::prelude::*;

use crate::text::{chars_of, push_str, strip_trailing_of, trim, trim_str};

verus! {

/// The message shown when no Jira URL is configured.
pub open spec fn no_url_text() -> Seq<char> {
    "Jira URL not configured. Run `jirac auth login` or set JIRA_URL environment variable."@
}

/// Why no client can be built from a configuration, if it cannot: no URL;
/// no user where the authentication mode needs one; no token.
pub open spec fn client_check_of(base_url: Seq<char>, requires_user: bool, email: Seq<char>, token_present: bool) -> Option<
    Seq<char>,
> {
    if base_url.len() == 0 {
        Some(no_url_text())
    } else if requires_user && trim(email).len() == 0 {
        Some(
            "User identity not configured. Run `jirac auth login` or set JIRA_EMAIL environment variable."@,
        )
    } else if !token_present {
        Some("API token not found. Run `jirac auth login` or set JIRA_TOKEN environment variable."@)
    } else {
        None
    }
}

fn text(s: &str) -> (r: String)
    ensures
        r@ == s@,
{
    let mut t = String::new();
    push_str(&mut t, s);
    t
}

/// Whether a client can be built from the configuration, or why not.
pub fn check_client_config(base_url: &str, requires_user: bool, email: &str, token_present: bool) -> (r: Result<(), String>)
    ensures
        match client_check_of(base_url@, requires_user, email@, token_present) {
            Some(m) => r matches Err(e) && e@ == m,
            None => r is Ok,
        },
{
    if base_url.unicode_len() == 0 {
        return Err(text("Jira URL not configured. Run `jirac auth login` or set JIRA_URL environment variable."));
    }
    if requires_user && trim_str(email).unicode_len() == 0 {
        return Err(
            text("User identity not configured. Run `jirac auth login` or set JIRA_EMAIL environment variable."),
        );
    }
    if !token_present {
        return Err(text("API token not found. Run `jirac auth login` or set JIRA_TOKEN environment variable."));
    }
    Ok(())
}

/// The page of an issue in the browser, or why the shortcut cannot open it:
/// no URL configured, a blank key, or a key without `-`.
pub open spec fn browse_url_of(base_url: Seq<char>, issue: Seq<char>) -> Result<Seq<char>, Seq<char>> {
    let key = trim(issue);
    if base_url.len() == 0 {
        Err(no_url_text())
    } else if key.len() == 0 {
        Err("Issue key cannot be empty."@)
    } else if !key.contains('-') {
        Err("Issue shortcut expects a full issue key like `PROJ-123`."@)
    } else {
        Ok(strip_trailing_of(base_url, '/') + "/browse/"@ + key)
    }
}

/// The page of an issue in the browser, or why the shortcut cannot open it.
pub fn issue_browse_url(base_url: &str, issue: &str) -> (r: Result<String, String>)
    ensures
        match browse_url_of(base_url@, issue@) {
            Ok(u) => r matches Ok(s) && s@ == u,
            Err(m) => r matches Err(e) && e@ == m,
        },
{
    if base_url.unicode_len() == 0 {
        return Err(text("Jira URL not configured. Run `jirac auth login` or set JIRA_URL environment variable."));
    }
    let key = trim_str(issue);
    if key.unicode_len() == 0 {
        return Err(text("Issue key cannot be empty."));
    }
    let kv = chars_of(key.as_str());
    let mut has_dash = false;
    let mut i: usize = 0;
    while i < kv.len()
        invariant
            i <= kv@.len(),
            kv@ == key@,
            has_dash == (exists|j: int| 0 <= j < i && kv@[j] == '-'),
        decreases kv@.len() - i,
    {
        if kv[i] == '-' {
            has_dash = true;
        }
        i = i + 1;
    }
    if !has_dash {
        proof {
            assert(!key@.contains('-'));
        }
        return Err(text("Issue shortcut expects a full issue key like `PROJ-123`."));
    }
    proof {
        let j = choose|j: int| 0 <= j < kv@.len() && kv@[j] == '-';
        assert(key@[j] == '-');
    }
    let v = chars_of(base_url);
    let mut end: usize = v.len();
    assert(v@.take(end as int) =~= v@);
    while end > 0 && v[end - 1] == '/'
        invariant
            end <= v@.len(),
            v@ == base_url@,
            strip_trailing_of(v@, '/') == strip_trailing_of(v@.take(end as int), '/'),
        decreases end,
    {
        assert(v@.take(end as int).drop_last() =~= v@.take(end - 1));
        end = end - 1;
    }
    let mut url = crate::text::string_of_range(&v, 0, end);
    assert(url@ =~= v@.take(end as int));
    assert(strip_trailing_of(v@.take(end as int), '/') == v@.take(end as int));
    push_str(&mut url, "/browse/");
    push_str(&mut url, key.as_str());
    Ok(url)
}

/// What `jirac` says when it is run without a command or an issue shortcut.
pub fn no_command_message() -> (r: String)
    ensures
        r@ == "No command provided. Run `jirac --help` for usage."@,
{
    text("No command provided. Run `jirac --help` for usage.")
}

/// What the shortcut prints once the browser was asked to open the page.
pub fn opened_message(url: &str) -> (r: String)
    ensures
        r@ == "Opened "@ + url@,
{
    let mut s = text("Opened ");
    push_str(&mut s, url);
    s
}

} // verus!

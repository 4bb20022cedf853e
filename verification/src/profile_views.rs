//! How saved login profiles are shown: `jirac auth status`, `jirac auth
//! profiles`, and the configuration tab of the TUI.
//!
//! Loading the profile file and reading the environment happen in the
//! caller, which hands over what it found.
use vstd::prelude::*;

use crate::auth::{profile_line, profile_line_of, JiraAuthType, JiraDeployment};
use crate::text::{decimal, push_decimal, push_str, trim, views};

verus! {

/// A saved login profile, as the views show it.
pub struct ProfileSummary {
    pub name: String,
    pub base_url: String,
    pub email: String,
    pub project: Option<String>,
    pub timeout_secs: u64,
    pub deployment: JiraDeployment,
    pub auth_type: JiraAuthType,
    pub api_version: u32,
    pub token: Option<String>,
}

/// The label shown for a deployment.
pub open spec fn deployment_text(d: JiraDeployment) -> Seq<char> {
    match d {
        JiraDeployment::Cloud => "Cloud"@,
        JiraDeployment::DataCenter => "Data Center"@,
    }
}

/// The label shown for an authentication mode.
pub open spec fn auth_text(a: JiraAuthType) -> Seq<char> {
    match a {
        JiraAuthType::CloudApiToken => "Cloud API token"@,
        JiraAuthType::DataCenterPat => "Data Center PAT"@,
        JiraAuthType::DataCenterBasic => "Data Center basic"@,
    }
}

/// The name a deployment is written with in the configuration tab.
pub open spec fn deployment_name(d: JiraDeployment) -> Seq<char> {
    match d {
        JiraDeployment::Cloud => "Cloud"@,
        JiraDeployment::DataCenter => "DataCenter"@,
    }
}

/// The name an authentication mode is written with in the configuration tab.
pub open spec fn auth_name(a: JiraAuthType) -> Seq<char> {
    match a {
        JiraAuthType::CloudApiToken => "CloudApiToken"@,
        JiraAuthType::DataCenterPat => "DataCenterPat"@,
        JiraAuthType::DataCenterBasic => "DataCenterBasic"@,
    }
}

fn push_deployment_name(s: &mut String, d: JiraDeployment)
    ensures
        final(s)@ == old(s)@ + deployment_name(d),
{
    match d {
        JiraDeployment::Cloud => push_str(s, "Cloud"),
        JiraDeployment::DataCenter => push_str(s, "DataCenter"),
    }
}

fn push_auth_name(s: &mut String, a: JiraAuthType)
    ensures
        final(s)@ == old(s)@ + auth_name(a),
{
    match a {
        JiraAuthType::CloudApiToken => push_str(s, "CloudApiToken"),
        JiraAuthType::DataCenterPat => push_str(s, "DataCenterPat"),
        JiraAuthType::DataCenterBasic => push_str(s, "DataCenterBasic"),
    }
}

fn line2(a: &str, b: &str) -> (r: String)
    ensures
        r@ == a@ + b@,
{
    let mut s = String::new();
    push_str(&mut s, a);
    push_str(&mut s, b);
    s
}

/// The profile whose status is shown, with what the caller found out about it.
pub struct StatusView {
    pub profile_name: Option<String>,
    pub base_url: String,
    pub deployment: JiraDeployment,
    pub auth_type: JiraAuthType,
    /// Whether the authentication mode needs a user name or email.
    pub requires_user: bool,
    pub email: String,
    pub token_present: bool,
    pub api_version: u32,
    pub project: Option<String>,
}

/// What `jirac auth status` prints: a note when nothing is configured; else
/// the profile, URL, deployment, authentication, the user when the mode
/// needs one, where the secret is (or that it is missing), the API version,
/// how many profiles are saved (at least one), and the default project if
/// any.
pub open spec fn status_of(v: StatusView, config_path: Seq<char>, saved: nat) -> Seq<Seq<char>> {
    if v.base_url@.len() == 0 && !v.token_present {
        seq!["Not configured. Run `jirac auth login` to set up."@]
    } else {
        seq![
            "Authentication Status"@,
            "─────────────────────"@,
            "  Active profile: "@ + match v.profile_name {
                Some(p) => p@,
                None => "default"@,
            },
            "  URL:            "@ + v.base_url@,
            "  Deployment:     "@ + deployment_text(v.deployment),
            "  Auth:           "@ + auth_text(v.auth_type),
        ] + (if v.requires_user {
            seq!["  User:           "@ + v.email@]
        } else {
            Seq::empty()
        }) + seq![
            if v.token_present {
                "  Secret:         ✓ stored in "@ + config_path
            } else {
                "  Secret:         ✗ not found — run `jirac auth login`"@
            },
            "  API version:    "@ + decimal(v.api_version as nat),
            "  Profiles saved: "@ + decimal(if saved >= 1 { saved } else { 1 }),
        ] + match v.project {
            Some(p) => seq!["  Default project: "@ + p@],
            None => Seq::empty(),
        }
    }
}

/// What `jirac auth status` prints.
pub fn status_lines(v: &StatusView, config_path: &str, saved: usize) -> (r: Vec<String>)
    ensures
        views(r@) == status_of(*v, config_path@, saved as nat),
{
    let mut lines: Vec<String> = Vec::new();
    if v.base_url.unicode_len() == 0 && !v.token_present {
        lines.push(line2("Not configured. Run `jirac auth login` to set up.", ""));
        proof {
            reveal_strlit("");
        }
        assert(views(lines@) =~= status_of(*v, config_path@, saved as nat));
        return lines;
    }
    lines.push(line2("Authentication Status", ""));
    lines.push(line2("─────────────────────", ""));
    match &v.profile_name {
        Some(p) => lines.push(line2("  Active profile: ", p.as_str())),
        None => lines.push(line2("  Active profile: ", "default")),
    }
    lines.push(line2("  URL:            ", v.base_url.as_str()));
    lines.push(line2("  Deployment:     ", crate::auth::deployment_label(v.deployment)));
    lines.push(line2("  Auth:           ", crate::auth::auth_type_label(v.auth_type)));
    let ghost l0 = views(lines@);
    if v.requires_user {
        lines.push(line2("  User:           ", v.email.as_str()));
    }
    let ghost l1 = views(lines@);
    if v.token_present {
        lines.push(line2("  Secret:         ✓ stored in ", config_path));
    } else {
        lines.push(line2("  Secret:         ✗ not found — run `jirac auth login`", ""));
    }
    let mut api = String::new();
    push_str(&mut api, "  API version:    ");
    push_decimal(&mut api, v.api_version as u64);
    lines.push(api);
    let mut saved_line = String::new();
    push_str(&mut saved_line, "  Profiles saved: ");
    push_decimal(&mut saved_line, if saved >= 1 { saved as u64 } else { 1 });
    lines.push(saved_line);
    let ghost l2 = views(lines@);
    match &v.project {
        Some(p) => lines.push(line2("  Default project: ", p.as_str())),
        None => {},
    }
    proof {
        reveal_strlit("");
        assert(l0 =~= seq![
            "Authentication Status"@,
            "─────────────────────"@,
            "  Active profile: "@ + match v.profile_name {
                Some(p) => p@,
                None => "default"@,
            },
            "  URL:            "@ + v.base_url@,
            "  Deployment:     "@ + deployment_text(v.deployment),
            "  Auth:           "@ + auth_text(v.auth_type),
        ]);
        assert(l1 =~= l0 + (if v.requires_user {
            seq!["  User:           "@ + v.email@]
        } else {
            Seq::<Seq<char>>::empty()
        }));
        assert(l2 =~= l1 + seq![
            if v.token_present {
                "  Secret:         ✓ stored in "@ + config_path@
            } else {
                "  Secret:         ✗ not found — run `jirac auth login`"@
            },
            "  API version:    "@ + decimal(v.api_version as nat),
            "  Profiles saved: "@ + decimal(if saved >= 1 { saved as nat } else { 1 }),
        ]);
        assert(views(lines@) =~= l2 + match v.project {
            Some(p) => seq!["  Default project: "@ + p@],
            None => Seq::<Seq<char>>::empty(),
        });
    }
    lines
}

/// The mark of a profile in a listing: `*` for the current one.
pub open spec fn marker(name: Seq<char>, current: Option<Seq<char>>) -> Seq<char> {
    if current == Some(name) {
        "*"@
    } else {
        " "@
    }
}

/// The line of a saved profile in `jirac auth profiles`.
pub open spec fn profile_entry(p: ProfileSummary, current: Option<Seq<char>>) -> Seq<char> {
    profile_line_of(p.name@, current == Some(p.name@), p.deployment, p.auth_type, p.api_version, p.email@)
}

/// What `jirac auth profiles` prints: a note when none is saved; else a
/// heading, a rule, and a line per profile.
pub open spec fn profiles_of(ps: Seq<ProfileSummary>, current: Option<Seq<char>>) -> Seq<Seq<char>> {
    if ps.len() == 0 {
        seq!["No saved profiles. Run `jirac auth login` to create one."@]
    } else {
        seq!["Saved profiles"@, "──────────────"@] + ps.map_values(
            |p: ProfileSummary| profile_entry(p, current),
        )
    }
}

fn is_current(name: &str, current: &Option<String>) -> (r: bool)
    ensures
        r == (crate::model::opt_view(*current) == Some(name@)),
{
    match current {
        Some(c) => crate::text::str_eq(c.as_str(), name),
        None => false,
    }
}

/// What `jirac auth profiles` prints.
pub fn profile_lines(profiles: &Vec<ProfileSummary>, current: &Option<String>) -> (r: Vec<String>)
    ensures
        views(r@) == profiles_of(profiles@, crate::model::opt_view(*current)),
{
    let ghost cur = crate::model::opt_view(*current);
    let mut lines: Vec<String> = Vec::new();
    if profiles.len() == 0 {
        lines.push(line2("No saved profiles. Run `jirac auth login` to create one.", ""));
        proof {
            reveal_strlit("");
        }
        assert(views(lines@) =~= profiles_of(profiles@, cur));
        return lines;
    }
    lines.push(line2("Saved profiles", ""));
    lines.push(line2("──────────────", ""));
    proof {
        reveal_strlit("");
    }
    let ghost l0 = views(lines@);
    assert(l0 =~= seq!["Saved profiles"@, "──────────────"@]);
    let mut i: usize = 0;
    while i < profiles.len()
        invariant
            i <= profiles@.len(),
            cur == crate::model::opt_view(*current),
            views(lines@) == l0 + profiles@.take(i as int).map_values(|p: ProfileSummary| profile_entry(p, cur)),
        decreases profiles@.len() - i,
    {
        let p = &profiles[i];
        let l = profile_line(
            p.name.as_str(),
            is_current(p.name.as_str(), current),
            p.deployment,
            p.auth_type,
            p.api_version,
            p.email.as_str(),
        );
        let ghost before = views(lines@);
        lines.push(l);
        assert(views(lines@) =~= before.push(profile_entry(profiles@[i as int], cur)));
        i = i + 1;
        assert(profiles@.take(i as int).map_values(|p: ProfileSummary| profile_entry(p, cur)) =~= profiles@.take(
            i - 1,
        ).map_values(|p: ProfileSummary| profile_entry(p, cur)).push(profile_entry(profiles@[i - 1], cur)));
    }
    assert(profiles@.take(i as int) =~= profiles@);
    lines
}

/// The saved profiles as the configuration tab reads them.
pub struct StoreView {
    /// The current profile's name, as the store reports it.
    pub current_name: Option<String>,
    /// The name recorded as current in the file.
    pub current_field: Option<String>,
    pub profiles: Vec<ProfileSummary>,
}

/// What loading the profile file gave.
pub enum StoreLoad {
    Loaded(StoreView),
    /// The file did not parse; `raw_read_error` says why it could not even be
    /// read, when that failed too.
    Failed { error: String, raw_read_error: Option<String> },
}

/// The environment variables that override the profile file, as found now.
pub struct EnvReport {
    pub profile_var: Option<String>,
    pub url_set: bool,
    pub email_set: bool,
    pub token_set: bool,
}

/// The configuration in effect once the environment is applied.
pub struct Effective {
    pub profile_name: Option<String>,
    pub base_url: String,
    pub project: Option<String>,
    pub timeout_secs: u64,
}

/// An optional text, or `fallback` when absent.
pub open spec fn or_text(o: Option<String>, fallback: Seq<char>) -> Seq<char> {
    match o {
        Some(s) => s@,
        None => fallback,
    }
}

/// Whether a profile holds a token that is not blank.
pub open spec fn token_present(t: Option<String>) -> bool {
    match t {
        Some(s) => trim(s@).len() > 0,
        None => false,
    }
}

/// The lines of one profile in the configuration tab.
pub open spec fn config_block_of(p: ProfileSummary, current: Option<Seq<char>>) -> Seq<Seq<char>> {
    seq![
        marker(p.name@, current) + " "@ + p.name@,
        "  URL: "@ + p.base_url@,
        "  User: "@ + if trim(p.email@).len() == 0 {
            "(empty)"@
        } else {
            p.email@
        },
        "  Project: "@ + or_text(p.project, "(none)"@),
        "  Timeout: "@ + decimal(p.timeout_secs as nat) + "s"@,
        "  Deployment: "@ + deployment_name(p.deployment),
        "  Auth: "@ + auth_name(p.auth_type),
        "  API: v"@ + decimal(p.api_version as nat),
        "  Token: "@ + if token_present(p.token) {
            "present"@
        } else {
            "missing"@
        },
        Seq::empty(),
    ]
}

/// The lines of the profiles in the configuration tab, one block each.
pub open spec fn config_blocks(ps: Seq<ProfileSummary>, current: Option<Seq<char>>) -> Seq<Seq<char>>
    decreases ps.len(),
{
    if ps.len() == 0 {
        Seq::empty()
    } else {
        config_blocks(ps.drop_last(), current) + config_block_of(ps.last(), current)
    }
}

fn set_or_unset(b: bool) -> (r: &'static str)
    ensures
        r@ == if b {
            "set"@
        } else {
            "unset"@
        },
{
    if b {
        "set"
    } else {
        "unset"
    }
}

/// The configuration tab: where the file is, the saved profiles (or why the
/// file did not load), then the environment overrides and the configuration
/// in effect (or why it did not load).
pub open spec fn config_view_of(path: Seq<char>, store: StoreLoad, env: EnvReport, effective: Result<Effective, String>) -> Seq<Seq<char>> {
    seq!["Config file: "@ + path, Seq::empty()] + match store {
        StoreLoad::Loaded(st) => seq![
            "Current profile: "@ + or_text(st.current_name, "(none)"@),
            "Profiles: "@ + decimal(st.profiles@.len()),
            Seq::empty(),
        ] + config_blocks(st.profiles@, crate::model::opt_view(st.current_field)),
        StoreLoad::Failed { error, raw_read_error } => seq![
            "Config parse failed: "@ + error@,
            Seq::empty(),
            match raw_read_error {
                Some(e) => "Failed to read raw file: "@ + e@,
                None => "Raw config preview suppressed to avoid exposing secrets."@,
            },
        ],
    } + seq!["Environment overrides (detected now):"@] + match effective {
        Ok(cfg) => seq![
            "  JIRA_PROFILE => "@ + or_text(env.profile_var, "(unset)"@),
            "  JIRA_URL => "@ + if env.url_set {
                "set"@
            } else {
                "unset"@
            },
            "  JIRA_EMAIL => "@ + if env.email_set {
                "set"@
            } else {
                "unset"@
            },
            "  JIRA_TOKEN => "@ + if env.token_set {
                "set"@
            } else {
                "unset"@
            },
            "  Effective profile: "@ + or_text(cfg.profile_name, "(unknown)"@),
            "  Effective URL: "@ + cfg.base_url@,
            "  Effective project: "@ + or_text(cfg.project, "(none)"@),
            "  Effective timeout: "@ + decimal(cfg.timeout_secs as nat) + "s"@,
        ],
        Err(e) => seq!["  Failed to load effective config: "@ + e@],
    }
}

fn opt_or(o: &Option<String>, fallback: &str) -> (r: String)
    ensures
        r@ == or_text(*o, fallback@),
{
    let mut s = String::new();
    match o {
        Some(t) => push_str(&mut s, t.as_str()),
        None => push_str(&mut s, fallback),
    }
    s
}

fn push_config_block(lines: &mut Vec<String>, p: &ProfileSummary, current: &Option<String>)
    ensures
        views(final(lines)@) == views(old(lines)@) + config_block_of(*p, crate::model::opt_view(*current)),
{
    let ghost l0 = views(lines@);
    let mut a = String::new();
    if is_current(p.name.as_str(), current) {
        push_str(&mut a, "*");
    } else {
        push_str(&mut a, " ");
    }
    push_str(&mut a, " ");
    push_str(&mut a, p.name.as_str());
    lines.push(a);
    lines.push(line2("  URL: ", p.base_url.as_str()));
    let t = crate::text::trim_str(p.email.as_str());
    if t.unicode_len() == 0 {
        lines.push(line2("  User: ", "(empty)"));
    } else {
        lines.push(line2("  User: ", p.email.as_str()));
    }
    let pr = opt_or(&p.project, "(none)");
    lines.push(line2("  Project: ", pr.as_str()));
    let mut tm = String::new();
    push_str(&mut tm, "  Timeout: ");
    push_decimal(&mut tm, p.timeout_secs);
    push_str(&mut tm, "s");
    lines.push(tm);
    let mut d = String::new();
    push_str(&mut d, "  Deployment: ");
    push_deployment_name(&mut d, p.deployment);
    lines.push(d);
    let mut au = String::new();
    push_str(&mut au, "  Auth: ");
    push_auth_name(&mut au, p.auth_type);
    lines.push(au);
    let mut api = String::new();
    push_str(&mut api, "  API: v");
    push_decimal(&mut api, p.api_version as u64);
    lines.push(api);
    let present = match &p.token {
        Some(tok) => crate::text::trim_str(tok.as_str()).unicode_len() > 0,
        None => false,
    };
    if present {
        lines.push(line2("  Token: ", "present"));
    } else {
        lines.push(line2("  Token: ", "missing"));
    }
    lines.push(String::new());
    assert(views(lines@) =~= l0 + config_block_of(*p, crate::model::opt_view(*current)));
}

/// The configuration tab.
pub fn config_view_lines(path: &str, store: &StoreLoad, env: &EnvReport, effective: &Result<Effective, String>) -> (r: Vec<String>)
    ensures
        views(r@) == config_view_of(path@, *store, *env, *effective),
{
    let mut lines: Vec<String> = Vec::new();
    lines.push(line2("Config file: ", path));
    lines.push(String::new());
    let ghost l0 = views(lines@);
    match store {
        StoreLoad::Loaded(st) => {
            let cur = opt_or(&st.current_name, "(none)");
            lines.push(line2("Current profile: ", cur.as_str()));
            let mut n = String::new();
            push_str(&mut n, "Profiles: ");
            push_decimal(&mut n, st.profiles.len() as u64);
            lines.push(n);
            lines.push(String::new());
            let ghost l1 = views(lines@);
            let ghost c = crate::model::opt_view(st.current_field);
            let mut i: usize = 0;
            assert(st.profiles@.take(0) =~= Seq::<ProfileSummary>::empty());
            while i < st.profiles.len()
                invariant
                    i <= st.profiles@.len(),
                    c == crate::model::opt_view(st.current_field),
                    views(lines@) == l1 + config_blocks(st.profiles@.take(i as int), c),
                decreases st.profiles@.len() - i,
            {
                assert(st.profiles@.take(i + 1).drop_last() =~= st.profiles@.take(i as int));
                assert(st.profiles@.take(i + 1).last() == st.profiles@[i as int]);
                push_config_block(&mut lines, &st.profiles[i], &st.current_field);
                i = i + 1;
            }
            assert(st.profiles@.take(i as int) =~= st.profiles@);
            assert(l1 =~= l0 + seq![
                "Current profile: "@ + or_text(st.current_name, "(none)"@),
                "Profiles: "@ + decimal(st.profiles@.len()),
                Seq::empty(),
            ]);
        },
        StoreLoad::Failed { error, raw_read_error } => {
            lines.push(line2("Config parse failed: ", error.as_str()));
            lines.push(String::new());
            match raw_read_error {
                Some(e) => lines.push(line2("Failed to read raw file: ", e.as_str())),
                None => lines.push(line2("Raw config preview suppressed to avoid exposing secrets.", "")),
            }
            proof {
                reveal_strlit("");
            }
        },
    }
    let ghost l2 = views(lines@);
    assert(l2 =~= l0 + match *store {
        StoreLoad::Loaded(st) => seq![
            "Current profile: "@ + or_text(st.current_name, "(none)"@),
            "Profiles: "@ + decimal(st.profiles@.len()),
            Seq::empty(),
        ] + config_blocks(st.profiles@, crate::model::opt_view(st.current_field)),
        StoreLoad::Failed { error, raw_read_error } => seq![
            "Config parse failed: "@ + error@,
            Seq::empty(),
            match raw_read_error {
                Some(e) => "Failed to read raw file: "@ + e@,
                None => "Raw config preview suppressed to avoid exposing secrets."@,
            },
        ],
    });
    lines.push(line2("Environment overrides (detected now):", ""));
    proof {
        reveal_strlit("");
    }
    let ghost l3 = views(lines@);
    assert(l3 =~= l2 + seq!["Environment overrides (detected now):"@]);
    match effective {
        Ok(cfg) => {
            let pv = opt_or(&env.profile_var, "(unset)");
            lines.push(line2("  JIRA_PROFILE => ", pv.as_str()));
            lines.push(line2("  JIRA_URL => ", set_or_unset(env.url_set)));
            lines.push(line2("  JIRA_EMAIL => ", set_or_unset(env.email_set)));
            lines.push(line2("  JIRA_TOKEN => ", set_or_unset(env.token_set)));
            let ep = opt_or(&cfg.profile_name, "(unknown)");
            lines.push(line2("  Effective profile: ", ep.as_str()));
            lines.push(line2("  Effective URL: ", cfg.base_url.as_str()));
            let epr = opt_or(&cfg.project, "(none)");
            lines.push(line2("  Effective project: ", epr.as_str()));
            let mut t = String::new();
            push_str(&mut t, "  Effective timeout: ");
            push_decimal(&mut t, cfg.timeout_secs);
            push_str(&mut t, "s");
            lines.push(t);
        },
        Err(e) => {
            lines.push(line2("  Failed to load effective config: ", e.as_str()));
        },
    }
    assert(views(lines@) =~= l3 + match *effective {
        Ok(cfg) => seq![
            "  JIRA_PROFILE => "@ + or_text(env.profile_var, "(unset)"@),
            "  JIRA_URL => "@ + if env.url_set {
                "set"@
            } else {
                "unset"@
            },
            "  JIRA_EMAIL => "@ + if env.email_set {
                "set"@
            } else {
                "unset"@
            },
            "  JIRA_TOKEN => "@ + if env.token_set {
                "set"@
            } else {
                "unset"@
            },
            "  Effective profile: "@ + or_text(cfg.profile_name, "(unknown)"@),
            "  Effective URL: "@ + cfg.base_url@,
            "  Effective project: "@ + or_text(cfg.project, "(none)"@),
            "  Effective timeout: "@ + decimal(cfg.timeout_secs as nat) + "s"@,
        ],
        Err(e) => seq!["  Failed to load effective config: "@ + e@],
    });
    assert(views(lines@) =~= config_view_of(path@, *store, *env, *effective));
    lines
}

} // verus!

//! Login-profile helpers: deployment and authentication choices, their labels,
//! and the default profile name derived from a URL and user.
use vstd::prelude::*;

use crate::text::{
    chars_of, contains, decimal, lemma_split_first, push_char, push_decimal, push_str, sep_pred,
    skip_prefixes, split_on, str_contains, str_eq, string_of_range, strip_prefixes, trim,
    trim_bounds, trim_str, Separator,
};

verus! {

/// `--deployment` values.
#[derive(Clone, Copy, PartialEq, Eq, Structural)]
pub enum DeploymentArg {
    Cloud,
    Datacenter,
}

/// `--auth-type` values.
#[derive(Clone, Copy, PartialEq, Eq, Structural)]
pub enum AuthTypeArg {
    CloudApiToken,
    DatacenterPat,
    DatacenterBasic,
}

/// Where the Jira instance runs.
#[derive(Clone, Copy, PartialEq, Eq, Structural)]
pub enum JiraDeployment {
    Cloud,
    DataCenter,
}

/// How requests authenticate.
#[derive(Clone, Copy, PartialEq, Eq, Structural)]
pub enum JiraAuthType {
    CloudApiToken,
    DataCenterPat,
    DataCenterBasic,
}

/// The deployment a `--deployment` value selects.
pub fn deployment_from_arg(value: DeploymentArg) -> (r: JiraDeployment)
    ensures
        r == (match value {
            DeploymentArg::Cloud => JiraDeployment::Cloud,
            DeploymentArg::Datacenter => JiraDeployment::DataCenter,
        }),
{
    match value {
        DeploymentArg::Cloud => JiraDeployment::Cloud,
        DeploymentArg::Datacenter => JiraDeployment::DataCenter,
    }
}

/// The authentication mode an `--auth-type` value selects.
pub fn auth_type_from_arg(value: AuthTypeArg) -> (r: JiraAuthType)
    ensures
        r == (match value {
            AuthTypeArg::CloudApiToken => JiraAuthType::CloudApiToken,
            AuthTypeArg::DatacenterPat => JiraAuthType::DataCenterPat,
            AuthTypeArg::DatacenterBasic => JiraAuthType::DataCenterBasic,
        }),
{
    match value {
        AuthTypeArg::CloudApiToken => JiraAuthType::CloudApiToken,
        AuthTypeArg::DatacenterPat => JiraAuthType::DataCenterPat,
        AuthTypeArg::DatacenterBasic => JiraAuthType::DataCenterBasic,
    }
}

/// Cloud when the URL mentions `atlassian.net`, Data Center otherwise.
pub fn infer_deployment(base_url: &str) -> (r: JiraDeployment)
    ensures
        r == (if contains(base_url@, "atlassian.net"@) {
            JiraDeployment::Cloud
        } else {
            JiraDeployment::DataCenter
        }),
{
    if str_contains(base_url, "atlassian.net") {
        JiraDeployment::Cloud
    } else {
        JiraDeployment::DataCenter
    }
}

/// The authentication mode offered first for a deployment.
pub fn default_auth_type(deployment: JiraDeployment) -> (r: JiraAuthType)
    ensures
        r == (match deployment {
            JiraDeployment::Cloud => JiraAuthType::CloudApiToken,
            JiraDeployment::DataCenter => JiraAuthType::DataCenterPat,
        }),
{
    match deployment {
        JiraDeployment::Cloud => JiraAuthType::CloudApiToken,
        JiraDeployment::DataCenter => JiraAuthType::DataCenterPat,
    }
}

/// The label shown for a deployment.
pub fn deployment_label(value: JiraDeployment) -> (r: &'static str)
    ensures
        r@ == (match value {
            JiraDeployment::Cloud => "Cloud"@,
            JiraDeployment::DataCenter => "Data Center"@,
        }),
{
    match value {
        JiraDeployment::Cloud => "Cloud",
        JiraDeployment::DataCenter => "Data Center",
    }
}

/// The label shown for an authentication mode.
pub fn auth_type_label(value: JiraAuthType) -> (r: &'static str)
    ensures
        r@ == (match value {
            JiraAuthType::CloudApiToken => "Cloud API token"@,
            JiraAuthType::DataCenterPat => "Data Center PAT"@,
            JiraAuthType::DataCenterBasic => "Data Center basic"@,
        }),
{
    match value {
        JiraAuthType::CloudApiToken => "Cloud API token",
        JiraAuthType::DataCenterPat => "Data Center PAT",
        JiraAuthType::DataCenterBasic => "Data Center basic",
    }
}

/// A prompt answer trimmed, or nothing when it is blank.
pub fn normalize_optional(value: String) -> (r: Option<String>)
    ensures
        match r {
            Some(s) => trim(value@).len() > 0 && s@ == trim(value@),
            None => trim(value@).len() == 0,
        },
{
    let v = chars_of(value.as_str());
    let (a, b) = trim_bounds(&v);
    if a == b {
        None
    } else {
        Some(string_of_range(&v, a, b))
    }
}

/// A character kept as is in the user part of a profile name.
pub open spec fn profile_char(c: char) -> bool {
    ('a' <= c && c <= 'z') || ('A' <= c && c <= 'Z') || ('0' <= c && c <= '9') || c == '-' || c
        == '_'
}

/// The host part of a base URL: `https://` and then `http://` prefixes removed,
/// up to the first `/`, with `:` written as `-`.
pub open spec fn url_host(base_url: Seq<char>) -> Seq<char> {
    let rest = strip_prefixes(strip_prefixes(base_url, "https://"@), "http://"@);
    split_on(rest, sep_pred(Separator::Char('/')))[0].map_values(|c: char| if c == ':' { '-' } else { c })
}

/// The user part of a login: up to the first `@`, every character other than an
/// ASCII letter, digit, `-` or `_` written as `-`.
pub open spec fn login_user(email: Seq<char>) -> Seq<char> {
    split_on(email, sep_pred(Separator::Char('@')))[0].map_values(
        |c: char|
            if profile_char(c) {
                c
            } else {
                '-'
            },
    )
}

/// The default profile name: the URL's host, followed by `-` and the login's
/// user part when the login is not blank.
pub open spec fn profile_name(base_url: Seq<char>, email: Seq<char>) -> Seq<char> {
    if trim(email).len() == 0 {
        url_host(base_url)
    } else {
        url_host(base_url) + "-"@ + login_user(email)
    }
}

/// Index of the first `c` in `v[from..]`, or `v.len()`.
fn find_char(v: &Vec<char>, from: usize, c: char) -> (i: usize)
    requires
        from <= v@.len(),
    ensures
        from <= i <= v@.len(),
        i < v@.len() ==> v@[i as int] == c,
        forall|k: int| from <= k < i ==> v@[k] != c,
{
    let mut i = from;
    while i < v.len() && v[i] != c
        invariant
            from <= i <= v@.len(),
            forall|k: int| from <= k < i ==> v@[k] != c,
        decreases v@.len() - i,
    {
        i = i + 1;
    }
    i
}


/// The default profile name for a base URL and login.
pub fn derive_profile_name(base_url: &str, email: &str) -> (r: String)
    ensures
        r@ == profile_name(base_url@, email@),
{
    let v = chars_of(base_url);
    let https = chars_of("https://");
    let http = chars_of("http://");
    proof {
        reveal_strlit("https://");
        reveal_strlit("http://");
    }
    let a = skip_prefixes(&v, 0, &https);
    assert(v@.skip(0) =~= v@);
    let b = skip_prefixes(&v, a, &http);
    let end = find_char(&v, b, '/');
    let ghost rest = v@.skip(b as int);
    proof {
        let sep = sep_pred(Separator::Char('/'));
        assert forall|k: int| 0 <= k < end - b implies !sep(#[trigger] rest[k]) by {
            assert(rest[k] == v@[b + k]);
        }
        if end < v@.len() {
            assert(rest[end - b] == v@[end as int]);
        }
        lemma_split_first(rest, sep, end - b);
        assert(rest.take(end - b) =~= v@.subrange(b as int, end as int));
    }
    let ghost host_spec = url_host(base_url@);
    let mut name = String::new();
    let mut k = b;
    while k < end
        invariant
            b <= k <= end <= v@.len(),
            host_spec == v@.subrange(b as int, end as int).map_values(
                |c: char|
                    if c == ':' {
                        '-'
                    } else {
                        c
                    },
            ),
            name@ == host_spec.take(k - b),
        decreases end - k,
    {
        let c = v[k];
        push_char(&mut name, if c == ':' { '-' } else { c });
        k = k + 1;
        assert(name@ =~= host_spec.take(k - b));
    }
    assert(host_spec.take(end - b) =~= host_spec);
    let e = chars_of(email);
    let (ta, tb) = trim_bounds(&e);
    if ta == tb {
        return name;
    }
    push_str(&mut name, "-");
    let ghost prefix = name@;
    let at = find_char(&e, 0, '@');
    proof {
        let sep = sep_pred(Separator::Char('@'));
        lemma_split_first(e@, sep, at as int);
        assert(e@.take(at as int) =~= e@.subrange(0, at as int));
    }
    let ghost user_spec = login_user(email@);
    let mut k: usize = 0;
    while k < at
        invariant
            k <= at <= e@.len(),
            user_spec == e@.subrange(0, at as int).map_values(
                |c: char|
                    if profile_char(c) {
                        c
                    } else {
                        '-'
                    },
            ),
            name@ == prefix + user_spec.take(k as int),
        decreases at - k,
    {
        let c = e[k];
        let keep = ('a' <= c && c <= 'z') || ('A' <= c && c <= 'Z') || ('0' <= c && c <= '9')
            || c == '-' || c == '_';
        push_char(&mut name, if keep { c } else { '-' });
        k = k + 1;
        assert(name@ =~= prefix + user_spec.take(k as int));
    }
    assert(user_spec.take(at as int) =~= user_spec);
    name
}

/// `jirac auth` subcommands.
pub enum AuthCommand {
    /// Set up credentials, prompting for what is not given.
    Login {
        profile: Option<String>,
        url: Option<String>,
        email: Option<String>,
        token: Option<String>,
        project: Option<String>,
        timeout_secs: Option<u64>,
        deployment: Option<DeploymentArg>,
        auth_type: Option<AuthTypeArg>,
    },
    /// Remove stored tokens.
    Logout { profile: Option<String>, all: bool },
    /// Show the authentication status.
    Status { profile: Option<String> },
    /// List saved profiles.
    Profiles,
    /// Switch the active profile.
    Use { profile: String },
    /// Change one profile.
    Update {
        profile: Option<String>,
        url: Option<String>,
        email: Option<String>,
        token: Option<String>,
        project: Option<String>,
        timeout_secs: Option<u64>,
        deployment: Option<DeploymentArg>,
        auth_type: Option<AuthTypeArg>,
    },
}

/// The refusal of an update that changes nothing.
pub open spec fn nothing_to_update_text() -> Seq<char> {
    "Nothing to update. Use --url, --email, --token, --project, --timeout-secs, --deployment, or --auth-type."@
}

/// Checks an auth command before it runs: an update must change something.
pub fn handle(cmd: AuthCommand) -> (r: Result<AuthCommand, String>)
    ensures
        match cmd {
            AuthCommand::Update { url, email, token, project, timeout_secs, deployment, auth_type, .. } =>
                if url is None && email is None && token is None && project is None && timeout_secs is None
                    && deployment is None && auth_type is None {
                    r matches Err(m) && m@ == nothing_to_update_text()
                } else {
                    r == Ok::<AuthCommand, String>(cmd)
                },
            _ => r == Ok::<AuthCommand, String>(cmd),
        },
{
    let empty_update = match &cmd {
        AuthCommand::Update { url, email, token, project, timeout_secs, deployment, auth_type, .. } =>
            url.is_none() && email.is_none() && token.is_none() && project.is_none()
                && timeout_secs.is_none() && deployment.is_none() && auth_type.is_none(),
        _ => false,
    };
    if empty_update {
        let mut m = String::new();
        push_str(&mut m, "Nothing to update. Use --url, --email, --token, --project, --timeout-secs, --deployment, or --auth-type.");
        return Err(m);
    }
    Ok(cmd)
}

/// The settings of a profile that login and update write.
pub struct ProfileSettings {
    pub base_url: String,
    pub email: String,
    pub token: Option<String>,
    pub project: Option<String>,
    pub timeout_secs: u64,
    pub deployment: JiraDeployment,
    pub auth_type: JiraAuthType,
    pub api_version: u32,
}

/// The changes an update asks for.
pub struct ProfileUpdate {
    pub url: Option<String>,
    pub email: Option<String>,
    pub token: Option<String>,
    pub project: Option<String>,
    pub timeout_secs: Option<u64>,
    pub deployment: Option<DeploymentArg>,
    pub auth_type: Option<AuthTypeArg>,
}

/// An authentication mode that works with a deployment.
pub open spec fn auth_fits(d: JiraDeployment, a: JiraAuthType) -> bool {
    match d {
        JiraDeployment::Cloud => a == JiraAuthType::CloudApiToken,
        JiraDeployment::DataCenter => a != JiraAuthType::CloudApiToken,
    }
}

/// The authentication mode kept when the deployment changes to `d`: a mode of
/// the other deployment is replaced by the new deployment's default.
pub open spec fn auth_after_move(d: JiraDeployment, a: JiraAuthType) -> JiraAuthType {
    if a == JiraAuthType::CloudApiToken && d == JiraDeployment::DataCenter {
        JiraAuthType::DataCenterPat
    } else if (a == JiraAuthType::DataCenterPat || a == JiraAuthType::DataCenterBasic) && d
        == JiraDeployment::Cloud {
        JiraAuthType::CloudApiToken
    } else {
        a
    }
}

/// The content of an optional string.
pub open spec fn opt_seq(o: Option<String>) -> Option<Seq<char>> {
    match o {
        Some(s) => Some(s@),
        None => None,
    }
}

/// Applies an update to a profile's settings: texts are trimmed, a blank
/// project clears it, a new deployment resets the API version and moves the
/// authentication mode to one that fits, and an explicit mode wins.
pub fn apply_update(settings: ProfileSettings, update: ProfileUpdate) -> (r: ProfileSettings)
    ensures
        r.base_url@ == match update.url {
            Some(u) => trim(u@),
            None => settings.base_url@,
        },
        r.email@ == match update.email {
            Some(e) => trim(e@),
            None => settings.email@,
        },
        opt_seq(r.token) == match update.token {
            Some(t) => Some(t@),
            None => opt_seq(settings.token),
        },
        opt_seq(r.project) == match update.project {
            Some(p) => if trim(p@).len() == 0 {
                None
            } else {
                Some(trim(p@))
            },
            None => opt_seq(settings.project),
        },
        r.timeout_secs == match update.timeout_secs {
            Some(t) => t,
            None => settings.timeout_secs,
        },
        r.deployment == match update.deployment {
            Some(d) => match d {
                DeploymentArg::Cloud => JiraDeployment::Cloud,
                DeploymentArg::Datacenter => JiraDeployment::DataCenter,
            },
            None => settings.deployment,
        },
        r.api_version == if update.deployment is Some {
            0
        } else {
            settings.api_version
        },
        r.auth_type == match update.auth_type {
            Some(a) => match a {
                AuthTypeArg::CloudApiToken => JiraAuthType::CloudApiToken,
                AuthTypeArg::DatacenterPat => JiraAuthType::DataCenterPat,
                AuthTypeArg::DatacenterBasic => JiraAuthType::DataCenterBasic,
            },
            None => if update.deployment is Some {
                auth_after_move(r.deployment, settings.auth_type)
            } else {
                settings.auth_type
            },
        },
{
    let mut s = settings;
    match update.url {
        Some(u) => {
            s.base_url = trim_str(u.as_str());
        },
        None => {},
    }
    match update.email {
        Some(e) => {
            s.email = trim_str(e.as_str());
        },
        None => {},
    }
    match update.token {
        Some(t) => {
            s.token = Some(t);
        },
        None => {},
    }
    match update.project {
        Some(p) => {
            s.project = normalize_optional(p);
        },
        None => {},
    }
    match update.timeout_secs {
        Some(t) => {
            s.timeout_secs = t;
        },
        None => {},
    }
    match update.deployment {
        Some(d) => {
            s.deployment = deployment_from_arg(d);
            if s.auth_type == JiraAuthType::CloudApiToken && s.deployment == JiraDeployment::DataCenter {
                s.auth_type = JiraAuthType::DataCenterPat;
            }
            if (s.auth_type == JiraAuthType::DataCenterPat || s.auth_type == JiraAuthType::DataCenterBasic)
                && s.deployment == JiraDeployment::Cloud {
                s.auth_type = JiraAuthType::CloudApiToken;
            }
            s.api_version = 0;
        },
        None => {},
    }
    match update.auth_type {
        Some(a) => {
            s.auth_type = auth_type_from_arg(a);
        },
        None => {},
    }
    s
}

/// Moving a profile to another deployment without naming an authentication
/// mode leaves it with a mode that fits the new deployment.
pub proof fn law_deployment_change_fits(d: JiraDeployment, a: JiraAuthType)
    ensures
        auth_fits(d, auth_after_move(d, a)),
{
}

/// When the deployment changes and no mode is named, a mode that already suits
/// the new deployment is kept (the API token on Cloud; a personal access token
/// or basic login on Data Center), and one that does not is replaced by the new
/// deployment's default: the API token on Cloud, a personal access token on
/// Data Center.
pub proof fn law_deployment_change_keeps_fitting_auth(d: JiraDeployment, a: JiraAuthType)
    ensures
        (d == JiraDeployment::Cloud && a == JiraAuthType::CloudApiToken) ==> auth_after_move(d, a) == a,
        (d == JiraDeployment::DataCenter && a != JiraAuthType::CloudApiToken) ==> auth_after_move(d, a) == a,
        (d == JiraDeployment::Cloud && a != JiraAuthType::CloudApiToken) ==> auth_after_move(d, a)
            == JiraAuthType::CloudApiToken,
        (d == JiraDeployment::DataCenter && a == JiraAuthType::CloudApiToken) ==> auth_after_move(d, a)
            == JiraAuthType::DataCenterPat,
{
}

/// The deployment a login uses: the one given, else the one the URL suggests;
/// the user is asked to confirm only when none was given.
pub fn login_deployment(arg: Option<DeploymentArg>, base_url: &str) -> (r: (JiraDeployment, bool))
    ensures
        r.0 == match arg {
            Some(DeploymentArg::Cloud) => JiraDeployment::Cloud,
            Some(DeploymentArg::Datacenter) => JiraDeployment::DataCenter,
            None => if contains(base_url@, "atlassian.net"@) {
                JiraDeployment::Cloud
            } else {
                JiraDeployment::DataCenter
            },
        },
        r.1 == (arg is None),
{
    match arg {
        Some(d) => (deployment_from_arg(d), false),
        None => (infer_deployment(base_url), true),
    }
}

/// The authentication mode a login uses: the one given, else the deployment's
/// default; the user is asked to confirm only when none was given.
pub fn login_auth_type(arg: Option<AuthTypeArg>, deployment: JiraDeployment) -> (r: (JiraAuthType, bool))
    ensures
        r.0 == match arg {
            Some(AuthTypeArg::CloudApiToken) => JiraAuthType::CloudApiToken,
            Some(AuthTypeArg::DatacenterPat) => JiraAuthType::DataCenterPat,
            Some(AuthTypeArg::DatacenterBasic) => JiraAuthType::DataCenterBasic,
            None => match deployment {
                JiraDeployment::Cloud => JiraAuthType::CloudApiToken,
                JiraDeployment::DataCenter => JiraAuthType::DataCenterPat,
            },
        },
        r.1 == (arg is None),
{
    match arg {
        Some(a) => (auth_type_from_arg(a), false),
        None => (default_auth_type(deployment), true),
    }
}

/// The choices offered when asking for the deployment, and the one preselected.
pub fn deployment_choices(default: JiraDeployment) -> (r: (Vec<&'static str>, usize))
    ensures
        r.0@.len() == 2,
        r.0@[0]@ == "Cloud"@,
        r.0@[1]@ == "Data Center"@,
        r.1 == match default {
            JiraDeployment::Cloud => 0usize,
            JiraDeployment::DataCenter => 1usize,
        },
{
    let options = vec!["Cloud", "Data Center"];
    let cursor: usize = match default {
        JiraDeployment::Cloud => 0,
        JiraDeployment::DataCenter => 1,
    };
    (options, cursor)
}

/// The deployment a picked choice names: `Cloud`, else Data Center.
pub fn deployment_from_choice(choice: &str) -> (r: JiraDeployment)
    ensures
        r == if choice@ == "Cloud"@ {
            JiraDeployment::Cloud
        } else {
            JiraDeployment::DataCenter
        },
{
    if str_eq(choice, "Cloud") {
        JiraDeployment::Cloud
    } else {
        JiraDeployment::DataCenter
    }
}

/// The authentication modes offered for a deployment, and the one preselected.
pub fn auth_type_choices(deployment: JiraDeployment, default: JiraAuthType) -> (r: (Vec<&'static str>, usize))
    ensures
        match deployment {
            JiraDeployment::Cloud => r.0@.len() == 1 && r.0@[0]@ == "Cloud API token"@,
            JiraDeployment::DataCenter => r.0@.len() == 2 && r.0@[0]@ == "Data Center PAT"@
                && r.0@[1]@ == "Data Center basic"@,
        },
        r.1 == match default {
            JiraAuthType::DataCenterBasic => 1usize,
            _ => 0usize,
        },
{
    let options = match deployment {
        JiraDeployment::Cloud => vec!["Cloud API token"],
        JiraDeployment::DataCenter => vec!["Data Center PAT", "Data Center basic"],
    };
    let cursor: usize = match default {
        JiraAuthType::DataCenterBasic => 1,
        _ => 0,
    };
    (options, cursor)
}

/// The authentication mode a picked choice names (Data Center PAT by default).
pub fn auth_type_from_choice(choice: &str) -> (r: JiraAuthType)
    ensures
        r == if choice@ == "Cloud API token"@ {
            JiraAuthType::CloudApiToken
        } else if choice@ == "Data Center basic"@ {
            JiraAuthType::DataCenterBasic
        } else {
            JiraAuthType::DataCenterPat
        },
{
    if str_eq(choice, "Cloud API token") {
        JiraAuthType::CloudApiToken
    } else if str_eq(choice, "Data Center basic") {
        JiraAuthType::DataCenterBasic
    } else {
        JiraAuthType::DataCenterPat
    }
}

/// The profile a login saves: the name given when it is not blank, else the
/// name derived from the URL and the user.
pub fn login_profile_name(profile: Option<String>, base_url: &str, email: &str) -> (r: String)
    ensures
        r@ == match profile {
            Some(p) => if trim(p@).len() > 0 {
                p@
            } else {
                profile_name(base_url@, email@)
            },
            None => profile_name(base_url@, email@),
        },
{
    match profile {
        Some(p) => {
            let v = chars_of(p.as_str());
            let (a, b) = trim_bounds(&v);
            if a < b {
                p
            } else {
                derive_profile_name(base_url, email)
            }
        },
        None => derive_profile_name(base_url, email),
    }
}

/// The line listing one saved profile: `*` marks the active one, and the user
/// is shown in brackets when set.
pub open spec fn profile_line_of(name: Seq<char>, active: bool, d: JiraDeployment, a: JiraAuthType, api_version: u32, email: Seq<char>) -> Seq<char> {
    (if active {
        "*"@
    } else {
        " "@
    }) + " "@ + name + " — "@ + match d {
        JiraDeployment::Cloud => "Cloud"@,
        JiraDeployment::DataCenter => "Data Center"@,
    } + " · "@ + match a {
        JiraAuthType::CloudApiToken => "Cloud API token"@,
        JiraAuthType::DataCenterPat => "Data Center PAT"@,
        JiraAuthType::DataCenterBasic => "Data Center basic"@,
    } + " · api v"@ + decimal(api_version as nat) + if trim(email).len() == 0 {
        Seq::empty()
    } else {
        " ["@ + email + "]"@
    }
}

/// The line listing one saved profile.
pub fn profile_line(name: &str, active: bool, d: JiraDeployment, a: JiraAuthType, api_version: u32, email: &str) -> (r: String)
    ensures
        r@ == profile_line_of(name@, active, d, a, api_version, email@),
{
    let mut l = String::new();
    if active {
        push_str(&mut l, "*");
    } else {
        push_str(&mut l, " ");
    }
    push_str(&mut l, " ");
    push_str(&mut l, name);
    push_str(&mut l, " — ");
    push_str(&mut l, deployment_label(d));
    push_str(&mut l, " · ");
    push_str(&mut l, auth_type_label(a));
    push_str(&mut l, " · api v");
    push_decimal(&mut l, api_version as u64);
    let v = chars_of(email);
    let (x, y) = trim_bounds(&v);
    if x < y {
        push_str(&mut l, " [");
        push_str(&mut l, email);
        push_str(&mut l, "]");
    }
    l
}

} // verus!

//! JQL text: quoting a value into a string literal, telling a JQL query from a
//! plain search phrase, and turning a phrase into a query.
use vstd::prelude::*;

use crate::text::{chars_of, contains, lowercase, push_char, push_str, str_contains, to_lowercase, trim, trim_str};

verus! {

/// How one character is written inside a JQL string literal: a backslash or a
/// double quote gets a backslash in front.
pub open spec fn escape_char(c: char) -> Seq<char> {
    if c == '\\' {
        seq!['\\', '\\']
    } else if c == '"' {
        seq!['\\', '"']
    } else {
        seq![c]
    }
}

/// `s` written for the inside of a JQL string literal.
pub open spec fn escaped(s: Seq<char>) -> Seq<char>
    decreases s.len(),
{
    if s.len() == 0 {
        Seq::empty()
    } else {
        escaped(s.drop_last()) + escape_char(s.last())
    }
}

/// Escapes backslashes and double quotes so that `value` can stand between
/// double quotes in a query.
pub fn escape_jql(value: &str) -> (r: String)
    ensures
        r@ == escaped(value@),
{
    let v = chars_of(value);
    let mut out = String::new();
    let mut i: usize = 0;
    while i < v.len()
        invariant
            v@ == value@,
            i <= v@.len(),
            out@ == escaped(v@.take(i as int)),
        decreases v@.len() - i,
    {
        let c = v[i];
        assert(v@.take(i + 1).drop_last() =~= v@.take(i as int));
        if c == '\\' {
            push_char(&mut out, '\\');
            push_char(&mut out, '\\');
        } else if c == '"' {
            push_char(&mut out, '\\');
            push_char(&mut out, '"');
        } else {
            push_char(&mut out, c);
        }
        i = i + 1;
        assert(out@ =~= escaped(v@.take(i as int)));
    }
    assert(v@.take(i as int) =~= v@);
    out
}

/// The fragments whose presence makes a search input count as JQL.
pub open spec fn jql_markers() -> Seq<Seq<char>> {
    seq![
        "project ="@,
        "assignee ="@,
        "status ="@,
        "summary ~"@,
        "text ~"@,
        "order by"@,
        "labels ="@,
        "labels in"@,
        "sprint ="@,
        "fixversion"@,
        "component"@,
        "issuetype"@,
        "resolution"@,
        "created >="@,
        "updated >="@,
        "priority ="@,
        "reporter ="@,
        " and "@,
        " or "@,
        " not "@,
        " in ("@,
        " is empty"@,
        " is not empty"@,
        "parent ="@,
        "key ="@,
    ]
}

/// The input, trimmed and lower-cased, contains one of the markers.
pub open spec fn is_jql_like(input: Seq<char>) -> bool {
    exists|i: int| 0 <= i < jql_markers().len() && #[trigger] contains(lowercase(trim(input)), jql_markers()[i])
}

/// A search input counts as JQL exactly when its trimmed, lower-cased text
/// contains one of these fragments: `project =`, `assignee =`, `status =`,
/// `summary ~`, `text ~`, `order by`, `labels =`, `labels in`, `sprint =`,
/// `fixversion`, `component`, `issuetype`, `resolution`, `created >=`,
/// `updated >=`, `priority =`, `reporter =`, ` and `, ` or `, ` not `, ` in (`,
/// ` is empty`, ` is not empty`, `parent =`, `key =`. Such an input is run as
/// the query itself (trimmed), whatever the default project; any other input
/// becomes a summary search.
pub proof fn law_jql_detection(input: Seq<char>, default_project: Option<Seq<char>>)
    ensures
        ({
            let l = lowercase(trim(input));
            is_jql_like(input) <==> (contains(l, "project ="@) || contains(l, "assignee ="@)
                || contains(l, "status ="@) || contains(l, "summary ~"@) || contains(l, "text ~"@)
                || contains(l, "order by"@) || contains(l, "labels ="@) || contains(l, "labels in"@)
                || contains(l, "sprint ="@) || contains(l, "fixversion"@) || contains(l, "component"@)
                || contains(l, "issuetype"@) || contains(l, "resolution"@) || contains(l, "created >="@)
                || contains(l, "updated >="@) || contains(l, "priority ="@) || contains(l, "reporter ="@)
                || contains(l, " and "@) || contains(l, " or "@) || contains(l, " not "@)
                || contains(l, " in ("@) || contains(l, " is empty"@) || contains(l, " is not empty"@)
                || contains(l, "parent ="@) || contains(l, "key ="@))
        }),
        is_jql_like(input) ==> search_query(default_project, input) == trim(input),
        !is_jql_like(input) ==> search_query(default_project, input) == match default_project {
            Some(p) => "project = "@ + p + " AND summary ~ "@ + debug_quoted(trim(input))
                + " ORDER BY updated DESC"@,
            None => "assignee = currentUser() AND summary ~ "@ + debug_quoted(trim(input))
                + " ORDER BY updated DESC"@,
        },
{
    let l = lowercase(trim(input));
    let m = jql_markers();
    assert(m[0] == "project ="@ && m[1] == "assignee ="@ && m[2] == "status ="@ && m[3] == "summary ~"@
        && m[4] == "text ~"@ && m[5] == "order by"@ && m[6] == "labels ="@ && m[7] == "labels in"@
        && m[8] == "sprint ="@ && m[9] == "fixversion"@ && m[10] == "component"@ && m[11] == "issuetype"@
        && m[12] == "resolution"@ && m[13] == "created >="@ && m[14] == "updated >="@
        && m[15] == "priority ="@ && m[16] == "reporter ="@ && m[17] == " and "@ && m[18] == " or "@
        && m[19] == " not "@ && m[20] == " in ("@ && m[21] == " is empty"@ && m[22] == " is not empty"@
        && m[23] == "parent ="@ && m[24] == "key ="@ && m.len() == 25);
    if is_jql_like(input) {
        let i = choose|i: int| 0 <= i < m.len() && #[trigger] contains(l, m[i]);
        assert(contains(l, m[i]));
    }
    if contains(l, "project ="@) { assert(contains(l, m[0])); }
    if contains(l, "assignee ="@) { assert(contains(l, m[1])); }
    if contains(l, "status ="@) { assert(contains(l, m[2])); }
    if contains(l, "summary ~"@) { assert(contains(l, m[3])); }
    if contains(l, "text ~"@) { assert(contains(l, m[4])); }
    if contains(l, "order by"@) { assert(contains(l, m[5])); }
    if contains(l, "labels ="@) { assert(contains(l, m[6])); }
    if contains(l, "labels in"@) { assert(contains(l, m[7])); }
    if contains(l, "sprint ="@) { assert(contains(l, m[8])); }
    if contains(l, "fixversion"@) { assert(contains(l, m[9])); }
    if contains(l, "component"@) { assert(contains(l, m[10])); }
    if contains(l, "issuetype"@) { assert(contains(l, m[11])); }
    if contains(l, "resolution"@) { assert(contains(l, m[12])); }
    if contains(l, "created >="@) { assert(contains(l, m[13])); }
    if contains(l, "updated >="@) { assert(contains(l, m[14])); }
    if contains(l, "priority ="@) { assert(contains(l, m[15])); }
    if contains(l, "reporter ="@) { assert(contains(l, m[16])); }
    if contains(l, " and "@) { assert(contains(l, m[17])); }
    if contains(l, " or "@) { assert(contains(l, m[18])); }
    if contains(l, " not "@) { assert(contains(l, m[19])); }
    if contains(l, " in ("@) { assert(contains(l, m[20])); }
    if contains(l, " is empty"@) { assert(contains(l, m[21])); }
    if contains(l, " is not empty"@) { assert(contains(l, m[22])); }
    if contains(l, "parent ="@) { assert(contains(l, m[23])); }
    if contains(l, "key ="@) { assert(contains(l, m[24])); }
    crate::text::lemma_trim_idempotent(input);
    assert(is_jql_like(trim(input)) == is_jql_like(input));
    reveal_strlit(" AND ");
    reveal_strlit("summary ~ ");
    reveal_strlit(" AND summary ~ ");
    reveal_strlit("assignee = currentUser() AND ");
    reveal_strlit("assignee = currentUser() AND summary ~ ");
    let q = debug_quoted(trim(input));
    let o = " ORDER BY updated DESC"@;
    match default_project {
        Some(p) => {
            assert("project = "@ + p + " AND "@ + ("summary ~ "@ + q) + o =~= "project = "@ + p
                + " AND summary ~ "@ + q + o);
        },
        None => {
            assert("assignee = currentUser() AND "@ + ("summary ~ "@ + q) + o
                =~= "assignee = currentUser() AND summary ~ "@ + q + o);
        },
    }
}

/// Whether a search input reads as a JQL query rather than a phrase to look for.
pub fn looks_like_jql(input: &str) -> (r: bool)
    ensures
        r == is_jql_like(input@),
{
    let t = trim_str(input);
    let lower = to_lowercase(t.as_str());
    let markers: Vec<&str> = vec![
        "project =",
        "assignee =",
        "status =",
        "summary ~",
        "text ~",
        "order by",
        "labels =",
        "labels in",
        "sprint =",
        "fixversion",
        "component",
        "issuetype",
        "resolution",
        "created >=",
        "updated >=",
        "priority =",
        "reporter =",
        " and ",
        " or ",
        " not ",
        " in (",
        " is empty",
        " is not empty",
        "parent =",
        "key =",
    ];
    let ghost ms: Seq<Seq<char>> = markers@.map_values(|m: &str| m@);
    assert(ms =~= jql_markers());
    let mut i: usize = 0;
    while i < markers.len()
        invariant
            i <= markers@.len(),
            markers@.len() == jql_markers().len(),
            forall|k: int| 0 <= k < markers@.len() ==> #[trigger] markers@[k]@ == jql_markers()[k],
            lower@ == lowercase(trim(input@)),
            forall|k: int| 0 <= k < i ==> !contains(lower@, #[trigger] jql_markers()[k]),
        decreases markers@.len() - i,
    {
        assert(markers@[i as int]@ == jql_markers()[i as int]);
        if str_contains(lower.as_str(), markers[i]) {
            return true;
        }
        i = i + 1;
    }
    false
}

/// `format!("{:?}", s)`: `s` between double quotes with std's `Debug` escapes.
pub uninterp spec fn debug_quoted(s: Seq<char>) -> Seq<char>;

/// `format!("{:?}", s)` for a text: double quotes around it, and std's `Debug`
/// escapes (backslash, quote, control and non-printable characters) inside. The
/// escape tables are std's: the contract names the result only.
#[verifier::external_body]
fn debug_string(s: &str) -> (r: String)
    ensures
        r@ == debug_quoted(s@),
{
    format!("{:?}", s)
}

/// The query run for a search input: the input itself when it reads as JQL,
/// otherwise a summary search in the default project (or among the user's own
/// issues), newest first.
pub open spec fn search_query(default_project: Option<Seq<char>>, raw: Seq<char>) -> Seq<char> {
    let input = trim(raw);
    if is_jql_like(input) {
        input
    } else {
        let clause = "summary ~ "@ + debug_quoted(input);
        match default_project {
            Some(p) => "project = "@ + p + " AND "@ + clause + " ORDER BY updated DESC"@,
            None => "assignee = currentUser() AND "@ + clause + " ORDER BY updated DESC"@,
        }
    }
}

/// Builds the query run for a search input.
pub fn build_search_jql(default_project: Option<&str>, raw: &str) -> (r: String)
    ensures
        r@ == search_query(
            match default_project {
                Some(p) => Some(p@),
                None => None,
            },
            raw@,
        ),
{
    let input = trim_str(raw);
    if looks_like_jql(input.as_str()) {
        return input;
    }
    let quoted = debug_string(input.as_str());
    let mut out = String::new();
    match default_project {
        Some(p) => {
            push_str(&mut out, "project = ");
            push_str(&mut out, p);
            push_str(&mut out, " AND ");
        },
        None => {
            push_str(&mut out, "assignee = currentUser() AND ");
        },
    }
    push_str(&mut out, "summary ~ ");
    push_str(&mut out, quoted.as_str());
    push_str(&mut out, " ORDER BY updated DESC");
    out
}

} // verus!

//! `jirac issue standup` and `jirac issue sprint-summary`: the queries they run,
//! how the issues found are sorted into sections and counted, and the report
//! printed.
use vstd::prelude::*;

use crate::jql::{escape_jql, escaped};
use crate::model::{json_get, json_str, Issue, JsonValue, JsonView};
use crate::notifications::{parse_jira_datetime, rfc3339_instant};
use crate::text::{
    byte_len, char_bytes, parse_i64, parse_i64_chars, string_of_range, chars_of, contains, decimal, lowercase, parse_u64, parse_u64_chars, push_decimal, push_str,
    str_contains, str_eq, to_lowercase, trim, trim_str, views,
};

verus! {

/// The name of an issue's status category (`new`, `indeterminate`, `done`)
/// from its raw fields, lower-cased; empty when missing.
pub open spec fn status_category(fields: JsonView) -> Seq<char> {
    let name = match json_get(fields, "status"@) {
        Some(s) => match json_get(s, "statusCategory"@) {
            Some(c) => json_str(json_get(c, "name"@)),
            None => None,
        },
        None => None,
    };
    lowercase(
        match name {
            Some(n) => n,
            None => Seq::empty(),
        },
    )
}

/// The status category of an issue.
pub fn issue_status_category(issue: &Issue) -> (r: String)
    ensures
        r@ == status_category(issue.fields.deep()),
{
    let name: &str = match issue.fields.get("status") {
        Some(s) => match s.get("statusCategory") {
            Some(c) => match c.get("name") {
                Some(n) => match n.as_str() {
                    Some(t) => t,
                    None => "",
                },
                None => "",
            },
            None => "",
        },
        None => "",
    };
    proof {
        reveal_strlit("");
        assert(""@ =~= Seq::<char>::empty());
    }
    to_lowercase(name)
}

/// A status that reads as blocked: it mentions `blocked`, `on hold` or `stuck`
/// in any case.
pub open spec fn blocked_status(status: Seq<char>) -> bool {
    let s = lowercase(status);
    contains(s, "blocked"@) || contains(s, "on hold"@) || contains(s, "stuck"@)
}

/// Whether an issue's status reads as blocked.
pub fn issue_is_blocked(issue: &Issue) -> (r: bool)
    ensures
        r == blocked_status(issue.status@),
{
    let s = to_lowercase(issue.status.as_str());
    str_contains(s.as_str(), "blocked") || str_contains(s.as_str(), "on hold") || str_contains(
        s.as_str(),
        "stuck",
    )
}

/// The query of a standup: the given JQL, else the user's issues in the
/// project, else all the user's issues, newest first.
pub open spec fn standup_query_of(jql: Option<Seq<char>>, project: Option<Seq<char>>) -> Seq<char> {
    match jql {
        Some(q) => q,
        None => match project {
            Some(p) => "project = "@ + p + " AND assignee = currentUser() ORDER BY updated DESC"@,
            None => "assignee = currentUser() ORDER BY updated DESC"@,
        },
    }
}

/// The query of a standup.
pub fn standup_query(jql: Option<String>, project: Option<String>) -> (r: String)
    ensures
        r@ == standup_query_of(
            match jql {
                Some(q) => Some(q@),
                None => None,
            },
            match project {
                Some(p) => Some(p@),
                None => None,
            },
        ),
{
    match jql {
        Some(q) => q,
        None => {
            let mut r = String::new();
            match project {
                Some(p) => {
                    push_str(&mut r, "project = ");
                    push_str(&mut r, p.as_str());
                    push_str(&mut r, " AND assignee = currentUser() ORDER BY updated DESC");
                },
                None => push_str(&mut r, "assignee = currentUser() ORDER BY updated DESC"),
            }
            r
        },
    }
}

/// The number of issues a summary asks for: at most 100.
pub fn search_limit(limit: u32) -> (r: u32)
    ensures
        r == if limit < 100 {
            limit
        } else {
            100
        },
{
    if limit < 100 {
        limit
    } else {
        100
    }
}

/// The sections of a standup.
#[derive(Clone, Copy, Debug, PartialEq, Eq, Structural)]
pub enum StandupSection {
    RecentlyDone,
    InProgress,
    NextUp,
    Blocked,
    Other,
}

/// `a` is at or after `b`.
pub open spec fn not_before(a: (i64, u32), b: (i64, u32)) -> bool {
    a.0 > b.0 || (a.0 == b.0 && a.1 >= b.1)
}

/// The section of an issue: blocked first; done and updated since `cutoff`;
/// in progress; not started; anything else.
pub open spec fn section_of(issue: Issue, cutoff: (i64, u32)) -> StandupSection {
    let category = status_category(issue.fields.deep());
    let recent = match rfc3339_instant(issue.updated@) {
        Some(t) => not_before(t, cutoff),
        None => false,
    };
    if blocked_status(issue.status@) {
        StandupSection::Blocked
    } else if category == "done"@ && recent {
        StandupSection::RecentlyDone
    } else if category == "indeterminate"@ {
        StandupSection::InProgress
    } else if category == "new"@ {
        StandupSection::NextUp
    } else {
        StandupSection::Other
    }
}

/// The section of an issue, given the instant (UTC seconds and nanoseconds)
/// since which done issues count as recent.
pub fn standup_section(issue: &Issue, cutoff: (i64, u32)) -> (r: StandupSection)
    ensures
        r == section_of(*issue, cutoff),
{
    let category = issue_status_category(issue);
    let recent = match parse_jira_datetime(issue.updated.as_str()) {
        Some(t) => t.0 > cutoff.0 || (t.0 == cutoff.0 && t.1 >= cutoff.1),
        None => false,
    };
    if issue_is_blocked(issue) {
        StandupSection::Blocked
    } else if str_eq(category.as_str(), "done") && recent {
        StandupSection::RecentlyDone
    } else if str_eq(category.as_str(), "indeterminate") {
        StandupSection::InProgress
    } else if str_eq(category.as_str(), "new") {
        StandupSection::NextUp
    } else {
        StandupSection::Other
    }
}

/// The issues of `issues` in section `s`, in order.
pub open spec fn in_section(issues: Seq<Issue>, cutoff: (i64, u32), s: StandupSection) -> Seq<Issue>
    decreases issues.len(),
{
    if issues.len() == 0 {
        Seq::empty()
    } else {
        let rest = in_section(issues.drop_last(), cutoff, s);
        if section_of(issues.last(), cutoff) == s {
            rest.push(issues.last())
        } else {
            rest
        }
    }
}

/// The issues of a standup, by section, each in the order found.
pub struct Standup {
    pub recently_done: Vec<Issue>,
    pub in_progress: Vec<Issue>,
    pub next_up: Vec<Issue>,
    pub blocked: Vec<Issue>,
    pub other: Vec<Issue>,
}

/// Sorts the issues of a standup into sections.
pub fn standup_sections(issues: Vec<Issue>, cutoff: (i64, u32)) -> (r: Standup)
    ensures
        r.recently_done@ == in_section(issues@, cutoff, StandupSection::RecentlyDone),
        r.in_progress@ == in_section(issues@, cutoff, StandupSection::InProgress),
        r.next_up@ == in_section(issues@, cutoff, StandupSection::NextUp),
        r.blocked@ == in_section(issues@, cutoff, StandupSection::Blocked),
        r.other@ == in_section(issues@, cutoff, StandupSection::Other),
{
    let ghost all = issues@;
    let mut rest = issues;
    let mut r = Standup {
        recently_done: Vec::new(),
        in_progress: Vec::new(),
        next_up: Vec::new(),
        blocked: Vec::new(),
        other: Vec::new(),
    };
    let n = rest.len();
    let mut i: usize = 0;
    while i < n
        invariant
            n == all.len(),
            i <= n,
            rest@ == all.skip(i as int),
            r.recently_done@ == in_section(all.take(i as int), cutoff, StandupSection::RecentlyDone),
            r.in_progress@ == in_section(all.take(i as int), cutoff, StandupSection::InProgress),
            r.next_up@ == in_section(all.take(i as int), cutoff, StandupSection::NextUp),
            r.blocked@ == in_section(all.take(i as int), cutoff, StandupSection::Blocked),
            r.other@ == in_section(all.take(i as int), cutoff, StandupSection::Other),
        decreases n - i,
    {
        let issue = rest.remove(0);
        assert(issue == all[i as int]);
        assert(rest@ =~= all.skip(i + 1));
        assert(all.take(i + 1).drop_last() =~= all.take(i as int));
        assert(all.take(i + 1).last() == issue);
        let s = standup_section(&issue, cutoff);
        match s {
            StandupSection::RecentlyDone => r.recently_done.push(issue),
            StandupSection::InProgress => r.in_progress.push(issue),
            StandupSection::NextUp => r.next_up.push(issue),
            StandupSection::Blocked => r.blocked.push(issue),
            StandupSection::Other => r.other.push(issue),
        }
        i = i + 1;
    }
    assert(all.take(n as int) =~= all);
    r
}

/// The line printed for an issue in a report.
pub open spec fn issue_line(i: Issue) -> Seq<char> {
    "- "@ + i.key@ + " ["@ + i.status@ + "] "@ + i.summary@
}

/// The line printed for an issue in a report.
pub fn format_issue_line(issue: &Issue) -> (r: String)
    ensures
        r@ == issue_line(*issue),
{
    let mut l = String::new();
    push_str(&mut l, "- ");
    push_str(&mut l, issue.key.as_str());
    push_str(&mut l, " [");
    push_str(&mut l, issue.status.as_str());
    push_str(&mut l, "] ");
    push_str(&mut l, issue.summary.as_str());
    l
}

/// The lines of a report section: a heading with the count, a line per issue,
/// then an empty line; nothing for an empty section.
pub open spec fn section_lines(title: Seq<char>, issues: Seq<Issue>) -> Seq<Seq<char>> {
    if issues.len() == 0 {
        Seq::empty()
    } else {
        seq!["## "@ + title + " ("@ + decimal(issues.len()) + ")"@] + issues.map_values(
            |i: Issue| issue_line(i),
        ) + seq![Seq::<char>::empty()]
    }
}

/// Appends the lines of a report section.
fn push_section(lines: &mut Vec<String>, title: &str, issues: &Vec<Issue>)
    ensures
        views(final(lines)@) == views(old(lines)@) + section_lines(title@, issues@),
{
    if issues.len() == 0 {
        assert(views(lines@) =~= views(lines@) + section_lines(title@, issues@));
        return;
    }
    let ghost start = views(lines@);
    let mut head = String::new();
    push_str(&mut head, "## ");
    push_str(&mut head, title);
    push_str(&mut head, " (");
    push_decimal(&mut head, issues.len() as u64);
    push_str(&mut head, ")");
    lines.push(head);
    let ghost body = issues@.map_values(|i: Issue| issue_line(i));
    let mut k: usize = 0;
    while k < issues.len()
        invariant
            k <= issues@.len(),
            body == issues@.map_values(|i: Issue| issue_line(i)),
            lines@.len() == start.len() + 1 + k,
            forall|j: int| 0 <= j < start.len() ==> #[trigger] lines@[j]@ == start[j],
            lines@[start.len() as int]@ == "## "@ + title@ + " ("@ + decimal(issues@.len()) + ")"@,
            forall|j: int| 0 <= j < k ==> #[trigger] lines@[start.len() + 1 + j]@ == body[j],
        decreases issues@.len() - k,
    {
        let l = format_issue_line(&issues[k]);
        lines.push(l);
        k = k + 1;
    }
    lines.push(String::new());
    let ghost want = start + section_lines(title@, issues@);
    assert(views(lines@) =~= want) by {
        assert forall|j: int| 0 <= j < lines@.len() implies #[trigger] views(lines@)[j] == want[j] by {
            if start.len() + 1 <= j < start.len() + 1 + issues@.len() {
                assert(lines@[start.len() + 1 + (j - start.len() - 1)]@ == body[j - start.len() - 1]);
            }
        }
    }
}

/// The report of a standup.
pub open spec fn standup_report(query: Seq<char>, since: Seq<char>, s: Standup) -> Seq<Seq<char>> {
    let head = seq![
        "# Daily standup"@,
        Seq::<char>::empty(),
        "Source: `"@ + query + "`"@,
        "Recently done window: "@ + since,
        Seq::<char>::empty(),
    ];
    let all = head + section_lines("Recently done"@, s.recently_done@) + section_lines("In progress"@, s.in_progress@)
        + section_lines("Next up"@, s.next_up@) + section_lines("Blocked"@, s.blocked@)
        + section_lines("Other"@, s.other@);
    let none = s.recently_done@.len() == 0 && s.in_progress@.len() == 0 && s.next_up@.len() == 0
        && s.blocked@.len() == 0 && s.other@.len() == 0;
    if none {
        all.push("No issues matched the standup query."@)
    } else {
        all
    }
}

/// The lines a standup prints.
pub fn standup_lines(query: &str, since: &str, s: &Standup) -> (r: Vec<String>)
    ensures
        views(r@) == standup_report(query@, since@, *s),
{
    let mut lines: Vec<String> = Vec::new();
    let mut a = String::new();
    push_str(&mut a, "# Daily standup");
    lines.push(a);
    lines.push(String::new());
    let mut b = String::new();
    push_str(&mut b, "Source: `");
    push_str(&mut b, query);
    push_str(&mut b, "`");
    lines.push(b);
    let mut c = String::new();
    push_str(&mut c, "Recently done window: ");
    push_str(&mut c, since);
    lines.push(c);
    lines.push(String::new());
    assert(views(lines@) =~= seq![
        "# Daily standup"@,
        Seq::<char>::empty(),
        "Source: `"@ + query@ + "`"@,
        "Recently done window: "@ + since@,
        Seq::<char>::empty(),
    ]);
    push_section(&mut lines, "Recently done", &s.recently_done);
    push_section(&mut lines, "In progress", &s.in_progress);
    push_section(&mut lines, "Next up", &s.next_up);
    push_section(&mut lines, "Blocked", &s.blocked);
    push_section(&mut lines, "Other", &s.other);
    if s.recently_done.len() == 0 && s.in_progress.len() == 0 && s.next_up.len() == 0
        && s.blocked.len() == 0 && s.other.len() == 0 {
        let mut d = String::new();
        push_str(&mut d, "No issues matched the standup query.");
        lines.push(d);
    }
    assert(views(lines@) =~= standup_report(query@, since@, *s));
    lines
}

/// The unit of a relative window.
#[derive(Clone, Copy, Debug, PartialEq, Eq, Structural)]
pub enum WindowUnit {
    Hours,
    Days,
    Weeks,
}

/// A look-back window such as `2d`: an amount of a unit.
#[derive(Clone, Copy, Debug, PartialEq, Eq, Structural)]
pub struct RelativeWindow {
    pub amount: i64,
    pub unit: WindowUnit,
}

/// The number of seconds of one unit.
pub open spec fn unit_seconds(u: WindowUnit) -> int {
    match u {
        WindowUnit::Hours => 3600,
        WindowUnit::Days => 86400,
        WindowUnit::Weeks => 604800,
    }
}

/// The largest number of whole seconds chrono's `TimeDelta` holds (`i64::MAX` milliseconds).
pub open spec fn max_delta_seconds() -> int {
    9_223_372_036_854_775
}

/// The window is a duration chrono can hold.
pub open spec fn window_in_bounds(w: RelativeWindow) -> bool {
    -max_delta_seconds() <= w.amount * unit_seconds(w.unit) <= max_delta_seconds()
}

/// The amount and unit of a window text (already trimmed and lower-cased): all
/// but the last character is the amount, the last is `h`, `d` or `w`.
pub open spec fn window_of(value: Seq<char>) -> Option<RelativeWindow> {
    if byte_len(value) < 2 {
        None
    } else {
        match parse_i64(value.drop_last()) {
            Some(a) => if value.last() == 'h' {
                Some(RelativeWindow { amount: a, unit: WindowUnit::Hours })
            } else if value.last() == 'd' {
                Some(RelativeWindow { amount: a, unit: WindowUnit::Days })
            } else if value.last() == 'w' {
                Some(RelativeWindow { amount: a, unit: WindowUnit::Weeks })
            } else {
                None
            },
            None => None,
        }
    }
}

/// The error for a window that cannot be read; `raw` is the text as given.
pub open spec fn bad_window_text(raw: Seq<char>) -> Seq<char> {
    "Invalid relative window '"@ + raw + "'. Use values like 2d, 36h, or 1w."@
}

/// A window text can be cut before its last byte and, when it reads as a
/// window, that window is a duration chrono can hold.
pub open spec fn window_text_ok(value: Seq<char>) -> bool {
    &&& byte_len(value) >= 2 ==> char_bytes(value.last()) == 1
    &&& window_of(value) matches Some(w) ==> window_in_bounds(w)
}

proof fn lemma_byte_len_positive(s: Seq<char>)
    requires
        s.len() > 0,
    ensures
        byte_len(s) >= 1,
        byte_len(s) == byte_len(s.drop_last()) + char_bytes(s.last()),
{
}

/// Reads a window from its trimmed, lower-cased text; `raw` is the text as
/// given, for the error.
pub fn window_from_text(value: &str, raw: &str) -> (r: Result<RelativeWindow, String>)
    requires
        window_text_ok(value@),
    ensures
        match window_of(value@) {
            Some(w) => r == Ok::<RelativeWindow, String>(w) && window_in_bounds(w),
            None => r matches Err(m) && m@ == bad_window_text(raw@),
        },
{
    let v = chars_of(value);
    let n = v.len();
    let mut bad = String::new();
    push_str(&mut bad, "Invalid relative window '");
    push_str(&mut bad, raw);
    push_str(&mut bad, "'. Use values like 2d, 36h, or 1w.");
    if n == 0 {
        assert(byte_len(value@) == 0);
        return Err(bad);
    }
    proof {
        lemma_byte_len_positive(v@);
    }
    let last = v[n - 1];
    if n == 1 && crate::text::utf8_width(last) < 2 {
        assert(byte_len(v@.drop_last()) == 0);
        return Err(bad);
    }
    if n == 1 {
        assert(v@.drop_last() =~= Seq::<char>::empty());
        assert(parse_i64(v@.drop_last()) is None);
        return Err(bad);
    }
    let mut num: Vec<char> = Vec::new();
    let mut i: usize = 0;
    while i < n - 1
        invariant
            n == v@.len(),
            n >= 2,
            i <= n - 1,
            num@ == v@.take(i as int),
        decreases n - 1 - i,
    {
        num.push(v[i]);
        i = i + 1;
        assert(num@ =~= v@.take(i as int));
    }
    assert(num@ =~= v@.drop_last());
    proof {
        lemma_byte_len_positive(v@.drop_last());
    }
    match parse_i64_chars(&num) {
        Some(a) => {
            if last == 'h' {
                Ok(RelativeWindow { amount: a, unit: WindowUnit::Hours })
            } else if last == 'd' {
                Ok(RelativeWindow { amount: a, unit: WindowUnit::Days })
            } else if last == 'w' {
                Ok(RelativeWindow { amount: a, unit: WindowUnit::Weeks })
            } else {
                Err(bad)
            }
        },
        None => Err(bad),
    }
}

/// Reads a look-back window such as `2d`, `36h` or `1w` (surrounding
/// whitespace ignored, any case). Nothing is returned for a text whose last
/// character is not a single byte once lower-cased, or whose window is too
/// long for chrono: those cannot be read as a window at all.
pub fn parse_relative_window(raw: &str) -> (r: Option<Result<RelativeWindow, String>>)
    ensures
        match r {
            Some(res) => window_text_ok(lowercase(trim(raw@))) && match window_of(lowercase(trim(raw@))) {
                Some(w) => res == Ok::<RelativeWindow, String>(w),
                None => res matches Err(m) && m@ == bad_window_text(raw@),
            },
            None => !window_text_ok(lowercase(trim(raw@))),
        },
{
    let t = trim_str(raw);
    let value = to_lowercase(t.as_str());
    let v = chars_of(value.as_str());
    let n = v.len();
    if n > 0 {
        proof {
            lemma_byte_len_positive(v@);
        }
        if crate::text::utf8_width(v[n - 1]) != 1 {
            // The text cannot be cut before its last byte.
            return None;
        }
    }
    match window_of_checked(&v) {
        Some(w) => {
            if !in_bounds_exec(w) {
                // Too long a window for chrono.
                return None;
            }
        },
        None => {},
    }
    Some(window_from_text(value.as_str(), raw))
}

/// `window_of` computed over characters, without the error text.
fn window_of_checked(v: &Vec<char>) -> (r: Option<RelativeWindow>)
    requires
        v@.len() > 0 ==> char_bytes(v@.last()) == 1,
    ensures
        r == window_of(v@),
{
    let n = v.len();
    if n < 2 {
        proof {
            if n == 1 {
                lemma_byte_len_positive(v@);
                assert(v@.drop_last() =~= Seq::<char>::empty());
            }
        }
        if n == 1 {
            assert(parse_i64(v@.drop_last()) is None);
        }
        return None;
    }
    proof {
        lemma_byte_len_positive(v@);
        lemma_byte_len_positive(v@.drop_last());
    }
    let mut num: Vec<char> = Vec::new();
    let mut i: usize = 0;
    while i < n - 1
        invariant
            n == v@.len(),
            n >= 2,
            i <= n - 1,
            num@ == v@.take(i as int),
        decreases n - 1 - i,
    {
        num.push(v[i]);
        i = i + 1;
        assert(num@ =~= v@.take(i as int));
    }
    assert(num@ =~= v@.drop_last());
    let last = v[n - 1];
    match parse_i64_chars(&num) {
        Some(a) => {
            if last == 'h' {
                Some(RelativeWindow { amount: a, unit: WindowUnit::Hours })
            } else if last == 'd' {
                Some(RelativeWindow { amount: a, unit: WindowUnit::Days })
            } else if last == 'w' {
                Some(RelativeWindow { amount: a, unit: WindowUnit::Weeks })
            } else {
                None
            }
        },
        None => None,
    }
}

fn in_bounds_exec(w: RelativeWindow) -> (r: bool)
    ensures
        r == window_in_bounds(w),
{
    let per: i128 = match w.unit {
        WindowUnit::Hours => 3600,
        WindowUnit::Days => 86400,
        WindowUnit::Weeks => 604800,
    };
    let total: i128 = (w.amount as i128) * per;
    assert(total == w.amount * unit_seconds(w.unit)) by (nonlinear_arith)
        requires
            per == unit_seconds(w.unit),
            total == (w.amount as i128) * per,
    ;
    -9_223_372_036_854_775i128 <= total && total <= 9_223_372_036_854_775i128
}

impl RelativeWindow {
    /// The window's length in seconds.
    pub fn seconds(&self) -> (r: i64)
        requires
            window_in_bounds(*self),
        ensures
            r == self.amount * unit_seconds(self.unit),
    {
        let per: i64 = match self.unit {
            WindowUnit::Hours => 3600,
            WindowUnit::Days => 86400,
            WindowUnit::Weeks => 604800,
        };
        self.amount * per
    }
}

/// What a sprint summary looks at: its project, how the sprint is named in
/// the report, and the query it runs.
pub struct SprintPlan {
    pub project: String,
    pub label: String,
    pub query: String,
}

/// How a sprint is selected in the query: by number when the trimmed value is
/// one, else by quoted name, else the open sprints.
pub open spec fn sprint_clause_of(sprint: Option<Seq<char>>) -> Seq<char> {
    match sprint {
        Some(v) => if parse_u64(trim(v)) is Some {
            "sprint = "@ + trim(v)
        } else {
            "sprint = \""@ + escaped(trim(v)) + "\""@
        },
        None => "sprint in openSprints()"@,
    }
}

/// The plan of a sprint summary; a project is required.
pub open spec fn sprint_plan_ok(project: Seq<char>, sprint: Option<Seq<char>>, p: SprintPlan) -> bool {
    &&& p.project@ == project
    &&& p.label@ == match sprint {
        Some(v) => v,
        None => "openSprints()"@,
    }
    &&& p.query@ == "project = "@ + project + " AND "@ + sprint_clause_of(sprint)
        + " ORDER BY status ASC, updated DESC"@
}

/// Plans a sprint summary.
pub fn sprint_plan(project: Option<String>, sprint: Option<String>) -> (r: Result<SprintPlan, String>)
    ensures
        match project {
            Some(p) => r matches Ok(plan) && sprint_plan_ok(
                p@,
                match sprint {
                    Some(v) => Some(v@),
                    None => None,
                },
                plan,
            ),
            None => r matches Err(m) && m@ == "Project is required. Pass --project or configure a default project."@,
        },
{
    let project = match project {
        Some(p) => p,
        None => {
            let mut m = String::new();
            push_str(&mut m, "Project is required. Pass --project or configure a default project.");
            return Err(m);
        },
    };
    let mut label = String::new();
    let mut clause = String::new();
    match &sprint {
        Some(v) => {
            push_str(&mut label, v.as_str());
            let t = trim_str(v.as_str());
            let tv = chars_of(t.as_str());
            if parse_u64_chars(&tv).is_some() {
                push_str(&mut clause, "sprint = ");
                push_str(&mut clause, t.as_str());
            } else {
                push_str(&mut clause, "sprint = \"");
                let e = escape_jql(t.as_str());
                push_str(&mut clause, e.as_str());
                push_str(&mut clause, "\"");
            }
        },
        None => {
            push_str(&mut label, "openSprints()");
            push_str(&mut clause, "sprint in openSprints()");
        },
    }
    let mut query = String::new();
    push_str(&mut query, "project = ");
    push_str(&mut query, project.as_str());
    push_str(&mut query, " AND ");
    push_str(&mut query, clause.as_str());
    push_str(&mut query, " ORDER BY status ASC, updated DESC");
    Ok(SprintPlan { project, label, query })
}

/// How many issues have status category `c`.
pub open spec fn count_category(issues: Seq<Issue>, c: Seq<char>) -> nat
    decreases issues.len(),
{
    if issues.len() == 0 {
        0
    } else {
        count_category(issues.drop_last(), c) + if status_category(issues.last().fields.deep()) == c {
            1nat
        } else {
            0nat
        }
    }
}

/// How many issues read as blocked.
pub open spec fn count_blocked(issues: Seq<Issue>) -> nat
    decreases issues.len(),
{
    if issues.len() == 0 {
        0
    } else {
        count_blocked(issues.drop_last()) + if blocked_status(issues.last().status@) {
            1nat
        } else {
            0nat
        }
    }
}

/// The assignee an issue is counted under.
pub open spec fn assignee_name(i: Issue) -> Seq<char> {
    match i.assignee {
        Some(a) => a@,
        None => "Unassigned"@,
    }
}

/// How many issues are counted under `name`.
pub open spec fn count_assignee(issues: Seq<Issue>, name: Seq<char>) -> nat
    decreases issues.len(),
{
    if issues.len() == 0 {
        0
    } else {
        count_assignee(issues.drop_last(), name) + if assignee_name(issues.last()) == name {
            1nat
        } else {
            0nat
        }
    }
}

/// The issues with status `s`, in order.
pub open spec fn with_status(issues: Seq<Issue>, s: Seq<char>) -> Seq<Issue>
    decreases issues.len(),
{
    if issues.len() == 0 {
        Seq::empty()
    } else if issues.last().status@ == s {
        with_status(issues.drop_last(), s).push(issues.last())
    } else {
        with_status(issues.drop_last(), s)
    }
}

/// An assignee and how many issues are counted under them.
pub struct AssigneeCount {
    pub name: String,
    pub count: u64,
}

/// A status and its issues, in the order found.
pub struct StatusGroup {
    pub status: String,
    pub issues: Vec<Issue>,
}

/// Row `a` is listed before row `b`: more issues first, then by name.
pub open spec fn row_before(a: AssigneeCount, b: AssigneeCount) -> bool {
    a.count > b.count || (a.count == b.count && crate::text::text_less(a.name@, b.name@))
}

/// `rows` lists every assignee of `issues` once, with their count, most
/// issues first and then by name.
pub open spec fn assignee_table(issues: Seq<Issue>, rows: Seq<AssigneeCount>) -> bool {
    &&& forall|k: int| 0 <= k < rows.len() ==> (#[trigger] rows[k]).count == count_assignee(issues, rows[k].name@)
        && rows[k].count >= 1
    &&& forall|t: int| 0 <= t < issues.len() ==> exists|k: int| 0 <= k < rows.len() && #[trigger] rows[k].name@ == assignee_name(#[trigger] issues[t])
    &&& forall|a: int, b: int| 0 <= a < b < rows.len() ==> row_before(#[trigger] rows[a], #[trigger] rows[b])
}

/// `groups` holds, for every status of `issues`, its issues in order, by status
/// name.
pub open spec fn status_table(issues: Seq<Issue>, groups: Seq<StatusGroup>) -> bool {
    &&& forall|k: int| 0 <= k < groups.len() ==> (#[trigger] groups[k]).issues@ == with_status(issues, groups[k].status@)
        && groups[k].issues@.len() >= 1
    &&& forall|t: int| 0 <= t < issues.len() ==> has_group(groups, (#[trigger] issues[t]).status@)
    &&& forall|a: int, b: int| 0 <= a < b < groups.len() ==> crate::text::text_less(#[trigger] groups[a].status@, #[trigger] groups[b].status@)
}

/// Some group of `groups` has status `s`.
pub open spec fn has_group(groups: Seq<StatusGroup>, s: Seq<char>) -> bool {
    exists|k: int| 0 <= k < groups.len() && #[trigger] groups[k].status@ == s
}

/// The counts of a sprint summary.
pub struct SprintCounts {
    pub total: u64,
    pub done: u64,
    pub in_progress: u64,
    pub todo: u64,
    pub blocked: u64,
}

/// Counts the issues of a sprint: all, done, in progress, not started, blocked
/// (a blocked issue also counts in its category).
pub fn sprint_counts(issues: &Vec<Issue>) -> (r: SprintCounts)
    ensures
        r.total == issues@.len(),
        r.done == count_category(issues@, "done"@),
        r.in_progress == count_category(issues@, "indeterminate"@),
        r.todo == count_category(issues@, "new"@),
        r.blocked == count_blocked(issues@),
{
    let mut done: u64 = 0;
    let mut in_progress: u64 = 0;
    let mut todo: u64 = 0;
    let mut blocked: u64 = 0;
    let mut i: usize = 0;
    while i < issues.len()
        invariant
            i <= issues@.len(),
            done == count_category(issues@.take(i as int), "done"@),
            in_progress == count_category(issues@.take(i as int), "indeterminate"@),
            todo == count_category(issues@.take(i as int), "new"@),
            blocked == count_blocked(issues@.take(i as int)),
            done <= i && in_progress <= i && todo <= i && blocked <= i,
        decreases issues@.len() - i,
    {
        assert(issues@.take(i + 1).drop_last() =~= issues@.take(i as int));
        proof {
            reveal_strlit("done");
            reveal_strlit("indeterminate");
            reveal_strlit("new");
            assert("done"@[0] != "indeterminate"@[0]);
            assert("done"@[0] != "new"@[0]);
            assert("indeterminate"@[0] != "new"@[0]);
        }
        let issue = &issues[i];
        if issue_is_blocked(issue) {
            blocked = blocked + 1;
        }
        let c = issue_status_category(issue);
        if str_eq(c.as_str(), "done") {
            done = done + 1;
        } else if str_eq(c.as_str(), "indeterminate") {
            in_progress = in_progress + 1;
        } else if str_eq(c.as_str(), "new") {
            todo = todo + 1;
        }
        i = i + 1;
    }
    assert(issues@.take(i as int) =~= issues@);
    SprintCounts { total: issues.len() as u64, done, in_progress, todo, blocked }
}

proof fn lemma_count_assignee_step(issues: Seq<Issue>, i: int, name: Seq<char>)
    requires
        0 <= i < issues.len(),
    ensures
        count_assignee(issues.take(i + 1), name) == count_assignee(issues.take(i), name) + if assignee_name(issues[i]) == name {
            1nat
        } else {
            0nat
        },
{
    assert(issues.take(i + 1).drop_last() =~= issues.take(i));
}

proof fn lemma_count_assignee_bound(issues: Seq<Issue>, name: Seq<char>)
    ensures
        count_assignee(issues, name) <= issues.len(),
    decreases issues.len(),
{
    if issues.len() > 0 {
        lemma_count_assignee_bound(issues.drop_last(), name);
    }
}

fn assignee_of(issue: &Issue) -> (r: String)
    ensures
        r@ == assignee_name(*issue),
{
    match &issue.assignee {
        Some(a) => a.clone(),
        None => {
            let mut s = String::new();
            push_str(&mut s, "Unassigned");
            s
        },
    }
}

fn row_before_exec(a: &AssigneeCount, b: &AssigneeCount) -> (r: bool)
    ensures
        r == row_before(*a, *b),
{
    if a.count != b.count {
        return a.count > b.count;
    }
    let x = chars_of(a.name.as_str());
    let y = chars_of(b.name.as_str());
    crate::text::less_chars(&x, &y)
}

/// The assignees of a sprint's issues with their counts, most issues first,
/// then by name.
pub fn assignee_counts(issues: &Vec<Issue>) -> (r: Vec<AssigneeCount>)
    ensures
        assignee_table(issues@, r@),
{
    // Count, in order of first appearance.
    let mut rows: Vec<AssigneeCount> = Vec::new();
    let ghost mut idx: Seq<int> = Seq::empty();
    let mut i: usize = 0;
    while i < issues.len()
        invariant
            i <= issues@.len(),
            rows@.len() <= i,
            idx.len() == i,
            forall|k: int| 0 <= k < rows@.len() ==> (#[trigger] rows@[k]).count == count_assignee(issues@.take(i as int), rows@[k].name@)
                && rows@[k].count >= 1 && rows@[k].count <= i,
            forall|a: int, b: int| 0 <= a < b < rows@.len() ==> (#[trigger] rows@[a]).name@ != (#[trigger] rows@[b]).name@,
            forall|t: int| 0 <= t < i ==> 0 <= #[trigger] idx[t] < rows@.len() && rows@[idx[t]].name@ == assignee_name(issues@[t]),
        decreases issues@.len() - i,
    {
        let name = assignee_of(&issues[i]);
        let mut j: usize = 0;
        while j < rows.len() && !str_eq(rows[j].name.as_str(), name.as_str())
            invariant
                j <= rows@.len(),
                forall|q: int| 0 <= q < j ==> rows@[q].name@ != name@,
            decreases rows@.len() - j,
        {
            j = j + 1;
        }
        proof {
            assert forall|n: Seq<char>| true implies count_assignee(issues@.take(i + 1), n) == count_assignee(issues@.take(i as int), n) + if assignee_name(issues@[i as int]) == n {
                1nat
            } else {
                0nat
            } by {
                lemma_count_assignee_step(issues@, i as int, n);
            }
        }
        let ghost old_rows = rows@;
        if j < rows.len() {
            let c = rows[j].count;
            let nm = rows[j].name.clone();
            rows.set(j, AssigneeCount { name: nm, count: c + 1 });
            proof {
                idx = idx.push(j as int);
                assert forall|k: int| 0 <= k < rows@.len() implies (#[trigger] rows@[k]).count == count_assignee(issues@.take(i + 1), rows@[k].name@)
                    && rows@[k].count >= 1 && rows@[k].count <= i + 1 by {
                    if k != j {
                        assert(rows@[k] == old_rows[k]);
                        assert(old_rows[k].name@ != name@);
                    }
                }
                assert forall|a: int, b: int| 0 <= a < b < rows@.len() implies (#[trigger] rows@[a]).name@ != (#[trigger] rows@[b]).name@ by {
                    assert(rows@[a].name@ == old_rows[a].name@);
                    assert(rows@[b].name@ == old_rows[b].name@);
                }
            }
        } else {
            proof {
                lemma_count_assignee_bound(issues@.take(i as int), name@);
                assert(count_assignee(issues@.take(i as int), name@) == 0) by {
                    if count_assignee(issues@.take(i as int), name@) > 0 {
                        lemma_count_positive(issues@.take(i as int), name@);
                        let t = choose|t: int| 0 <= t < i && assignee_name(issues@.take(i as int)[t]) == name@;
                        assert(issues@.take(i as int)[t] == issues@[t]);
                        assert(rows@[idx[t]].name@ == name@);
                    }
                }
            }
            rows.push(AssigneeCount { name, count: 1 });
            proof {
                idx = idx.push(j as int);
                assert forall|k: int| 0 <= k < rows@.len() implies (#[trigger] rows@[k]).count == count_assignee(issues@.take(i + 1), rows@[k].name@)
                    && rows@[k].count >= 1 && rows@[k].count <= i + 1 by {
                    if k < old_rows.len() {
                        assert(rows@[k] == old_rows[k]);
                        assert(old_rows[k].name@ != name@);
                    }
                }
            }
        }
        proof {
            assert forall|t: int| 0 <= t < i + 1 implies 0 <= #[trigger] idx[t] < rows@.len() && rows@[idx[t]].name@ == assignee_name(issues@[t]) by {
                if t < i {
                    assert(rows@[idx[t]].name@ == old_rows[idx[t]].name@);
                }
            }
        }
        i = i + 1;
    }
    assert(issues@.take(i as int) =~= issues@);
    // Order the rows.
    let ghost base = rows@;
    let n = rows.len();
    let mut src = rows;
    let mut out: Vec<AssigneeCount> = Vec::new();
    let ghost mut at: Seq<int> = Seq::empty();
    let mut m: usize = 0;
    while m < n
        invariant
            n == base.len(),
            m <= n,
            src@ == base.skip(m as int),
            out@.len() == m,
            at.len() == m,
            forall|k: int| 0 <= k < m ==> 0 <= #[trigger] at[k] < m && out@[at[k]] == base[k],
            forall|k: int| 0 <= k < out@.len() ==> exists|q: int| 0 <= q < m && #[trigger] base[q] == #[trigger] out@[k],
            forall|a: int, b: int| 0 <= a < b < out@.len() ==> row_before(#[trigger] out@[a], #[trigger] out@[b]),
            forall|a: int, b: int| 0 <= a < b < base.len() ==> (#[trigger] base[a]).name@ != (#[trigger] base[b]).name@,
            forall|k: int| 0 <= k < base.len() ==> (#[trigger] base[k]).count == count_assignee(issues@, base[k].name@)
                && base[k].count >= 1,
            idx.len() == issues@.len(),
            forall|t: int| 0 <= t < issues@.len() ==> 0 <= #[trigger] idx[t] < base.len() && base[idx[t]].name@ == assignee_name(issues@[t]),
        decreases n - m,
    {
        let row = src.remove(0);
        assert(row == base[m as int]);
        assert(src@ =~= base.skip(m + 1));
        let mut q: usize = 0;
        while q < out.len() && row_before_exec(&out[q], &row)
            invariant
                q <= out@.len(),
                forall|a: int| 0 <= a < q ==> row_before(#[trigger] out@[a], row),
            decreases out@.len() - q,
        {
            q = q + 1;
        }
        proof {
            if q < out@.len() {
                assert(!row_before(out@[q as int], row));
                let w = choose|w: int| 0 <= w < m && #[trigger] base[w] == out@[q as int];
                assert(base[w].name@ != base[m as int].name@);
                crate::text::lemma_text_less_order(out@[q as int].name@, row.name@, row.name@);
                assert(row_before(row, out@[q as int]));
                assert forall|b: int| q < b < out@.len() implies row_before(row, #[trigger] out@[b]) by {
                    assert(row_before(out@[q as int], out@[b]));
                    crate::text::lemma_text_less_order(row.name@, out@[q as int].name@, out@[b].name@);
                }
            }
        }
        let ghost old_out = out@;
        let ghost old_at = at;
        out.insert(q, row);
        proof {
            at = Seq::new((m + 1) as nat, |k: int| if k == m {
                q as int
            } else if old_at[k] >= q {
                old_at[k] + 1
            } else {
                old_at[k]
            });
            assert forall|k: int| 0 <= k < m + 1 implies 0 <= #[trigger] at[k] < m + 1 && out@[at[k]] == base[k] by {
                if k < m {
                    if old_at[k] >= q {
                        assert(out@[old_at[k] + 1] == old_out[old_at[k]]);
                    } else {
                        assert(out@[old_at[k]] == old_out[old_at[k]]);
                    }
                }
            }
            assert forall|k: int| 0 <= k < out@.len() implies exists|w: int| 0 <= w < m + 1 && #[trigger] base[w] == #[trigger] out@[k] by {
                if k < q {
                    assert(out@[k] == old_out[k]);
                    let w = choose|w: int| 0 <= w < m && #[trigger] base[w] == old_out[k];
                    assert(base[w] == out@[k]);
                } else if k > q {
                    assert(out@[k] == old_out[k - 1]);
                    let w = choose|w: int| 0 <= w < m && #[trigger] base[w] == old_out[k - 1];
                    assert(base[w] == out@[k]);
                } else {
                    assert(base[m as int] == out@[k]);
                }
            }
            assert forall|a: int, b: int| 0 <= a < b < out@.len() implies row_before(#[trigger] out@[a], #[trigger] out@[b]) by {
                if a < q && b < q {
                    assert(out@[a] == old_out[a] && out@[b] == old_out[b]);
                } else if a < q && b == q {
                    assert(out@[a] == old_out[a]);
                } else if a < q {
                    assert(out@[a] == old_out[a] && out@[b] == old_out[b - 1]);
                    assert(row_before(old_out[a], row));
                    assert(row_before(row, old_out[b - 1]));
                    crate::text::lemma_text_less_order(old_out[a].name@, row.name@, old_out[b - 1].name@);
                } else if a == q {
                    assert(out@[b] == old_out[b - 1]);
                } else {
                    assert(out@[a] == old_out[a - 1] && out@[b] == old_out[b - 1]);
                }
            }
        }
        m = m + 1;
    }
    proof {
        assert forall|k: int| 0 <= k < out@.len() implies (#[trigger] out@[k]).count == count_assignee(issues@, out@[k].name@)
            && out@[k].count >= 1 by {
            let w = choose|w: int| 0 <= w < n && #[trigger] base[w] == out@[k];
        }
        assert forall|t: int| 0 <= t < issues@.len() implies exists|k: int| 0 <= k < out@.len() && #[trigger] out@[k].name@ == assignee_name(#[trigger] issues@[t]) by {
            let r = idx[t];
            assert(out@[at[r]] == base[r]);
            assert(out@[at[r]].name@ == assignee_name(issues@[t]));
        }
    }
    out
}

proof fn lemma_with_status_step(issues: Seq<Issue>, i: int, s: Seq<char>)
    requires
        0 <= i < issues.len(),
    ensures
        with_status(issues.take(i + 1), s) == if issues[i].status@ == s {
            with_status(issues.take(i), s).push(issues[i])
        } else {
            with_status(issues.take(i), s)
        },
{
    assert(issues.take(i + 1).drop_last() =~= issues.take(i));
}

proof fn lemma_with_status_none(issues: Seq<Issue>, s: Seq<char>)
    requires
        forall|t: int| 0 <= t < issues.len() ==> (#[trigger] issues[t]).status@ != s,
    ensures
        with_status(issues, s) == Seq::<Issue>::empty(),
    decreases issues.len(),
{
    if issues.len() > 0 {
        assert forall|t: int| 0 <= t < issues.drop_last().len() implies (#[trigger] issues.drop_last()[t]).status@ != s by {
            assert(issues.drop_last()[t] == issues[t]);
        }
        lemma_with_status_none(issues.drop_last(), s);
        assert(issues[issues.len() - 1].status@ != s);
    }
}

/// The issues of a sprint grouped by status, groups ordered by status name,
/// issues in the order found.
pub fn status_groups(issues: Vec<Issue>) -> (r: Vec<StatusGroup>)
    ensures
        status_table(issues@, r@),
{
    let ghost all = issues@;
    let n = issues.len();
    let mut rest = issues;
    let mut groups: Vec<StatusGroup> = Vec::new();
    let ghost mut gidx: Seq<int> = Seq::empty();
    let mut i: usize = 0;
    while i < n
        invariant
            n == all.len(),
            i <= n,
            rest@ == all.skip(i as int),
            forall|k: int| 0 <= k < groups@.len() ==> (#[trigger] groups@[k]).issues@ == with_status(all.take(i as int), groups@[k].status@)
                && groups@[k].issues@.len() >= 1,
            forall|a: int, b: int| 0 <= a < b < groups@.len() ==> crate::text::text_less(#[trigger] groups@[a].status@, #[trigger] groups@[b].status@),
            gidx.len() == i,
            forall|t: int| 0 <= t < i ==> 0 <= #[trigger] gidx[t] < groups@.len() && groups@[gidx[t]].status@ == all[t].status@,
        decreases n - i,
    {
        let issue = rest.remove(0);
        assert(issue == all[i as int]);
        assert(rest@ =~= all.skip(i + 1));
        proof {
            assert forall|st: Seq<char>| true implies with_status(all.take(i + 1), st) == if all[i as int].status@ == st {
                with_status(all.take(i as int), st).push(all[i as int])
            } else {
                with_status(all.take(i as int), st)
            } by {
                lemma_with_status_step(all, i as int, st);
            }
        }
        let sv = chars_of(issue.status.as_str());
        let mut j: usize = 0;
        while j < groups.len() && crate::text::less_chars(&chars_of(groups[j].status.as_str()), &sv)
            invariant
                j <= groups@.len(),
                sv@ == issue.status@,
                forall|a: int| 0 <= a < j ==> crate::text::text_less(#[trigger] groups@[a].status@, sv@),
            decreases groups@.len() - j,
        {
            j = j + 1;
        }
        let ghost old_groups = groups@;
        let ghost old_gidx = gidx;
        if j < groups.len() && str_eq(groups[j].status.as_str(), issue.status.as_str()) {
            let mut g = groups.remove(j);
            g.issues.push(issue);
            groups.insert(j, g);
            proof {
                gidx = old_gidx.push(j as int);
                assert forall|k: int| 0 <= k < groups@.len() implies (#[trigger] groups@[k]).issues@ == with_status(all.take(i + 1), groups@[k].status@)
                    && groups@[k].issues@.len() >= 1 by {
                    if k != j {
                        assert(groups@[k] == old_groups[k]);
                        if k < j {
                            crate::text::lemma_text_less_order(old_groups[k].status@, sv@, sv@);
                        } else {
                            assert(crate::text::text_less(old_groups[j as int].status@, old_groups[k].status@));
                            crate::text::lemma_text_less_order(old_groups[k].status@, sv@, sv@);
                        }
                    }
                }
                assert forall|a: int, b: int| 0 <= a < b < groups@.len() implies crate::text::text_less(#[trigger] groups@[a].status@, #[trigger] groups@[b].status@) by {
                    assert(groups@[a].status@ == old_groups[a].status@);
                    assert(groups@[b].status@ == old_groups[b].status@);
                }
                assert forall|t: int| 0 <= t < i + 1 implies 0 <= #[trigger] gidx[t] < groups@.len() && groups@[gidx[t]].status@ == all[t].status@ by {
                    if t < i {
                        assert(groups@[old_gidx[t]].status@ == old_groups[old_gidx[t]].status@);
                    }
                }
            }
        } else {
            proof {
                if j < old_groups.len() {
                    crate::text::lemma_text_less_order(old_groups[j as int].status@, sv@, sv@);
                    assert(crate::text::text_less(sv@, old_groups[j as int].status@));
                }
                assert forall|k: int| 0 <= k < old_groups.len() implies (#[trigger] old_groups[k]).status@ != sv@ by {
                    if k < j {
                        crate::text::lemma_text_less_order(old_groups[k].status@, sv@, sv@);
                    } else if k > j {
                        crate::text::lemma_text_less_order(sv@, old_groups[j as int].status@, old_groups[k].status@);
                    }
                }
                assert forall|t: int| 0 <= t < all.take(i as int).len() implies (#[trigger] all.take(i as int)[t]).status@ != sv@ by {
                    assert(all.take(i as int)[t] == all[t]);
                    assert(old_groups[old_gidx[t]].status@ == all[t].status@);
                }
                lemma_with_status_none(all.take(i as int), sv@);
            }
            let status = issue.status.clone();
            let mut members: Vec<Issue> = Vec::new();
            members.push(issue);
            groups.insert(j, StatusGroup { status, issues: members });
            proof {
                gidx = Seq::new((i + 1) as nat, |t: int| if t == i {
                    j as int
                } else if old_gidx[t] >= j {
                    old_gidx[t] + 1
                } else {
                    old_gidx[t]
                });
                assert(groups@[j as int].issues@ =~= with_status(all.take(i as int), sv@).push(all[i as int]));
                assert forall|k: int| 0 <= k < groups@.len() implies (#[trigger] groups@[k]).issues@ == with_status(all.take(i + 1), groups@[k].status@)
                    && groups@[k].issues@.len() >= 1 by {
                    if k < j {
                        assert(groups@[k] == old_groups[k]);
                    } else if k > j {
                        assert(groups@[k] == old_groups[k - 1]);
                    }
                }
                assert forall|a: int, b: int| 0 <= a < b < groups@.len() implies crate::text::text_less(#[trigger] groups@[a].status@, #[trigger] groups@[b].status@) by {
                    if a < j && b < j {
                        assert(groups@[a] == old_groups[a] && groups@[b] == old_groups[b]);
                    } else if a < j && b == j {
                        assert(groups@[a] == old_groups[a]);
                    } else if a < j {
                        assert(groups@[a] == old_groups[a] && groups@[b] == old_groups[b - 1]);
                        crate::text::lemma_text_less_order(old_groups[a].status@, sv@, old_groups[b - 1].status@);
                        if b - 1 > j {
                            crate::text::lemma_text_less_order(sv@, old_groups[j as int].status@, old_groups[b - 1].status@);
                        }
                    } else if a == j {
                        assert(groups@[b] == old_groups[b - 1]);
                        if b - 1 > j {
                            crate::text::lemma_text_less_order(sv@, old_groups[j as int].status@, old_groups[b - 1].status@);
                        }
                    } else {
                        assert(groups@[a] == old_groups[a - 1] && groups@[b] == old_groups[b - 1]);
                    }
                }
                assert forall|t: int| 0 <= t < i + 1 implies 0 <= #[trigger] gidx[t] < groups@.len() && groups@[gidx[t]].status@ == all[t].status@ by {
                    if t < i {
                        if old_gidx[t] >= j {
                            assert(groups@[old_gidx[t] + 1] == old_groups[old_gidx[t]]);
                        } else {
                            assert(groups@[old_gidx[t]] == old_groups[old_gidx[t]]);
                        }
                    }
                }
            }
        }
        i = i + 1;
    }
    proof {
        assert(all.take(n as int) =~= all);
        lemma_groups_cover(all, groups@, gidx);
        assert(status_table(all, groups@));
    }
    groups
}

proof fn lemma_groups_cover(issues: Seq<Issue>, groups: Seq<StatusGroup>, gidx: Seq<int>)
    requires
        gidx.len() == issues.len(),
        forall|t: int| 0 <= t < issues.len() ==> 0 <= #[trigger] gidx[t] < groups.len() && groups[gidx[t]].status@ == issues[t].status@,
    ensures
        forall|t: int| 0 <= t < issues.len() ==> has_group(groups, (#[trigger] issues[t]).status@),
{
    assert forall|t: int| 0 <= t < issues.len() implies has_group(groups, (#[trigger] issues[t]).status@) by {
        let k = gidx[t];
        assert(groups[k].status@ == issues[t].status@);
    }
}

/// The lines of the status sections of a sprint summary.
pub open spec fn group_lines(groups: Seq<StatusGroup>) -> Seq<Seq<char>>
    decreases groups.len(),
{
    if groups.len() == 0 {
        Seq::empty()
    } else {
        group_lines(groups.drop_last()) + section_lines(groups.last().status@, groups.last().issues@)
    }
}

/// The line of an assignee in a sprint summary.
pub open spec fn assignee_line(r: AssigneeCount) -> Seq<char> {
    "- "@ + r.name@ + ": "@ + decimal(r.count as nat)
}

/// The report of a sprint summary.
pub open spec fn sprint_report(p: SprintPlan, c: SprintCounts, rows: Seq<AssigneeCount>, groups: Seq<StatusGroup>) -> Seq<Seq<char>> {
    let head = seq![
        "# Sprint summary — "@ + p.project@,
        Seq::<char>::empty(),
        "Sprint: "@ + p.label@,
        "Source: `"@ + p.query@ + "`"@,
        Seq::<char>::empty(),
        "- total issues: "@ + decimal(c.total as nat),
        "- done: "@ + decimal(c.done as nat),
        "- in progress: "@ + decimal(c.in_progress as nat),
        "- to do: "@ + decimal(c.todo as nat),
        "- blocked: "@ + decimal(c.blocked as nat),
        Seq::<char>::empty(),
    ];
    let by_assignee = if rows.len() == 0 {
        Seq::<Seq<char>>::empty()
    } else {
        seq!["## By assignee"@] + rows.map_values(|r: AssigneeCount| assignee_line(r)) + seq![Seq::<char>::empty()]
    };
    let all = head + by_assignee + group_lines(groups);
    if c.total == 0 {
        all.push("No issues matched the sprint query."@)
    } else {
        all
    }
}

fn text2(a: &str, b: &str) -> (r: String)
    ensures
        r@ == a@ + b@,
{
    let mut l = String::new();
    push_str(&mut l, a);
    push_str(&mut l, b);
    l
}

fn text3(a: &str, b: &str, c: &str) -> (r: String)
    ensures
        r@ == a@ + b@ + c@,
{
    let mut l = text2(a, b);
    push_str(&mut l, c);
    l
}

fn counted(a: &str, n: u64) -> (r: String)
    ensures
        r@ == a@ + decimal(n as nat),
{
    let mut l = String::new();
    push_str(&mut l, a);
    push_decimal(&mut l, n);
    l
}

/// The lines a sprint summary prints.
pub fn sprint_lines(plan: &SprintPlan, counts: &SprintCounts, rows: &Vec<AssigneeCount>, groups: &Vec<StatusGroup>) -> (r: Vec<String>)
    ensures
        views(r@) == sprint_report(*plan, *counts, rows@, groups@),
{
    let mut lines: Vec<String> = Vec::new();
    lines.push(text2("# Sprint summary — ", plan.project.as_str()));
    lines.push(String::new());
    lines.push(text2("Sprint: ", plan.label.as_str()));
    lines.push(text3("Source: `", plan.query.as_str(), "`"));
    lines.push(String::new());
    lines.push(counted("- total issues: ", counts.total));
    lines.push(counted("- done: ", counts.done));
    lines.push(counted("- in progress: ", counts.in_progress));
    lines.push(counted("- to do: ", counts.todo));
    lines.push(counted("- blocked: ", counts.blocked));
    lines.push(String::new());
    let ghost head = seq![
        "# Sprint summary — "@ + plan.project@,
        Seq::<char>::empty(),
        "Sprint: "@ + plan.label@,
        "Source: `"@ + plan.query@ + "`"@,
        Seq::<char>::empty(),
        "- total issues: "@ + decimal(counts.total as nat),
        "- done: "@ + decimal(counts.done as nat),
        "- in progress: "@ + decimal(counts.in_progress as nat),
        "- to do: "@ + decimal(counts.todo as nat),
        "- blocked: "@ + decimal(counts.blocked as nat),
        Seq::<char>::empty(),
    ];
    assert(views(lines@) =~= head);
    let ghost by_assignee = if rows@.len() == 0 {
        Seq::<Seq<char>>::empty()
    } else {
        seq!["## By assignee"@] + rows@.map_values(|r: AssigneeCount| assignee_line(r)) + seq![Seq::<char>::empty()]
    };
    if rows.len() > 0 {
        let mut h = String::new();
        push_str(&mut h, "## By assignee");
        let ghost top = views(lines@);
        lines.push(h);
        assert(views(lines@) =~= top.push("## By assignee"@));
        let ghost base = views(lines@);
        let ghost body = rows@.map_values(|r: AssigneeCount| assignee_line(r));
        let mut k: usize = 0;
        while k < rows.len()
            invariant
                k <= rows@.len(),
                body == rows@.map_values(|r: AssigneeCount| assignee_line(r)),
                views(lines@) == base + body.take(k as int),
            decreases rows@.len() - k,
        {
            let mut l = String::new();
            push_str(&mut l, "- ");
            push_str(&mut l, rows[k].name.as_str());
            push_str(&mut l, ": ");
            push_decimal(&mut l, rows[k].count);
            let ghost before = views(lines@);
            lines.push(l);
            k = k + 1;
            assert(views(lines@) =~= before.push(body[k - 1]));
            assert(base + body.take(k as int) =~= (base + body.take(k - 1)).push(body[k - 1]));
        }
        assert(body.take(k as int) =~= body);
        let ghost filled = views(lines@);
        lines.push(String::new());
        assert(views(lines@) =~= filled.push(Seq::<char>::empty()));
        assert(views(lines@) =~= head + by_assignee);
    } else {
        assert(views(lines@) =~= head + by_assignee);
    }
    let ghost upper = head + by_assignee;
    let mut g: usize = 0;
    while g < groups.len()
        invariant
            g <= groups@.len(),
            views(lines@) == upper + group_lines(groups@.take(g as int)),
        decreases groups@.len() - g,
    {
        assert(groups@.take(g + 1).drop_last() =~= groups@.take(g as int));
        assert(groups@.take(g + 1).last() == groups@[g as int]);
        push_section(&mut lines, groups[g].status.as_str(), &groups[g].issues);
        g = g + 1;
        assert(upper + group_lines(groups@.take(g as int)) =~= upper + group_lines(groups@.take(g - 1)) + section_lines(groups@[g - 1].status@, groups@[g - 1].issues@));
    }
    assert(groups@.take(g as int) =~= groups@);
    if counts.total == 0 {
        let mut e = String::new();
        push_str(&mut e, "No issues matched the sprint query.");
        lines.push(e);
    }
    lines
}

proof fn lemma_count_positive(issues: Seq<Issue>, name: Seq<char>)
    requires
        count_assignee(issues, name) > 0,
    ensures
        exists|t: int| 0 <= t < issues.len() && assignee_name(issues[t]) == name,
    decreases issues.len(),
{
    if assignee_name(issues.last()) != name {
        lemma_count_positive(issues.drop_last(), name);
        let t = choose|t: int| 0 <= t < issues.len() - 1 && assignee_name(issues.drop_last()[t]) == name;
        assert(issues[t] == issues.drop_last()[t]);
    } else {
        assert(assignee_name(issues[issues.len() - 1]) == name);
    }
}

} // verus!

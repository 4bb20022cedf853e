//! What submitting a TUI form asks for: the checks on the typed values, the
//! request to send, and the second press that confirms a change to many
//! issues or many days.
use vstd::prelude::*;

use crate::datetime::{build_worklog_range_dates, day_numbers, range_days, ymd_date, CalendarDate, DateTimeError};
use crate::issue_input::{dedup, key_pieces, normalize_issue_keys, validate_ymd_date, validated_ymd};
use crate::issue_updates::{CreateProjectVersionRequest, UpdateProjectVersionRequest};
use crate::text::{
    ascii_lowercase, ascii_lowercase_str, decimal, join, join_strings, push_decimal, push_str, str_eq,
    to_uppercase, trim, trim_str, uppercase, views,
};
use crate::tui_modal::ModalKind;

verus! {

/// The text of field `i`, empty when the form has no such field.
pub open spec fn text_at(texts: Seq<String>, i: int) -> Seq<char> {
    if 0 <= i < texts.len() {
        texts[i]@
    } else {
        Seq::empty()
    }
}

/// A trimmed text, or none when it is blank.
pub open spec fn opt_trim(s: Seq<char>) -> Option<Seq<char>> {
    if trim(s).len() == 0 {
        None
    } else {
        Some(trim(s))
    }
}

/// The view of an optional string.
pub open spec fn opt_view(o: Option<String>) -> Option<Seq<char>> {
    match o {
        Some(s) => Some(s@),
        None => None,
    }
}

/// A yes/no answer: blank is no; `y`, `yes`, `true`, `1` and `n`, `no`,
/// `false`, `0` in any ASCII case; anything else is refused, naming `label`.
pub open spec fn yes_no_of(raw: Seq<char>, label: Seq<char>) -> Result<bool, Seq<char>> {
    let v = ascii_lowercase(trim(raw));
    if v.len() == 0 || v == "n"@ || v == "no"@ || v == "false"@ || v == "0"@ {
        Ok(false)
    } else if v == "y"@ || v == "yes"@ || v == "true"@ || v == "1"@ {
        Ok(true)
    } else {
        Err("Invalid "@ + label + " value '"@ + trim(raw) + "'. Use y/n, yes/no, true/false, or 1/0"@)
    }
}

fn one_of(v: &str, a: &str, b: &str, c: &str, d: &str) -> (r: bool)
    ensures
        r == (v@ == a@ || v@ == b@ || v@ == c@ || v@ == d@),
{
    str_eq(v, a) || str_eq(v, b) || str_eq(v, c) || str_eq(v, d)
}

/// Reads a yes/no field.
pub fn parse_yes_no_field(raw: &str, label: &str) -> (r: Result<bool, String>)
    ensures
        match r {
            Ok(b) => yes_no_of(raw@, label@) == Ok::<bool, Seq<char>>(b),
            Err(e) => yes_no_of(raw@, label@) == Err::<bool, Seq<char>>(e@),
        },
{
    let t = trim_str(raw);
    let v = ascii_lowercase_str(t.as_str());
    if v.unicode_len() == 0 || one_of(v.as_str(), "n", "no", "false", "0") {
        Ok(false)
    } else if one_of(v.as_str(), "y", "yes", "true", "1") {
        Ok(true)
    } else {
        let mut m = String::new();
        push_str(&mut m, "Invalid ");
        push_str(&mut m, label);
        push_str(&mut m, " value '");
        push_str(&mut m, t.as_str());
        push_str(&mut m, "'. Use y/n, yes/no, true/false, or 1/0");
        Err(m)
    }
}

/// An optional date field: blank is none, else a `YYYY-MM-DD` date.
pub open spec fn optional_date_of(raw: Seq<char>, label: Seq<char>) -> Result<Option<Seq<char>>, Seq<char>> {
    if trim(raw).len() == 0 {
        Ok(None)
    } else {
        match validated_ymd(label, raw) {
            Ok(v) => Ok(Some(v)),
            Err(e) => Err(e),
        }
    }
}

/// A date field that clears the date when blank: blank is the empty text,
/// else a `YYYY-MM-DD` date.
pub open spec fn clearable_date_of(raw: Seq<char>, label: Seq<char>) -> Result<Option<Seq<char>>, Seq<char>> {
    if trim(raw).len() == 0 {
        Ok(Some(Seq::empty()))
    } else {
        match validated_ymd(label, raw) {
            Ok(v) => Ok(Some(v)),
            Err(e) => Err(e),
        }
    }
}

/// The view of a date field's result.
pub open spec fn date_result(r: Result<Option<String>, String>) -> Result<Option<Seq<char>>, Seq<char>> {
    match r {
        Ok(o) => Ok(opt_view(o)),
        Err(e) => Err(e@),
    }
}

/// Reads an optional date field.
pub fn optional_modal_date(raw: &str, label: &str) -> (r: Result<Option<String>, String>)
    ensures
        date_result(r) == optional_date_of(raw@, label@),
{
    let t = trim_str(raw);
    if t.unicode_len() == 0 {
        return Ok(None);
    }
    match validate_ymd_date(raw, label) {
        Ok(v) => Ok(Some(v)),
        Err(e) => Err(e),
    }
}

fn clearable_modal_date(raw: &str, label: &str) -> (r: Result<Option<String>, String>)
    ensures
        date_result(r) == clearable_date_of(raw@, label@),
{
    let t = trim_str(raw);
    if t.unicode_len() == 0 {
        return Ok(Some(String::new()));
    }
    match validate_ymd_date(raw, label) {
        Ok(v) => Ok(Some(v)),
        Err(e) => Err(e),
    }
}

/// Reads an optional text field: trimmed, none when blank.
pub fn optional_modal_text(raw: &str) -> (r: Option<String>)
    ensures
        opt_view(r) == opt_trim(raw@),
{
    let t = trim_str(raw);
    if t.unicode_len() == 0 {
        None
    } else {
        Some(t)
    }
}

/// The work of a bulk worklog: the same time on each of `dates`.
pub struct BulkWorklogPlan {
    pub key: String,
    pub time_spent: String,
    pub from: String,
    pub to: String,
    pub start: Option<String>,
    pub exclude_weekends: bool,
    pub comment: Option<String>,
    pub dates: Vec<CalendarDate>,
}

/// What submitting a form asks for.
pub enum Submission {
    /// A value is refused: the form shows this error.
    Invalid(String),
    /// A change to many issues or days waits for a second press: the form
    /// shows `notice`, and the next press confirms when it finds `token`.
    Confirm { notice: String, token: String },
    EditIssue { key: String, summary: String, description: String },
    /// Comment on an issue; a file to attach is checked to exist first.
    AddComment { key: String, body: String, attachment: Option<String> },
    /// Comment on the issues `jql` matches: they are fetched, then passed to
    /// `bulk_comment_targets`.
    BulkCommentQuery { jql: String, body: String },
    /// Comment on each of `keys`, stopping at the first failure.
    BulkComment { keys: Vec<String>, body: String },
    /// Upload a file, checked to exist first.
    UploadAttachment { key: String, path: String },
    /// Log work once, at a time resolved in the user's Jira time zone.
    AddWorklog {
        key: String,
        time_spent: String,
        date: Option<String>,
        start: Option<String>,
        comment: Option<String>,
    },
    /// Log work on many days: the user's time zone is fetched, then the plan
    /// goes to `bulk_worklog_confirmation`.
    BulkWorklog(BulkWorklogPlan),
    CreateProjectVersion(CreateProjectVersionRequest),
    EditProjectVersion { version_id: String, request: UpdateProjectVersionRequest },
    /// Change an issue's type: the type is looked up by name in the project.
    ChangeIssueType { key: String, project: String, issue_type: String },
    /// Move an issue: the type is looked up by name in the target project.
    MoveIssue { key: String, project: String, issue_type: String },
    /// The form has no submit step in the TUI.
    NotSubmitted,
}

/// The token that confirms a bulk comment.
pub open spec fn bulk_comment_token(jql: Seq<char>, keys: Seq<Seq<char>>, body: Seq<char>) -> Seq<char> {
    jql + "|"@ + join(keys, ","@) + "|"@ + body
}

/// What a bulk comment on `keys` asks for, `confirm` being the token the form
/// waits for.
pub open spec fn bulk_comment_step(
    jql: Seq<char>,
    keys: Seq<Seq<char>>,
    body: Seq<char>,
    confirm: Option<Seq<char>>,
    r: Submission,
) -> bool {
    if keys.len() == 0 {
        r matches Submission::Invalid(m) && m@ == "No issues matched the target"@
    } else if confirm == Some(bulk_comment_token(jql, keys, body)) {
        r matches Submission::BulkComment { keys: k, body: b } && views(k@) == keys && b@ == body
    } else {
        r matches Submission::Confirm { notice, token } && token@ == bulk_comment_token(jql, keys, body)
            && notice@ == "Press Ctrl+S again to comment on "@ + decimal(keys.len()) + " issue(s)"@
    }
}

fn copy_str(s: &str) -> (r: String)
    ensures
        r@ == s@,
{
    let mut t = String::new();
    push_str(&mut t, s);
    t
}

fn copy_opt(o: &Option<String>) -> (r: Option<String>)
    ensures
        opt_view(r) == opt_view(*o),
{
    match o {
        Some(s) => Some(copy_str(s.as_str())),
        None => None,
    }
}

fn invalid(m: &str) -> (r: Submission)
    ensures
        r matches Submission::Invalid(t) && t@ == m@,
{
    Submission::Invalid(copy_str(m))
}

/// What a bulk comment on the target issues asks for: the comment once the
/// same targets and text are submitted twice in a row.
pub fn bulk_comment_targets(jql: &str, keys: Vec<String>, body: &str, confirm: &Option<String>) -> (r: Submission)
    ensures
        bulk_comment_step(jql@, views(keys@), body@, opt_view(*confirm), r),
{
    if keys.len() == 0 {
        return invalid("No issues matched the target");
    }
    let mut token = String::new();
    push_str(&mut token, jql);
    push_str(&mut token, "|");
    let joined = join_strings(&keys, ",");
    push_str(&mut token, joined.as_str());
    push_str(&mut token, "|");
    push_str(&mut token, body);
    let confirmed = match confirm {
        Some(c) => str_eq(c.as_str(), token.as_str()),
        None => false,
    };
    if confirmed {
        Submission::BulkComment { keys, body: copy_str(body) }
    } else {
        let mut notice = String::new();
        push_str(&mut notice, "Press Ctrl+S again to comment on ");
        push_decimal(&mut notice, keys.len() as u64);
        push_str(&mut notice, " issue(s)");
        Submission::Confirm { notice, token }
    }
}

/// The token that confirms a bulk worklog.
pub open spec fn bulk_worklog_token(p: BulkWorklogPlan) -> Seq<char> {
    p.key@ + "|"@ + p.time_spent@ + "|"@ + p.from@ + "|"@ + p.to@ + "|"@ + match p.start {
        Some(s) => s@,
        None => Seq::empty(),
    } + "|"@ + if p.exclude_weekends {
        "true"@
    } else {
        "false"@
    } + "|"@ + match p.comment {
        Some(c) => c@,
        None => Seq::empty(),
    }
}

/// The notice that asks to confirm a bulk worklog.
pub open spec fn bulk_worklog_notice(p: BulkWorklogPlan) -> Seq<char> {
    "Press Ctrl+S again to create "@ + decimal(p.dates@.len()) + " worklogs for "@ + p.key@ + if p.exclude_weekends {
        " (excluding weekends)"@
    } else {
        Seq::empty()
    }
}

/// Confirms a bulk worklog: `None` when the same plan was submitted twice in
/// a row and the work can be logged, else the confirmation to ask for.
pub fn bulk_worklog_confirmation(plan: &BulkWorklogPlan, confirm: &Option<String>) -> (r: Option<Submission>)
    ensures
        match r {
            None => opt_view(*confirm) == Some(bulk_worklog_token(*plan)),
            Some(s) => opt_view(*confirm) != Some(bulk_worklog_token(*plan)) && (
            s matches Submission::Confirm { notice, token } && token@ == bulk_worklog_token(*plan) && notice@
                == bulk_worklog_notice(*plan)),
        },
{
    let mut token = String::new();
    push_str(&mut token, plan.key.as_str());
    push_str(&mut token, "|");
    push_str(&mut token, plan.time_spent.as_str());
    push_str(&mut token, "|");
    push_str(&mut token, plan.from.as_str());
    push_str(&mut token, "|");
    push_str(&mut token, plan.to.as_str());
    push_str(&mut token, "|");
    match &plan.start {
        Some(s) => push_str(&mut token, s.as_str()),
        None => {},
    }
    push_str(&mut token, "|");
    push_str(&mut token, if plan.exclude_weekends { "true" } else { "false" });
    push_str(&mut token, "|");
    match &plan.comment {
        Some(c) => push_str(&mut token, c.as_str()),
        None => {},
    }
    let confirmed = match confirm {
        Some(c) => str_eq(c.as_str(), token.as_str()),
        None => false,
    };
    if confirmed {
        None
    } else {
        let mut notice = String::new();
        push_str(&mut notice, "Press Ctrl+S again to create ");
        push_decimal(&mut notice, plan.dates.len() as u64);
        push_str(&mut notice, " worklogs for ");
        push_str(&mut notice, plan.key.as_str());
        if plan.exclude_weekends {
            push_str(&mut notice, " (excluding weekends)");
        }
        Some(Submission::Confirm { notice, token })
    }
}

/// A refusal with message `m`.
pub open spec fn refused(r: Submission, m: Seq<char>) -> bool {
    r matches Submission::Invalid(t) && t@ == m
}

/// What a date range refuses, or the days it covers.
pub open spec fn range_of(from: Seq<char>, to: Seq<char>, exclude_weekends: bool) -> Result<Seq<int>, Seq<char>> {
    match ymd_date(from) {
        None => Err("Invalid date '"@ + from + "'. Expected format: YYYY-MM-DD"@),
        Some(a) => match ymd_date(to) {
            None => Err("Invalid date '"@ + to + "'. Expected format: YYYY-MM-DD"@),
            Some(b) => if b < a {
                Err("Invalid range: end date '"@ + to + "' is before start date '"@ + from + "'"@)
            } else {
                Ok(range_days(a as int, b as int, exclude_weekends))
            },
        },
    }
}

/// What submitting the bulk worklog form asks for.
pub open spec fn bulk_worklog_submission(key: Seq<char>, texts: Seq<String>, r: Submission) -> bool {
    let time = trim(text_at(texts, 0));
    let from = trim(text_at(texts, 1));
    let to = trim(text_at(texts, 2));
    if time.len() == 0 {
        refused(r, "Time spent is required (e.g. 2h, 30m)"@)
    } else if from.len() == 0 {
        refused(r, "From date is required (YYYY-MM-DD)"@)
    } else if to.len() == 0 {
        refused(r, "To date is required (YYYY-MM-DD)"@)
    } else {
        match yes_no_of(text_at(texts, 4), "Exclude weekends"@) {
            Err(e) => refused(r, e),
            Ok(ex) => match range_of(from, to, ex) {
                Err(e) => refused(r, e),
                Ok(days) => if days.len() == 0 {
                    refused(r, "No worklog dates remain after weekend filtering"@)
                } else {
                    r matches Submission::BulkWorklog(p) && p.key@ == key && p.time_spent@ == time && p.from@
                        == from && p.to@ == to && opt_view(p.start) == opt_trim(text_at(texts, 3))
                        && p.exclude_weekends == ex && opt_view(p.comment) == opt_trim(text_at(texts, 5))
                        && day_numbers(p.dates@) == days
                },
            },
        }
    }
}

/// What submitting a project-version form asks for, the version being new
/// (`version_id` none) or edited.
pub open spec fn version_submission(project_key: Seq<char>, version_id: Option<Seq<char>>, texts: Seq<String>, r: Submission) -> bool {
    let name = trim(text_at(texts, 0));
    let start = match version_id {
        None => optional_date_of(text_at(texts, 2), "start date"@),
        Some(_) => clearable_date_of(text_at(texts, 2), "start date"@),
    };
    let release = match version_id {
        None => optional_date_of(text_at(texts, 3), "release date"@),
        Some(_) => clearable_date_of(text_at(texts, 3), "release date"@),
    };
    if name.len() == 0 {
        refused(r, "Version name is required"@)
    } else if start is Err {
        refused(r, start->Err_0)
    } else if release is Err {
        refused(r, release->Err_0)
    } else if yes_no_of(text_at(texts, 4), "Released"@) is Err {
        refused(r, yes_no_of(text_at(texts, 4), "Released"@)->Err_0)
    } else if yes_no_of(text_at(texts, 5), "Archived"@) is Err {
        refused(r, yes_no_of(text_at(texts, 5), "Archived"@)->Err_0)
    } else {
        let released = yes_no_of(text_at(texts, 4), "Released"@)->Ok_0;
        let archived = yes_no_of(text_at(texts, 5), "Archived"@)->Ok_0;
        match version_id {
            None => r matches Submission::CreateProjectVersion(q) && q.name@ == name && q.project@
                == project_key && opt_view(q.description) == opt_trim(text_at(texts, 1)) && opt_view(
                q.start_date,
            ) == start->Ok_0 && opt_view(q.release_date) == release->Ok_0 && q.released == released
                && q.archived == archived,
            Some(id) => r matches Submission::EditProjectVersion { version_id: v, request: q } && v@ == id
                && opt_view(q.name) == Some(name) && opt_view(q.description) == Some(trim(text_at(texts, 1)))
                && opt_view(q.start_date) == start->Ok_0 && opt_view(q.release_date) == release->Ok_0
                && q.released == Some(released) && q.archived == Some(archived),
        }
    }
}

/// What submitting a form of kind `kind` with field texts `texts` asks for,
/// `confirm` being the token the form waits for.
pub open spec fn submission_of(kind: ModalKind, texts: Seq<String>, confirm: Option<Seq<char>>, r: Submission) -> bool {
    match kind {
        ModalKind::EditIssue { key } => {
            let summary = trim(text_at(texts, 0));
            if summary.len() == 0 {
                refused(r, "Summary cannot be empty"@)
            } else {
                r matches Submission::EditIssue { key: k, summary: s, description: d } && k@ == key@ && s@
                    == summary && d@ == text_at(texts, 1)
            }
        },
        ModalKind::AddComment { key } => {
            let body = trim(text_at(texts, 0));
            if body.len() == 0 {
                refused(r, "Comment cannot be empty"@)
            } else {
                r matches Submission::AddComment { key: k, body: b, attachment: a } && k@ == key@ && b@ == body
                    && opt_view(a) == opt_trim(text_at(texts, 1))
            }
        },
        ModalKind::BulkComment => {
            let jql = trim(text_at(texts, 0));
            let keys = dedup(key_pieces(seq![text_at(texts, 1)]));
            let body = trim(text_at(texts, 2));
            if body.len() == 0 {
                refused(r, "Comment cannot be empty"@)
            } else if jql.len() > 0 && keys.len() > 0 {
                refused(r, "Use JQL or issue keys, not both"@)
            } else if jql.len() == 0 && keys.len() == 0 {
                refused(r, "Provide JQL or at least one issue key"@)
            } else if jql.len() > 0 {
                r matches Submission::BulkCommentQuery { jql: j, body: b } && j@ == jql && b@ == body
            } else {
                bulk_comment_step(jql, keys, body, confirm, r)
            }
        },
        ModalKind::UploadAttachment { key } => {
            let path = trim(text_at(texts, 0));
            if path.len() == 0 {
                refused(r, "Path cannot be empty"@)
            } else {
                r matches Submission::UploadAttachment { key: k, path: p } && k@ == key@ && p@ == path
            }
        },
        ModalKind::AddWorklog { key } => {
            let time = trim(text_at(texts, 0));
            if time.len() == 0 {
                refused(r, "Time spent is required (e.g. 2h, 30m)"@)
            } else {
                r matches Submission::AddWorklog { key: k, time_spent: t, date: d, start: s, comment: c } && k@
                    == key@ && t@ == time && opt_view(d) == opt_trim(text_at(texts, 1)) && opt_view(s)
                    == opt_trim(text_at(texts, 2)) && opt_view(c) == opt_trim(text_at(texts, 3))
            }
        },
        ModalKind::AddBulkWorklog { key } => bulk_worklog_submission(key@, texts, r),
        ModalKind::CreateProjectVersion { project_key } => version_submission(project_key@, None, texts, r),
        ModalKind::EditProjectVersion { project_key, version_id, .. } => version_submission(
            project_key@,
            Some(version_id@),
            texts,
            r,
        ),
        ModalKind::ChangeIssueType { key, current_project } => {
            let t = trim(text_at(texts, 0));
            if t.len() == 0 {
                refused(r, "Target issue type is required"@)
            } else {
                r matches Submission::ChangeIssueType { key: k, project: p, issue_type: i } && k@ == key@ && p@
                    == current_project@ && i@ == t
            }
        },
        ModalKind::MoveIssue { key, current_issue_type } => {
            let project = uppercase(trim(text_at(texts, 0)));
            let t = trim(text_at(texts, 1));
            if project.len() == 0 {
                refused(r, "Target project key is required"@)
            } else {
                r matches Submission::MoveIssue { key: k, project: p, issue_type: i } && k@ == key@ && p@
                    == project && i@ == if t.len() == 0 {
                    current_issue_type@
                } else {
                    t
                }
            }
        },
        _ => r is NotSubmitted,
    }
}

fn text_of(texts: &Vec<String>, i: usize) -> (r: String)
    ensures
        r@ == text_at(texts@, i as int),
{
    if i < texts.len() {
        copy_str(texts[i].as_str())
    } else {
        String::new()
    }
}

fn bulk_worklog(key: &String, texts: &Vec<String>) -> (r: Submission)
    ensures
        bulk_worklog_submission(key@, texts@, r),
{
    let time = trim_str(text_of(texts, 0).as_str());
    let from_raw = text_of(texts, 1);
    let to_raw = text_of(texts, 2);
    let from = trim_str(from_raw.as_str());
    let to = trim_str(to_raw.as_str());
    if time.unicode_len() == 0 {
        return invalid("Time spent is required (e.g. 2h, 30m)");
    }
    if from.unicode_len() == 0 {
        return invalid("From date is required (YYYY-MM-DD)");
    }
    if to.unicode_len() == 0 {
        return invalid("To date is required (YYYY-MM-DD)");
    }
    let start = optional_modal_text(text_of(texts, 3).as_str());
    let ex = match parse_yes_no_field(text_of(texts, 4).as_str(), "Exclude weekends") {
        Ok(b) => b,
        Err(e) => return Submission::Invalid(e),
    };
    let comment = optional_modal_text(text_of(texts, 5).as_str());
    match build_worklog_range_dates(from_raw.as_str(), to_raw.as_str(), ex) {
        Ok(dates) => {
            if dates.len() == 0 {
                return invalid("No worklog dates remain after weekend filtering");
            }
            Submission::BulkWorklog(
                BulkWorklogPlan {
                    key: copy_str(key.as_str()),
                    time_spent: time,
                    from,
                    to,
                    start,
                    exclude_weekends: ex,
                    comment,
                    dates,
                },
            )
        },
        Err(e) => Submission::Invalid(e.message()),
    }
}

fn version_form(project_key: &String, version_id: Option<&String>, texts: &Vec<String>) -> (r: Submission)
    ensures
        version_submission(
            project_key@,
            match version_id {
                Some(v) => Some(v@),
                None => None,
            },
            texts@,
            r,
        ),
{
    let name = trim_str(text_of(texts, 0).as_str());
    if name.unicode_len() == 0 {
        return invalid("Version name is required");
    }
    let start = match version_id {
        None => optional_modal_date(text_of(texts, 2).as_str(), "start date"),
        Some(_) => clearable_modal_date(text_of(texts, 2).as_str(), "start date"),
    };
    let start = match start {
        Ok(v) => v,
        Err(e) => return Submission::Invalid(e),
    };
    let release = match version_id {
        None => optional_modal_date(text_of(texts, 3).as_str(), "release date"),
        Some(_) => clearable_modal_date(text_of(texts, 3).as_str(), "release date"),
    };
    let release = match release {
        Ok(v) => v,
        Err(e) => return Submission::Invalid(e),
    };
    let released = match parse_yes_no_field(text_of(texts, 4).as_str(), "Released") {
        Ok(b) => b,
        Err(e) => return Submission::Invalid(e),
    };
    let archived = match parse_yes_no_field(text_of(texts, 5).as_str(), "Archived") {
        Ok(b) => b,
        Err(e) => return Submission::Invalid(e),
    };
    match version_id {
        None => Submission::CreateProjectVersion(
            CreateProjectVersionRequest {
                name,
                project: copy_str(project_key.as_str()),
                description: optional_modal_text(text_of(texts, 1).as_str()),
                archived,
                released,
                release_date: release,
                start_date: start,
            },
        ),
        Some(id) => Submission::EditProjectVersion {
            version_id: copy_str(id.as_str()),
            request: UpdateProjectVersionRequest {
                name: Some(name),
                description: Some(trim_str(text_of(texts, 1).as_str())),
                archived: Some(archived),
                released: Some(released),
                release_date: release,
                start_date: start,
            },
        },
    }
}

/// What submitting a form asks for, from the texts of its fields in order
/// and the confirmation token the form waits for.
pub fn submit_form(kind: &ModalKind, texts: &Vec<String>, confirm: &Option<String>) -> (r: Submission)
    ensures
        submission_of(*kind, texts@, opt_view(*confirm), r),
{
    match kind {
        ModalKind::EditIssue { key } => {
            let summary = trim_str(text_of(texts, 0).as_str());
            if summary.unicode_len() == 0 {
                return invalid("Summary cannot be empty");
            }
            Submission::EditIssue { key: copy_str(key.as_str()), summary, description: text_of(texts, 1) }
        },
        ModalKind::AddComment { key } => {
            let body = trim_str(text_of(texts, 0).as_str());
            if body.unicode_len() == 0 {
                return invalid("Comment cannot be empty");
            }
            Submission::AddComment {
                key: copy_str(key.as_str()),
                body,
                attachment: optional_modal_text(text_of(texts, 1).as_str()),
            }
        },
        ModalKind::BulkComment => {
            let jql = trim_str(text_of(texts, 0).as_str());
            let raw_keys = text_of(texts, 1);
            let ghost raw_view = raw_keys@;
            let raw = vec![raw_keys];
            assert(views(raw@) =~= seq![raw_view]);
            let keys = normalize_issue_keys(raw);
            let body = trim_str(text_of(texts, 2).as_str());
            if body.unicode_len() == 0 {
                return invalid("Comment cannot be empty");
            }
            if jql.unicode_len() > 0 && keys.len() > 0 {
                return invalid("Use JQL or issue keys, not both");
            }
            if jql.unicode_len() == 0 && keys.len() == 0 {
                return invalid("Provide JQL or at least one issue key");
            }
            if jql.unicode_len() > 0 {
                return Submission::BulkCommentQuery { jql, body };
            }
            bulk_comment_targets(jql.as_str(), keys, body.as_str(), confirm)
        },
        ModalKind::UploadAttachment { key } => {
            let path = trim_str(text_of(texts, 0).as_str());
            if path.unicode_len() == 0 {
                return invalid("Path cannot be empty");
            }
            Submission::UploadAttachment { key: copy_str(key.as_str()), path }
        },
        ModalKind::AddWorklog { key } => {
            let time = trim_str(text_of(texts, 0).as_str());
            if time.unicode_len() == 0 {
                return invalid("Time spent is required (e.g. 2h, 30m)");
            }
            Submission::AddWorklog {
                key: copy_str(key.as_str()),
                time_spent: time,
                date: optional_modal_text(text_of(texts, 1).as_str()),
                start: optional_modal_text(text_of(texts, 2).as_str()),
                comment: optional_modal_text(text_of(texts, 3).as_str()),
            }
        },
        ModalKind::AddBulkWorklog { key } => bulk_worklog(key, texts),
        ModalKind::CreateProjectVersion { project_key } => version_form(project_key, None, texts),
        ModalKind::EditProjectVersion { project_key, version_id, .. } => version_form(
            project_key,
            Some(version_id),
            texts,
        ),
        ModalKind::ChangeIssueType { key, current_project } => {
            let t = trim_str(text_of(texts, 0).as_str());
            if t.unicode_len() == 0 {
                return invalid("Target issue type is required");
            }
            Submission::ChangeIssueType {
                key: copy_str(key.as_str()),
                project: copy_str(current_project.as_str()),
                issue_type: t,
            }
        },
        ModalKind::MoveIssue { key, current_issue_type } => {
            let project = to_uppercase(trim_str(text_of(texts, 0).as_str()).as_str());
            if project.unicode_len() == 0 {
                return invalid("Target project key is required");
            }
            let t = trim_str(text_of(texts, 1).as_str());
            let issue_type = if t.unicode_len() == 0 {
                copy_str(current_issue_type.as_str())
            } else {
                t
            };
            Submission::MoveIssue { key: copy_str(key.as_str()), project, issue_type }
        },
        _ => Submission::NotSubmitted,
    }
}

} // verus!

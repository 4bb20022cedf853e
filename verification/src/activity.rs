//! `jirac issue worklog`, `comment` and `watch`: what the options ask for, and
//! the lines printed once Jira answered.
use vstd::prelude::*;

use crate::datetime::{build_worklog_range_dates, error_text, range_days, ymd_date, CalendarDate};
use crate::text::{decimal, push_decimal, push_str, trim, trim_bounds, chars_of, views};

verus! {

/// `jirac issue worklog` subcommands.
pub enum WorklogCommand {
    /// List the worklogs of the issue.
    List,
    /// Log time, on one day or on every day of a range.
    Add {
        time: String,
        comment: Option<String>,
        date: Option<String>,
        start: Option<String>,
        from: Option<String>,
        to: Option<String>,
        exclude_weekends: bool,
    },
    /// Delete a worklog.
    Delete { id: String, force: bool },
}

/// A range of days to log time on.
pub struct WorklogRangeOptions {
    pub from: String,
    pub to: String,
    pub exclude_weekends: bool,
}

/// What `worklog add` logs.
pub struct WorklogAddOptions {
    pub time: String,
    pub comment: Option<String>,
    pub date: Option<String>,
    pub start: Option<String>,
    /// Set when both ends of a range were given.
    pub range: Option<WorklogRangeOptions>,
}

/// What a worklog command does.
pub enum WorklogStep {
    List,
    Add(WorklogAddOptions),
    Delete { id: String, force: bool },
}

/// Reads a worklog command: an add logs over a range only when both ends are given.
pub fn handle(cmd: WorklogCommand) -> (r: WorklogStep)
    ensures
        match cmd {
            WorklogCommand::List => r is List,
            WorklogCommand::Add { time, comment, date, start, from, to, exclude_weekends } =>
                r matches WorklogStep::Add(o) && o.time == time && o.comment == comment && o.date == date
                    && o.start == start && match (from, to) {
                    (Some(f), Some(t)) => o.range matches Some(g) && g.from == f && g.to == t
                        && g.exclude_weekends == exclude_weekends,
                    _ => o.range is None,
                },
            WorklogCommand::Delete { id, force } => r matches WorklogStep::Delete { id: i, force: f } && i == id && f == force,
        },
{
    match cmd {
        WorklogCommand::List => WorklogStep::List,
        WorklogCommand::Add { time, comment, date, start, from, to, exclude_weekends } => {
            let range = match (from, to) {
                (Some(from), Some(to)) => Some(WorklogRangeOptions { from, to, exclude_weekends }),
                _ => None,
            };
            WorklogStep::Add(WorklogAddOptions { time, comment, date, start, range })
        },
        WorklogCommand::Delete { id, force } => WorklogStep::Delete { id, force },
    }
}

/// Whether logging needs the user's Jira time zone: a date, a start time or a
/// range was given.
pub fn needs_timezone(o: &WorklogAddOptions) -> (r: bool)
    ensures
        r == (o.date is Some || o.start is Some || o.range is Some),
{
    o.date.is_some() || o.start.is_some() || o.range.is_some()
}

/// The error when weekend filtering leaves no day in a range.
pub open spec fn empty_range_text(from: Seq<char>, to: Seq<char>) -> Seq<char> {
    "No worklog dates remain in range "@ + from + ".."@ + to + " after applying weekend filtering."@
}

/// The days of a worklog range: an error for a bad or reversed range, or when
/// no day remains.
pub fn range_days_to_log(from: &str, to: &str, exclude_weekends: bool) -> (r: Result<Vec<CalendarDate>, String>)
    ensures
        match r {
            Ok(v) => v@.len() > 0 && ymd_date(trim(from@)) is Some && ymd_date(trim(to@)) is Some
                && crate::datetime::day_numbers(v@) == range_days(
                    ymd_date(trim(from@))->0 as int,
                    ymd_date(trim(to@))->0 as int,
                    exclude_weekends,
                ),
            Err(m) => (exists|e: crate::datetime::DateTimeError| m@ == error_text(e))
                || m@ == empty_range_text(from@, to@),
        },
        ymd_date(trim(from@)) is Some && ymd_date(trim(to@)) is Some && ymd_date(trim(from@))->0
            <= ymd_date(trim(to@))->0 && range_days(
                ymd_date(trim(from@))->0 as int,
                ymd_date(trim(to@))->0 as int,
                exclude_weekends,
            ).len() == 0 ==> (r matches Err(m) && m@ == empty_range_text(from@, to@)),
{
    match build_worklog_range_dates(from, to, exclude_weekends) {
        Ok(v) => {
            if v.len() == 0 {
                let mut m = String::new();
                push_str(&mut m, "No worklog dates remain in range ");
                push_str(&mut m, from);
                push_str(&mut m, "..");
                push_str(&mut m, to);
                push_str(&mut m, " after applying weekend filtering.");
                Err(m)
            } else {
                Ok(v)
            }
        },
        Err(e) => Err(e.message()),
    }
}

/// The days logged so far, with the worklog ids Jira gave.
pub open spec fn logged_pairs(created: Seq<(String, String)>) -> Seq<Seq<char>> {
    created.map_values(|p: (String, String)| p.0@ + " -> "@ + p.1@)
}

/// The error when logging on one day of a range failed, listing the days
/// already logged.
pub open spec fn range_failure_text(key: Seq<char>, date: Seq<char>, err: Seq<char>, created: Seq<(String, String)>) -> Seq<char> {
    "Failed to add worklog for "@ + key + " on "@ + date + ": "@ + err + "."@ + if created.len() == 0 {
        Seq::empty()
    } else {
        " Partial success: "@ + crate::text::join(logged_pairs(created), ", "@) + "."@
    }
}

/// The error when logging on one day of a range failed.
pub fn range_failure(key: &str, date: &str, err: &str, created: &Vec<(String, String)>) -> (r: String)
    ensures
        r@ == range_failure_text(key@, date@, err@, created@),
{
    let mut m = String::new();
    push_str(&mut m, "Failed to add worklog for ");
    push_str(&mut m, key);
    push_str(&mut m, " on ");
    push_str(&mut m, date);
    push_str(&mut m, ": ");
    push_str(&mut m, err);
    push_str(&mut m, ".");
    if created.len() > 0 {
        let mut pairs: Vec<String> = Vec::new();
        let mut i: usize = 0;
        while i < created.len()
            invariant
                i <= created@.len(),
                views(pairs@) == logged_pairs(created@).take(i as int),
            decreases created@.len() - i,
        {
            let mut p = String::new();
            push_str(&mut p, created[i].0.as_str());
            push_str(&mut p, " -> ");
            push_str(&mut p, created[i].1.as_str());
            let ghost before = views(pairs@);
            let ghost item = p@;
            pairs.push(p);
            i = i + 1;
            assert(views(pairs@) =~= before.push(item));
            assert(logged_pairs(created@).take(i as int) =~= logged_pairs(created@).take(i - 1).push(item));
        }
        assert(logged_pairs(created@).take(i as int) =~= logged_pairs(created@));
        push_str(&mut m, " Partial success: ");
        let joined = crate::text::join_strings(&pairs, ", ");
        push_str(&mut m, joined.as_str());
        push_str(&mut m, ".");
    }
    m
}

/// The report of a range logged in full.
pub open spec fn range_report_of(time: Seq<char>, key: Seq<char>, created: Seq<(String, String)>, exclude_weekends: bool) -> Seq<Seq<char>> {
    seq![
        "✓ Logged "@ + time + " on "@ + key + " across "@ + decimal(created.len()) + " day(s)"@ + if exclude_weekends {
            " (excluding weekends)"@
        } else {
            Seq::empty()
        },
    ] + created.map_values(|p: (String, String)| "  - "@ + p.0@ + " -> worklog id "@ + p.1@)
}

/// The lines printed once every day of a range was logged.
pub fn range_report(time: &str, key: &str, created: &Vec<(String, String)>, exclude_weekends: bool) -> (r: Vec<String>)
    ensures
        views(r@) == range_report_of(time@, key@, created@, exclude_weekends),
{
    let mut head = String::new();
    push_str(&mut head, "✓ Logged ");
    push_str(&mut head, time);
    push_str(&mut head, " on ");
    push_str(&mut head, key);
    push_str(&mut head, " across ");
    push_decimal(&mut head, created.len() as u64);
    push_str(&mut head, " day(s)");
    if exclude_weekends {
        push_str(&mut head, " (excluding weekends)");
    }
    let mut lines: Vec<String> = Vec::new();
    lines.push(head);
    let ghost first = views(lines@);
    let ghost body = created@.map_values(|p: (String, String)| "  - "@ + p.0@ + " -> worklog id "@ + p.1@);
    let mut i: usize = 0;
    while i < created.len()
        invariant
            i <= created@.len(),
            body == created@.map_values(|p: (String, String)| "  - "@ + p.0@ + " -> worklog id "@ + p.1@),
            views(lines@) == first + body.take(i as int),
        decreases created@.len() - i,
    {
        let mut l = String::new();
        push_str(&mut l, "  - ");
        push_str(&mut l, created[i].0.as_str());
        push_str(&mut l, " -> worklog id ");
        push_str(&mut l, created[i].1.as_str());
        let ghost before = views(lines@);
        lines.push(l);
        i = i + 1;
        assert(views(lines@) =~= before.push(body[i - 1]));
        assert(first + body.take(i as int) =~= (first + body.take(i - 1)).push(body[i - 1]));
    }
    assert(body.take(i as int) =~= body);
    lines
}

/// `jirac issue comment` subcommands.
pub enum CommentCommand {
    List,
    /// Add a comment given inline or read from a file.
    Add { body: Option<String>, file: Option<String> },
}

/// Where a new comment comes from.
pub enum CommentSource {
    Text(String),
    /// The path of a file holding the comment.
    File(String),
}

/// Exactly one source must be given, and an inline text must not be blank.
pub fn comment_source(body: Option<String>, file: Option<String>) -> (r: Result<CommentSource, String>)
    ensures
        match (body, file) {
            (Some(b), None) => if trim(b@).len() > 0 {
                r matches Ok(CommentSource::Text(t)) && t == b
            } else {
                r matches Err(m) && m@ == "Provide exactly one of --body or --file with non-empty content"@
            },
            (None, Some(p)) => r matches Ok(CommentSource::File(q)) && q == p,
            _ => r matches Err(m) && m@ == "Provide exactly one of --body or --file with non-empty content"@,
        },
{
    let refusal = "Provide exactly one of --body or --file with non-empty content";
    match (body, file) {
        (Some(b), None) => {
            let v = chars_of(b.as_str());
            let (x, y) = trim_bounds(&v);
            if x < y {
                Ok(CommentSource::Text(b))
            } else {
                let mut m = String::new();
                push_str(&mut m, refusal);
                Err(m)
            }
        },
        (None, Some(p)) => Ok(CommentSource::File(p)),
        _ => {
            let mut m = String::new();
            push_str(&mut m, refusal);
            Err(m)
        },
    }
}

/// A comment's text, refused when blank.
pub fn check_comment(text: String) -> (r: Result<String, String>)
    ensures
        trim(text@).len() > 0 ==> r == Ok::<String, String>(text),
        trim(text@).len() == 0 ==> (r matches Err(m) && m@ == "Comment cannot be empty"@),
{
    let v = chars_of(text.as_str());
    let (x, y) = trim_bounds(&v);
    if x < y {
        Ok(text)
    } else {
        let mut m = String::new();
        push_str(&mut m, "Comment cannot be empty");
        Err(m)
    }
}

/// `jirac issue watch` subcommands.
pub enum WatchCommand {
    /// Add a watcher: the given account, else the current user.
    Add { account_id: Option<String> },
    List,
    /// Remove a watcher.
    Rm { account_id: String, force: bool },
}

/// A watcher of an issue.
pub struct Watcher {
    pub display_name: String,
    pub account_id: String,
    pub active: bool,
}

/// The line printed for a watcher.
pub open spec fn watcher_line(w: Watcher) -> Seq<char> {
    "  - "@ + w.display_name@ + " ("@ + w.account_id@ + ") ["@ + if w.active {
        "active"@
    } else {
        "inactive"@
    } + "]"@
}

/// The lines printed for the watchers of issue `key`.
pub open spec fn watcher_report(key: Seq<char>, ws: Seq<Watcher>, count: u64, is_watching: bool) -> Seq<Seq<char>> {
    if ws.len() == 0 {
        seq!["No watchers on "@ + key + "."@]
    } else {
        let lines = seq!["Watchers on "@ + key + " ("@ + decimal(count as nat) + " total):"@]
            + ws.map_values(|w: Watcher| watcher_line(w));
        if is_watching {
            lines + seq![Seq::<char>::empty(), "You are currently watching this issue."@]
        } else {
            lines
        }
    }
}

/// The lines printed for the watchers of issue `key`, of which Jira counts `count`.
pub fn watcher_lines(key: &str, watchers: &Vec<Watcher>, count: u64, is_watching: bool) -> (r: Vec<String>)
    ensures
        views(r@) == watcher_report(key@, watchers@, count, is_watching),
{
    let mut lines: Vec<String> = Vec::new();
    if watchers.len() == 0 {
        let mut l = String::new();
        push_str(&mut l, "No watchers on ");
        push_str(&mut l, key);
        push_str(&mut l, ".");
        lines.push(l);
        assert(views(lines@) =~= watcher_report(key@, watchers@, count, is_watching));
        return lines;
    }
    let mut head = String::new();
    push_str(&mut head, "Watchers on ");
    push_str(&mut head, key);
    push_str(&mut head, " (");
    push_decimal(&mut head, count);
    push_str(&mut head, " total):");
    lines.push(head);
    let ghost first = views(lines@);
    let ghost body = watchers@.map_values(|w: Watcher| watcher_line(w));
    let mut i: usize = 0;
    while i < watchers.len()
        invariant
            i <= watchers@.len(),
            body == watchers@.map_values(|w: Watcher| watcher_line(w)),
            views(lines@) == first + body.take(i as int),
        decreases watchers@.len() - i,
    {
        let w = &watchers[i];
        let mut l = String::new();
        push_str(&mut l, "  - ");
        push_str(&mut l, w.display_name.as_str());
        push_str(&mut l, " (");
        push_str(&mut l, w.account_id.as_str());
        push_str(&mut l, ") [");
        if w.active {
            push_str(&mut l, "active");
        } else {
            push_str(&mut l, "inactive");
        }
        push_str(&mut l, "]");
        let ghost before = views(lines@);
        lines.push(l);
        i = i + 1;
        assert(views(lines@) =~= before.push(body[i - 1]));
        assert(first + body.take(i as int) =~= (first + body.take(i - 1)).push(body[i - 1]));
    }
    assert(body.take(i as int) =~= body);
    if is_watching {
        let ghost before = views(lines@);
        lines.push(String::new());
        let mut l = String::new();
        push_str(&mut l, "You are currently watching this issue.");
        lines.push(l);
        assert(views(lines@) =~= before + seq![Seq::<char>::empty(), "You are currently watching this issue."@]);
    }
    lines
}

} // verus!

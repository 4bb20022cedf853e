//! How issues and mentions are printed on the command line: the issue
//! table, the mention table, and an issue's details.
use vstd::prelude::*;

use crate::issue_input::{truncatable, truncate, truncated};
use crate::model::Issue;
use crate::notifications::NotificationEntry;
use crate::text::{decimal, join, join_strings, padded, push_decimal, push_padded, push_str, views};
use crate::versions::{first_ten_bytes, short10, short_date_ok};

verus! {

/// The query `jirac issue list` runs: the one given, else the project's
/// issues, else the user's own, newest first.
pub open spec fn list_query_of(project: Option<Seq<char>>, jql: Option<Seq<char>>) -> Seq<char> {
    match jql {
        Some(j) => j,
        None => match project {
            Some(p) => "project = "@ + p + " ORDER BY updated DESC"@,
            None => "assignee = currentUser() ORDER BY updated DESC"@,
        },
    }
}

/// The query `jirac issue list` runs.
pub fn list_query(project: Option<&str>, jql: Option<String>) -> (r: String)
    ensures
        r@ == list_query_of(
            match project {
                Some(p) => Some(p@),
                None => None,
            },
            match jql {
                Some(j) => Some(j@),
                None => None,
            },
        ),
{
    match jql {
        Some(j) => j,
        None => {
            let mut s = String::new();
            match project {
                Some(p) => {
                    push_str(&mut s, "project = ");
                    push_str(&mut s, p);
                    push_str(&mut s, " ORDER BY updated DESC");
                },
                None => push_str(&mut s, "assignee = currentUser() ORDER BY updated DESC"),
            }
            s
        },
    }
}

/// `n` copies of `c`.
pub open spec fn repeated(c: char, n: nat) -> Seq<char> {
    Seq::new(n, |i: int| c)
}

/// Appends `n` copies of `c`.
pub fn push_repeated(s: &mut String, c: char, n: usize)
    ensures
        final(s)@ == old(s)@ + repeated(c, n as nat),
{
    let mut k: usize = 0;
    while k < n
        invariant
            k <= n,
            s@ == old(s)@ + repeated(c, k as nat),
        decreases n - k,
    {
        crate::text::push_char(s, c);
        k = k + 1;
        assert(s@ =~= old(s)@ + repeated(c, k as nat));
    }
}

/// The cells of an issue row can be cut to their widths.
pub open spec fn row_ok(i: Issue) -> bool {
    truncatable(i.issue_type@, 7) && truncatable(i.status@, 19) && truncatable(i.summary@, 38)
}

/// The row of an issue in the issue table.
pub open spec fn issue_row_of(i: Issue) -> Seq<char> {
    padded(i.key@, 12) + " "@ + padded(truncated(i.issue_type@, 7), 8) + " "@ + padded(
        truncated(i.status@, 19),
        20,
    ) + " "@ + truncated(i.summary@, 38)
}

/// The issue table: a note when there are no issues; else a heading, a rule,
/// one row per issue, and when the search reported a total, a blank line and
/// how many of how many are shown.
pub open spec fn issue_table_of(issues: Seq<Issue>, total: Option<u64>) -> Seq<Seq<char>> {
    if issues.len() == 0 {
        seq!["No issues found."@]
    } else {
        seq![
            padded("KEY"@, 12) + " "@ + padded("TYPE"@, 8) + " "@ + padded("STATUS"@, 20) + " "@ + padded(
                "SUMMARY"@,
                40,
            ),
            repeated('─', 82),
        ] + issues.map_values(|i: Issue| issue_row_of(i)) + match total {
            Some(t) => seq![
                Seq::empty(),
                "Showing "@ + decimal(issues.len()) + " of "@ + decimal(t as nat) + " issues"@,
            ],
            None => Seq::empty(),
        }
    }
}

/// The row of an issue in the issue table.
pub fn issue_row(i: &Issue) -> (r: String)
    requires
        row_ok(*i),
    ensures
        r@ == issue_row_of(*i),
{
    let mut s = String::new();
    push_padded(&mut s, i.key.as_str(), 12);
    push_str(&mut s, " ");
    let t = truncate(i.issue_type.as_str(), 7);
    push_padded(&mut s, t.as_str(), 8);
    push_str(&mut s, " ");
    let st = truncate(i.status.as_str(), 19);
    push_padded(&mut s, st.as_str(), 20);
    push_str(&mut s, " ");
    let su = truncate(i.summary.as_str(), 38);
    push_str(&mut s, su.as_str());
    s
}

/// Appends the row of each issue.
pub fn push_issue_rows(lines: &mut Vec<String>, issues: &Vec<Issue>)
    requires
        forall|k: int| 0 <= k < issues@.len() ==> row_ok(#[trigger] issues@[k]),
    ensures
        views(final(lines)@) == views(old(lines)@) + issues@.map_values(|i: Issue| issue_row_of(i)),
{
    let ghost l0 = views(lines@);
    let mut k: usize = 0;
    while k < issues.len()
        invariant
            k <= issues@.len(),
            forall|q: int| 0 <= q < issues@.len() ==> row_ok(#[trigger] issues@[q]),
            views(lines@) == l0 + issues@.take(k as int).map_values(|i: Issue| issue_row_of(i)),
        decreases issues@.len() - k,
    {
        let row = issue_row(&issues[k]);
        let ghost before = views(lines@);
        lines.push(row);
        assert(views(lines@) =~= before.push(issue_row_of(issues@[k as int])));
        k = k + 1;
        assert(issues@.take(k as int).map_values(|i: Issue| issue_row_of(i)) =~= issues@.take(k - 1).map_values(
            |i: Issue| issue_row_of(i),
        ).push(issue_row_of(issues@[k - 1])));
    }
    assert(issues@.take(k as int) =~= issues@);
}

/// The issue table.
pub fn issue_table(issues: &Vec<Issue>, total: Option<u64>) -> (r: Vec<String>)
    requires
        forall|k: int| 0 <= k < issues@.len() ==> row_ok(#[trigger] issues@[k]),
    ensures
        views(r@) == issue_table_of(issues@, total),
{
    let mut lines: Vec<String> = Vec::new();
    if issues.len() == 0 {
        let mut s = String::new();
        push_str(&mut s, "No issues found.");
        lines.push(s);
        assert(views(lines@) =~= issue_table_of(issues@, total));
        return lines;
    }
    let mut h = String::new();
    push_padded(&mut h, "KEY", 12);
    push_str(&mut h, " ");
    push_padded(&mut h, "TYPE", 8);
    push_str(&mut h, " ");
    push_padded(&mut h, "STATUS", 20);
    push_str(&mut h, " ");
    push_padded(&mut h, "SUMMARY", 40);
    lines.push(h);
    let mut rule = String::new();
    push_repeated(&mut rule, '─', 82);
    lines.push(rule);
    let ghost l0 = views(lines@);
    push_issue_rows(&mut lines, issues);
    let ghost l1 = views(lines@);
    match total {
        Some(t) => {
            lines.push(String::new());
            let mut s = String::new();
            push_str(&mut s, "Showing ");
            push_decimal(&mut s, issues.len() as u64);
            push_str(&mut s, " of ");
            push_decimal(&mut s, t);
            push_str(&mut s, " issues");
            lines.push(s);
        },
        None => {},
    }
    assert(l0 =~= seq![
        padded("KEY"@, 12) + " "@ + padded("TYPE"@, 8) + " "@ + padded("STATUS"@, 20) + " "@ + padded(
            "SUMMARY"@,
            40,
        ),
        repeated('─', 82),
    ]);
    assert(views(lines@) =~= l1 + match total {
        Some(t) => seq![
            Seq::empty(),
            "Showing "@ + decimal(issues@.len()) + " of "@ + decimal(t as nat) + " issues"@,
        ],
        None => Seq::<Seq<char>>::empty(),
    });
    assert(views(lines@) =~= issue_table_of(issues@, total));
    lines
}

/// The cells of a mention row can be cut to their widths.
pub open spec fn mention_ok(e: NotificationEntry) -> bool {
    &&& truncatable(e.source@, 17)
    &&& truncatable(e.created@, 19)
    &&& truncatable(
        match e.author {
            Some(a) => a@,
            None => "—"@,
        },
        21,
    )
    &&& truncatable(e.issue.summary@, 32)
    &&& truncatable(e.excerpt@, 48)
}

/// The row of a mention in the mention table.
pub open spec fn mention_row_of(e: NotificationEntry) -> Seq<char> {
    padded(
        if e.read {
            "read"@
        } else {
            "unread"@
        },
        8,
    ) + " "@ + padded(e.issue.key@, 12) + " "@ + padded(truncated(e.source@, 17), 18) + " "@ + padded(
        truncated(e.created@, 19),
        20,
    ) + " "@ + padded(
        truncated(
            match e.author {
                Some(a) => a@,
                None => "—"@,
            },
            21,
        ),
        22,
    ) + " "@ + truncated(e.issue.summary@, 32) + " — "@ + truncated(e.excerpt@, 48)
}

/// The heading of the mention table.
pub open spec fn mention_heading() -> Seq<char> {
    padded("STATUS"@, 8) + " "@ + padded("ISSUE"@, 12) + " "@ + padded("SOURCE"@, 18) + " "@ + padded("WHEN"@, 20)
        + " "@ + padded("AUTHOR"@, 22) + " SUMMARY / EXCERPT"@
}

/// The row of a mention in the mention table.
pub fn mention_row(e: &NotificationEntry) -> (r: String)
    requires
        mention_ok(*e),
    ensures
        r@ == mention_row_of(*e),
{
    let mut s = String::new();
    push_padded(&mut s, if e.read { "read" } else { "unread" }, 8);
    push_str(&mut s, " ");
    push_padded(&mut s, e.issue.key.as_str(), 12);
    push_str(&mut s, " ");
    let src = truncate(e.source.as_str(), 17);
    push_padded(&mut s, src.as_str(), 18);
    push_str(&mut s, " ");
    let when = truncate(e.created.as_str(), 19);
    push_padded(&mut s, when.as_str(), 20);
    push_str(&mut s, " ");
    let author = match &e.author {
        Some(a) => truncate(a.as_str(), 21),
        None => truncate("—", 21),
    };
    push_padded(&mut s, author.as_str(), 22);
    push_str(&mut s, " ");
    let su = truncate(e.issue.summary.as_str(), 32);
    push_str(&mut s, su.as_str());
    push_str(&mut s, " — ");
    let ex = truncate(e.excerpt.as_str(), 48);
    push_str(&mut s, ex.as_str());
    s
}

/// The mention table: a heading, a rule, one row per mention, a blank line
/// and the scan's extent.
pub open spec fn mention_table_of(es: Seq<NotificationEntry>, scanned: nat, jql: Seq<char>) -> Seq<Seq<char>> {
    seq![mention_heading(), repeated('─', 110)] + es.map_values(|e: NotificationEntry| mention_row_of(e)) + seq![
        Seq::empty(),
        "Scanned "@ + decimal(scanned) + " recent issue(s) with JQL: "@ + jql,
    ]
}

/// The mention table.
pub fn mention_table(entries: &Vec<NotificationEntry>, scanned: usize, jql: &str) -> (r: Vec<String>)
    requires
        forall|k: int| 0 <= k < entries@.len() ==> mention_ok(#[trigger] entries@[k]),
    ensures
        views(r@) == mention_table_of(entries@, scanned as nat, jql@),
{
    let mut lines: Vec<String> = Vec::new();
    let mut h = String::new();
    push_padded(&mut h, "STATUS", 8);
    push_str(&mut h, " ");
    push_padded(&mut h, "ISSUE", 12);
    push_str(&mut h, " ");
    push_padded(&mut h, "SOURCE", 18);
    push_str(&mut h, " ");
    push_padded(&mut h, "WHEN", 20);
    push_str(&mut h, " ");
    push_padded(&mut h, "AUTHOR", 22);
    push_str(&mut h, " SUMMARY / EXCERPT");
    lines.push(h);
    let mut rule = String::new();
    push_repeated(&mut rule, '─', 110);
    lines.push(rule);
    let ghost l0 = views(lines@);
    let mut k: usize = 0;
    while k < entries.len()
        invariant
            k <= entries@.len(),
            forall|q: int| 0 <= q < entries@.len() ==> mention_ok(#[trigger] entries@[q]),
            views(lines@) == l0 + entries@.take(k as int).map_values(|e: NotificationEntry| mention_row_of(e)),
        decreases entries@.len() - k,
    {
        let row = mention_row(&entries[k]);
        let ghost before = views(lines@);
        lines.push(row);
        assert(views(lines@) =~= before.push(mention_row_of(entries@[k as int])));
        k = k + 1;
        assert(entries@.take(k as int).map_values(|e: NotificationEntry| mention_row_of(e)) =~= entries@.take(
            k - 1,
        ).map_values(|e: NotificationEntry| mention_row_of(e)).push(mention_row_of(entries@[k - 1])));
    }
    assert(entries@.take(k as int) =~= entries@);
    lines.push(String::new());
    let mut t = String::new();
    push_str(&mut t, "Scanned ");
    push_decimal(&mut t, scanned as u64);
    push_str(&mut t, " recent issue(s) with JQL: ");
    push_str(&mut t, jql);
    lines.push(t);
    assert(l0 =~= seq![mention_heading(), repeated('─', 110)]);
    assert(views(lines@) =~= mention_table_of(entries@, scanned as nat, jql@));
    lines
}

/// An optional detail line: `label` and the value, when there is one.
pub open spec fn opt_line(label: Seq<char>, v: Option<String>) -> Seq<Seq<char>> {
    match v {
        Some(x) => seq![label + x@],
        None => Seq::empty(),
    }
}

/// The head of an issue's details: a framed title, its type, status and
/// project, its priority, assignee and reporter when set, its dates cut to
/// the day, then its fix versions when it has some.
pub open spec fn detail_head_of(i: Issue, fix_versions: Seq<Seq<char>>) -> Seq<Seq<char>> {
    seq![
        "╔══════════════════════════════════════════════════════════════╗"@,
        "  "@ + i.key@ + " — "@ + i.summary@,
        "╚══════════════════════════════════════════════════════════════╝"@,
        Seq::empty(),
        "  Type:       "@ + i.issue_type@,
        "  Status:     "@ + i.status@,
        "  Project:    "@ + i.project_key@,
    ] + opt_line("  Priority:   "@, i.priority) + opt_line("  Assignee:   "@, i.assignee) + opt_line(
        "  Reporter:   "@,
        i.reporter,
    ) + seq!["  Created:    "@ + short10(i.created@), "  Updated:    "@ + short10(i.updated@)] + if fix_versions.len()
        > 0 {
        seq![Seq::empty(), "  Fix Versions: "@ + join(fix_versions, ", "@)]
    } else {
        Seq::empty()
    }
}

fn push_opt_line(lines: &mut Vec<String>, label: &str, v: &Option<String>)
    ensures
        views(final(lines)@) == views(old(lines)@) + opt_line(label@, *v),
{
    match v {
        Some(x) => {
            let mut l = String::new();
            push_str(&mut l, label);
            push_str(&mut l, x.as_str());
            lines.push(l);
        },
        None => {},
    }
    assert(views(lines@) =~= views(old(lines)@) + opt_line(label@, *v));
}

fn lit(a: &str) -> (r: String)
    ensures
        r@ == a@,
{
    let mut l = String::new();
    push_str(&mut l, a);
    l
}

fn text_line(a: &str, b: &str) -> (r: String)
    ensures
        r@ == a@ + b@,
{
    let mut l = String::new();
    push_str(&mut l, a);
    push_str(&mut l, b);
    l
}

/// The head of an issue's details.
pub fn issue_detail_head(i: &Issue, fix_versions: &Vec<String>) -> (r: Vec<String>)
    requires
        short_date_ok(Some(i.created)),
        short_date_ok(Some(i.updated)),
    ensures
        views(r@) == detail_head_of(*i, views(fix_versions@)),
{
    let mut title = String::new();
    push_str(&mut title, "  ");
    push_str(&mut title, i.key.as_str());
    push_str(&mut title, " — ");
    push_str(&mut title, i.summary.as_str());
    let mut lines: Vec<String> = vec![
        lit("╔══════════════════════════════════════════════════════════════╗"),
        title,
        lit("╚══════════════════════════════════════════════════════════════╝"),
        String::new(),
        text_line("  Type:       ", i.issue_type.as_str()),
        text_line("  Status:     ", i.status.as_str()),
        text_line("  Project:    ", i.project_key.as_str()),
    ];
    let ghost l0 = views(lines@);
    push_opt_line(&mut lines, "  Priority:   ", &i.priority);
    push_opt_line(&mut lines, "  Assignee:   ", &i.assignee);
    push_opt_line(&mut lines, "  Reporter:   ", &i.reporter);
    let ghost l1 = views(lines@);
    let c = first_ten_bytes(i.created.as_str());
    lines.push(text_line("  Created:    ", c.as_str()));
    let u = first_ten_bytes(i.updated.as_str());
    lines.push(text_line("  Updated:    ", u.as_str()));
    let ghost l2 = views(lines@);
    if fix_versions.len() > 0 {
        lines.push(String::new());
        let j = join_strings(fix_versions, ", ");
        lines.push(text_line("  Fix Versions: ", j.as_str()));
    }
    assert(l0 =~= seq![
        "╔══════════════════════════════════════════════════════════════╗"@,
        "  "@ + i.key@ + " — "@ + i.summary@,
        "╚══════════════════════════════════════════════════════════════╝"@,
        Seq::empty(),
        "  Type:       "@ + i.issue_type@,
        "  Status:     "@ + i.status@,
        "  Project:    "@ + i.project_key@,
    ]);
    assert(l2 =~= l1 + seq!["  Created:    "@ + short10(i.created@), "  Updated:    "@ + short10(i.updated@)]);
    assert(views(lines@) =~= detail_head_of(*i, views(fix_versions@)));
    lines
}

/// An attachment as the details list it: file name, media type and size.
pub struct AttachmentInfo {
    pub filename: String,
    pub mime_type: String,
    pub size: u64,
}

/// A line without the carriage return that ends it, if any.
pub open spec fn strip_cr(p: Seq<char>) -> Seq<char> {
    if p.len() > 0 && p.last() == '\r' {
        p.drop_last()
    } else {
        p
    }
}

/// The lines of a text as `str::lines` gives them: split at line feeds, a
/// carriage return before a line feed dropped, no empty line after a final
/// line feed.
pub open spec fn text_lines(t: Seq<char>) -> Seq<Seq<char>> {
    let ps = crate::text::split_on(t, |c: char| c == '\n');
    let init = ps.drop_last().map_values(|p: Seq<char>| strip_cr(p));
    if ps.last().len() == 0 {
        init
    } else {
        init.push(ps.last())
    }
}

/// The lines of a text, as `str::lines` gives them.
pub fn lines_of(t: &str) -> (r: Vec<String>)
    ensures
        views(r@) == text_lines(t@),
{
    let pieces = crate::text::split_chars(&crate::text::chars_of(t), &crate::text::Separator::Char('\n'));
    let ghost ps = views(pieces@);
    assert(crate::text::sep_pred(crate::text::Separator::Char('\n')) =~= (|c: char| c == '\n'));
    proof {
        crate::text::lemma_split_on_nonempty(t@, |c: char| c == '\n');
    }
    let n = pieces.len();
    let mut out: Vec<String> = Vec::new();
    let mut k: usize = 0;
    while k + 1 < n
        invariant
            n == pieces@.len(),
            n >= 1,
            k + 1 <= n,
            ps == views(pieces@),
            views(out@) == ps.take(k as int).map_values(|p: Seq<char>| strip_cr(p)),
        decreases n - k,
    {
        let v = crate::text::chars_of(pieces[k].as_str());
        let line = if v.len() > 0 && v[v.len() - 1] == '\r' {
            let l = crate::text::string_of_range(&v, 0, v.len() - 1);
            assert(l@ =~= ps[k as int].drop_last());
            l
        } else {
            crate::text::string_of(&v)
        };
        let ghost before = views(out@);
        out.push(line);
        assert(views(out@) =~= before.push(strip_cr(ps[k as int])));
        k = k + 1;
        assert(ps.take(k as int).map_values(|p: Seq<char>| strip_cr(p)) =~= ps.take(k - 1).map_values(
            |p: Seq<char>| strip_cr(p),
        ).push(strip_cr(ps[k - 1])));
    }
    assert(ps.take(k as int) =~= ps.drop_last());
    let last = &pieces[n - 1];
    if last.unicode_len() > 0 {
        let mut l = String::new();
        push_str(&mut l, last.as_str());
        out.push(l);
    }
    assert(views(out@) =~= text_lines(t@));
    out
}

/// The tail of an issue's details: its attachments when it has some, then
/// its description text when not empty, framed.
pub open spec fn detail_tail_of(atts: Seq<AttachmentInfo>, description: Seq<char>) -> Seq<Seq<char>> {
    (if atts.len() > 0 {
        seq![Seq::empty(), "  Attachments ("@ + decimal(atts.len()) + "):"@] + atts.map_values(
            |a: AttachmentInfo|
                "    • "@ + a.filename@ + " ("@ + a.mime_type@ + ", "@ + decimal(a.size as nat) + " bytes)"@,
        )
    } else {
        Seq::empty()
    }) + if description.len() > 0 {
        seq![Seq::empty(), "  Description:"@, "  ───────────────────────────────────────"@] + text_lines(
            description,
        ).map_values(|l: Seq<char>| "  "@ + l)
    } else {
        Seq::empty()
    }
}

/// The tail of an issue's details, the description given as plain text.
pub fn issue_detail_tail(attachments: &Vec<AttachmentInfo>, description: &str) -> (r: Vec<String>)
    ensures
        views(r@) == detail_tail_of(attachments@, description@),
{
    let mut lines: Vec<String> = Vec::new();
    if attachments.len() > 0 {
        lines.push(String::new());
        let mut h = String::new();
        push_str(&mut h, "  Attachments (");
        push_decimal(&mut h, attachments.len() as u64);
        push_str(&mut h, "):");
        lines.push(h);
        let ghost l0 = views(lines@);
        let ghost f = |a: AttachmentInfo|
            "    • "@ + a.filename@ + " ("@ + a.mime_type@ + ", "@ + decimal(a.size as nat) + " bytes)"@;
        let mut k: usize = 0;
        while k < attachments.len()
            invariant
                k <= attachments@.len(),
                views(lines@) == l0 + attachments@.take(k as int).map_values(f),
                f == (|a: AttachmentInfo|
                    "    • "@ + a.filename@ + " ("@ + a.mime_type@ + ", "@ + decimal(a.size as nat)
                        + " bytes)"@),
            decreases attachments@.len() - k,
        {
            let a = &attachments[k];
            let mut l = String::new();
            push_str(&mut l, "    • ");
            push_str(&mut l, a.filename.as_str());
            push_str(&mut l, " (");
            push_str(&mut l, a.mime_type.as_str());
            push_str(&mut l, ", ");
            push_decimal(&mut l, a.size);
            push_str(&mut l, " bytes)");
            let ghost before = views(lines@);
            lines.push(l);
            assert(views(lines@) =~= before.push(f(attachments@[k as int])));
            k = k + 1;
            assert(attachments@.take(k as int).map_values(f) =~= attachments@.take(k - 1).map_values(f).push(
                f(attachments@[k - 1]),
            ));
        }
        assert(attachments@.take(k as int) =~= attachments@);
    }
    let ghost l1 = views(lines@);
    if description.unicode_len() > 0 {
        lines.push(String::new());
        lines.push(lit("  Description:"));
        lines.push(lit("  ───────────────────────────────────────"));
        let ghost l2 = views(lines@);
        let ls = lines_of(description);
        let mut k: usize = 0;
        while k < ls.len()
            invariant
                k <= ls@.len(),
                views(lines@) == l2 + views(ls@).take(k as int).map_values(|l: Seq<char>| "  "@ + l),
            decreases ls@.len() - k,
        {
            let ghost before = views(lines@);
            lines.push(text_line("  ", ls[k].as_str()));
            assert(views(lines@) =~= before.push("  "@ + ls@[k as int]@));
            k = k + 1;
            assert(views(ls@).take(k as int).map_values(|l: Seq<char>| "  "@ + l) =~= views(ls@).take(
                k - 1,
            ).map_values(|l: Seq<char>| "  "@ + l).push("  "@ + ls@[k - 1]@));
        }
        assert(views(ls@).take(k as int) =~= views(ls@));
        assert(views(lines@) =~= l1 + (seq![Seq::empty(), "  Description:"@, "  ───────────────────────────────────────"@]
            + text_lines(description@).map_values(|l: Seq<char>| "  "@ + l)));
    }
    assert(views(lines@) =~= detail_tail_of(attachments@, description@));
    lines
}

} // verus!

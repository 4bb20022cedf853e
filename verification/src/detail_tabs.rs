//! The text of the TUI's detail tabs: the summary of an issue, its comments,
//! worklogs, attachments, subtasks and remote links.
//!
//! A line is a list of spans, each a text with the tone it is drawn in; the
//! caller maps tones to the colours of the theme.
use vstd::prelude::*;

use crate::issue_views::{lines_of, text_lines, AttachmentInfo};
use crate::manifest::str_member;
use crate::model::{json_get, Issue, JsonValue, JsonView};
use crate::text::{byte_len, byte_prefix, bytes_prefix, decimal, is_boundary, join, padded, push_decimal, push_padded, push_str, views};
use crate::model::ProjectVersion;
use crate::text::trim;
use crate::versions::{
    cut_to_bytes, first_ten_bytes, preview_lines_of, short10, short_date_ok, state_word, version_status_badges,
    VersionBacklogPreview,
};

verus! {

/// How a span is drawn.
#[derive(Clone, Copy, PartialEq, Eq, Structural)]
pub enum Tone {
    Plain,
    /// The theme's accent colour, bold.
    Accent,
    Bold,
    /// The theme's muted colour.
    Muted,
    Underlined,
    /// The theme's active-tab colour, bold.
    Heading,
}

/// A piece of a line drawn in one tone.
pub struct Span {
    pub text: String,
    pub tone: Tone,
}

/// A line as the contracts see it: the text and tone of each span.
pub open spec fn line_view(l: Vec<Span>) -> Seq<(Seq<char>, Tone)> {
    l@.map_values(|s: Span| (s.text@, s.tone))
}

/// Lines as the contracts see them.
pub open spec fn lines_view(ls: Seq<Vec<Span>>) -> Seq<Seq<(Seq<char>, Tone)>> {
    ls.map_values(|l: Vec<Span>| line_view(l))
}

/// A line of one plain span.
pub open spec fn plain(s: Seq<char>) -> Seq<(Seq<char>, Tone)> {
    seq![(s, Tone::Plain)]
}

/// A line of one span in `tone`.
pub open spec fn toned(s: Seq<char>, tone: Tone) -> Seq<(Seq<char>, Tone)> {
    seq![(s, tone)]
}

/// An empty line.
pub open spec fn blank() -> Seq<(Seq<char>, Tone)> {
    plain(Seq::empty())
}

fn span(text: &str, tone: Tone) -> (r: Span)
    ensures
        r.text@ == text@,
        r.tone == tone,
{
    let mut t = String::new();
    push_str(&mut t, text);
    Span { text: t, tone }
}

fn one(text: &str, tone: Tone) -> (r: Vec<Span>)
    ensures
        line_view(r) == toned(text@, tone),
{
    let v = vec![span(text, tone)];
    assert(line_view(v) =~= toned(text@, tone));
    v
}

fn push_line(lines: &mut Vec<Vec<Span>>, l: Vec<Span>)
    ensures
        lines_view(final(lines)@) == lines_view(old(lines)@).push(line_view(l)),
{
    lines.push(l);
    assert(lines_view(lines@) =~= lines_view(old(lines)@).push(line_view(l)));
}

fn push_plain(lines: &mut Vec<Vec<Span>>, text: &str)
    ensures
        lines_view(final(lines)@) == lines_view(old(lines)@).push(plain(text@)),
{
    push_line(lines, one(text, Tone::Plain));
}

fn push_blank(lines: &mut Vec<Vec<Span>>)
    ensures
        lines_view(final(lines)@) == lines_view(old(lines)@).push(blank()),
{
    let l = vec![Span { text: String::new(), tone: Tone::Plain }];
    assert(line_view(l) =~= blank());
    push_line(lines, l);
}

/// The lines of a tab with nothing to list: its title in bold, a blank line
/// and the message.
pub open spec fn placeholder_of(title: Seq<char>, message: Seq<char>) -> Seq<Seq<(Seq<char>, Tone)>> {
    seq![toned(title, Tone::Bold), blank(), plain(message)]
}

/// The lines of a tab with nothing to list.
pub fn placeholder_lines(title: &str, message: &str) -> (r: Vec<Vec<Span>>)
    ensures
        lines_view(r@) == placeholder_of(title@, message@),
{
    let mut lines: Vec<Vec<Span>> = Vec::new();
    push_line(&mut lines, one(title, Tone::Bold));
    push_blank(&mut lines);
    push_plain(&mut lines, message);
    assert(lines_view(lines@) =~= placeholder_of(title@, message@));
    lines
}

/// A labelled field: the label in the muted tone, indented and padded to
/// twelve characters, then the value.
pub open spec fn field_line_of(label: Seq<char>, value: Seq<char>) -> Seq<(Seq<char>, Tone)> {
    seq![("  "@ + padded(label, 12), Tone::Muted), (value, Tone::Plain)]
}

fn field_line(label: &str, value: &str) -> (r: Vec<Span>)
    ensures
        line_view(r) == field_line_of(label@, value@),
{
    let mut l = String::new();
    push_str(&mut l, "  ");
    push_padded(&mut l, label, 12);
    let v = vec![Span { text: l, tone: Tone::Muted }, span(value, Tone::Plain)];
    assert(line_view(v) =~= field_line_of(label@, value@));
    v
}

/// The lines of a text, each indented by two spaces.
pub open spec fn indented_text(t: Seq<char>) -> Seq<Seq<(Seq<char>, Tone)>> {
    text_lines(t).map_values(|l: Seq<char>| plain("  "@ + l))
}

fn push_indented_text(lines: &mut Vec<Vec<Span>>, t: &str)
    ensures
        lines_view(final(lines)@) == lines_view(old(lines)@) + indented_text(t@),
{
    let parts = lines_of(t);
    let ghost ps = views(parts@);
    let ghost start = lines_view(lines@);
    let mut i: usize = 0;
    while i < parts.len()
        invariant
            i <= parts@.len(),
            ps == views(parts@),
            ps == text_lines(t@),
            lines_view(lines@) == start + ps.take(i as int).map_values(|l: Seq<char>| plain("  "@ + l)),
        decreases parts@.len() - i,
    {
        let mut s = String::new();
        push_str(&mut s, "  ");
        push_str(&mut s, parts[i].as_str());
        push_plain(lines, s.as_str());
        i = i + 1;
        assert(ps.take(i as int).map_values(|l: Seq<char>| plain("  "@ + l)) =~= ps.take(i - 1).map_values(
            |l: Seq<char>| plain("  "@ + l),
        ).push(plain("  "@ + ps[i - 1])));
    }
    assert(ps.take(i as int) =~= ps);
}

/// The attachments tab: a placeholder when there are none; else their count,
/// a blank line and a line per attachment with its size.
pub open spec fn attachments_of(atts: Seq<AttachmentInfo>) -> Seq<Seq<(Seq<char>, Tone)>> {
    if atts.len() == 0 {
        placeholder_of("Attachments"@, "No attachments on this issue."@)
    } else {
        seq![plain(decimal(atts.len()) + " attachment(s)"@), blank()] + atts.map_values(
            |a: AttachmentInfo| plain("• "@ + a.filename@ + " ("@ + decimal(a.size as nat) + " bytes)"@),
        )
    }
}

/// The attachments tab.
pub fn attachment_lines(atts: &Vec<AttachmentInfo>) -> (r: Vec<Vec<Span>>)
    ensures
        lines_view(r@) == attachments_of(atts@),
{
    if atts.len() == 0 {
        return placeholder_lines("Attachments", "No attachments on this issue.");
    }
    let mut lines: Vec<Vec<Span>> = Vec::new();
    let mut h = String::new();
    push_decimal(&mut h, atts.len() as u64);
    push_str(&mut h, " attachment(s)");
    push_plain(&mut lines, h.as_str());
    push_blank(&mut lines);
    let ghost l0 = lines_view(lines@);
    let ghost f = |a: AttachmentInfo| plain("• "@ + a.filename@ + " ("@ + decimal(a.size as nat) + " bytes)"@);
    let mut i: usize = 0;
    while i < atts.len()
        invariant
            i <= atts@.len(),
            f == (|a: AttachmentInfo| plain("• "@ + a.filename@ + " ("@ + decimal(a.size as nat) + " bytes)"@)),
            lines_view(lines@) == l0 + atts@.take(i as int).map_values(f),
        decreases atts@.len() - i,
    {
        let mut s = String::new();
        push_str(&mut s, "• ");
        push_str(&mut s, atts[i].filename.as_str());
        push_str(&mut s, " (");
        push_decimal(&mut s, atts[i].size);
        push_str(&mut s, " bytes)");
        push_plain(&mut lines, s.as_str());
        i = i + 1;
        assert(atts@.take(i as int).map_values(f) =~= atts@.take(i - 1).map_values(f).push(f(atts@[i - 1])));
    }
    assert(atts@.take(i as int) =~= atts@);
    assert(lines_view(lines@) =~= attachments_of(atts@));
    lines
}

/// A remote link of an issue: its title and URL.
pub struct LinkInfo {
    pub title: String,
    pub url: String,
}

/// The lines of a remote link: its title in bold, its URL indented, a blank
/// line.
pub open spec fn link_block(l: LinkInfo) -> Seq<Seq<(Seq<char>, Tone)>> {
    seq![toned(l.title@, Tone::Bold), plain("  "@ + l.url@), blank()]
}

/// The blocks of several items, in order.
pub open spec fn link_blocks(ls: Seq<LinkInfo>) -> Seq<Seq<(Seq<char>, Tone)>>
    decreases ls.len(),
{
    if ls.len() == 0 {
        Seq::empty()
    } else {
        link_blocks(ls.drop_last()) + link_block(ls.last())
    }
}

/// The links tab: loading while the links are not in yet, a placeholder
/// when there are none, else their count, a blank line and each link.
pub open spec fn links_of(links: Option<Seq<LinkInfo>>) -> Seq<Seq<(Seq<char>, Tone)>> {
    match links {
        None => placeholder_of("Links"@, "Loading remote links..."@),
        Some(ls) => if ls.len() == 0 {
            placeholder_of("Links"@, "No remote links on this issue."@)
        } else {
            seq![plain(decimal(ls.len()) + " link(s)"@), blank()] + link_blocks(ls)
        },
    }
}

/// The links tab.
pub fn link_lines(links: &Option<Vec<LinkInfo>>) -> (r: Vec<Vec<Span>>)
    ensures
        lines_view(r@) == links_of(
            match links {
                Some(v) => Some(v@),
                None => None,
            },
        ),
{
    let ls = match links {
        None => return placeholder_lines("Links", "Loading remote links..."),
        Some(ls) => ls,
    };
    if ls.len() == 0 {
        return placeholder_lines("Links", "No remote links on this issue.");
    }
    let mut lines: Vec<Vec<Span>> = Vec::new();
    let mut h = String::new();
    push_decimal(&mut h, ls.len() as u64);
    push_str(&mut h, " link(s)");
    push_plain(&mut lines, h.as_str());
    push_blank(&mut lines);
    let ghost l0 = lines_view(lines@);
    let mut i: usize = 0;
    while i < ls.len()
        invariant
            i <= ls@.len(),
            lines_view(lines@) == l0 + link_blocks(ls@.take(i as int)),
        decreases ls@.len() - i,
    {
        assert(ls@.take(i + 1).drop_last() =~= ls@.take(i as int));
        assert(ls@.take(i + 1).last() == ls@[i as int]);
        let ghost before = lines_view(lines@);
        push_line(&mut lines, one(ls[i].title.as_str(), Tone::Bold));
        let mut u = String::new();
        push_str(&mut u, "  ");
        push_str(&mut u, ls[i].url.as_str());
        push_plain(&mut lines, u.as_str());
        push_blank(&mut lines);
        assert(lines_view(lines@) =~= before + link_block(ls@[i as int]));
        i = i + 1;
    }
    assert(ls@.take(i as int) =~= ls@);
    lines
}

/// The first ten bytes of a text when a character boundary lies there,
/// else the whole text (`str::get(..10)`, falling back to the text).
pub open spec fn get10(s: Seq<char>) -> Seq<char> {
    if is_boundary(s, 10) {
        bytes_prefix(s, 10)
    } else {
        s
    }
}

fn first_ten_or_all(s: &str) -> (r: String)
    ensures
        r@ == get10(s@),
{
    match byte_prefix(s, 10) {
        Some(p) => {
            proof {
                let k = choose|k: int| 0 <= k <= s@.len() && byte_len(#[trigger] s@.take(k)) == 10 && p@ == s@.take(k);
                crate::text::lemma_bytes_prefix(s@, 10, k);
            }
            p
        },
        None => {
            let mut t = String::new();
            push_str(&mut t, s);
            t
        },
    }
}

/// Who watches an issue.
pub struct WatchersView {
    pub watch_count: u64,
    pub is_watching: bool,
    /// The display names of the watchers.
    pub names: Vec<String>,
}

/// The first five watcher names joined by commas, and how many more there are.
pub open spec fn watcher_names(names: Seq<Seq<char>>) -> Seq<char> {
    join(names.take(if names.len() < 5 { names.len() as int } else { 5 }), ", "@) + if names.len() > 5 {
        " (+"@ + decimal((names.len() - 5) as nat) + " more)"@
    } else {
        Seq::empty()
    }
}

/// The watcher lines of the summary tab.
pub open spec fn watchers_of(w: WatchersView) -> Seq<Seq<(Seq<char>, Tone)>> {
    seq![
        field_line_of(
            "Watchers"@,
            decimal(w.watch_count as nat) + if w.is_watching {
                " (watching)"@
            } else {
                Seq::empty()
            },
        ),
    ] + if w.names@.len() > 0 {
        seq![plain("           "@ + watcher_names(views(w.names@)))]
    } else {
        Seq::empty()
    }
}

/// A labelled line for an optional value, or nothing.
pub open spec fn opt_field(label: Seq<char>, value: Option<String>) -> Seq<Seq<(Seq<char>, Tone)>> {
    match value {
        Some(v) => seq![field_line_of(label, v@)],
        None => Seq::empty(),
    }
}

/// The summary tab: key and summary, the issue's fields, its watchers when
/// known, and its description text, when not empty, under a heading.
pub open spec fn summary_of(i: Issue, watchers: Option<WatchersView>, description: Option<Seq<char>>) -> Seq<
    Seq<(Seq<char>, Tone)>,
> {
    seq![
        seq![(i.key@, Tone::Accent), (" — "@, Tone::Plain), (i.summary@, Tone::Bold)],
        blank(),
        field_line_of("Type"@, i.issue_type@),
        field_line_of("Status"@, i.status@),
        field_line_of("Project"@, i.project_key@),
    ] + opt_field("Priority"@, i.priority) + opt_field("Assignee"@, i.assignee) + opt_field("Reporter"@, i.reporter)
        + seq![field_line_of("Created"@, short10(i.created@)), field_line_of("Updated"@, short10(i.updated@))]
        + match watchers {
        Some(w) => watchers_of(w),
        None => Seq::empty(),
    } + match description {
        Some(t) => if t.len() > 0 {
            seq![blank(), toned("Description:"@, Tone::Underlined), blank()] + indented_text(t)
        } else {
            Seq::empty()
        },
        None => Seq::empty(),
    }
}

fn push_opt_field(lines: &mut Vec<Vec<Span>>, label: &str, value: &Option<String>)
    ensures
        lines_view(final(lines)@) == lines_view(old(lines)@) + opt_field(label@, *value),
{
    match value {
        Some(v) => push_line(lines, field_line(label, v.as_str())),
        None => {},
    }
    assert(lines_view(lines@) =~= lines_view(old(lines)@) + opt_field(label@, *value));
}

fn watcher_text(names: &Vec<String>) -> (r: String)
    ensures
        r@ == watcher_names(views(names@)),
{
    let ghost ns = views(names@);
    let n: usize = if names.len() < 5 { names.len() } else { 5 };
    let mut first: Vec<String> = Vec::new();
    let mut i: usize = 0;
    while i < n
        invariant
            i <= n,
            n <= names@.len(),
            ns == views(names@),
            views(first@) == ns.take(i as int),
        decreases n - i,
    {
        let mut t = String::new();
        push_str(&mut t, names[i].as_str());
        let ghost before = views(first@);
        first.push(t);
        assert(views(first@) =~= before.push(ns[i as int]));
        i = i + 1;
        assert(ns.take(i as int) =~= ns.take(i - 1).push(ns[i - 1]));
    }
    let mut s = crate::text::join_strings(&first, ", ");
    if names.len() > 5 {
        push_str(&mut s, " (+");
        push_decimal(&mut s, (names.len() - 5) as u64);
        push_str(&mut s, " more)");
    }
    s
}

fn push_watchers(lines: &mut Vec<Vec<Span>>, w: &WatchersView)
    ensures
        lines_view(final(lines)@) == lines_view(old(lines)@) + watchers_of(*w),
{
    let mut c = String::new();
    push_decimal(&mut c, w.watch_count);
    if w.is_watching {
        push_str(&mut c, " (watching)");
    }
    push_line(lines, field_line("Watchers", c.as_str()));
    if w.names.len() > 0 {
        let mut t = String::new();
        push_str(&mut t, "           ");
        let names = watcher_text(&w.names);
        push_str(&mut t, names.as_str());
        push_plain(lines, t.as_str());
    }
    assert(lines_view(lines@) =~= lines_view(old(lines)@) + watchers_of(*w));
}

/// The summary tab; `description` is the issue's description as plain text,
/// when it has one.
pub fn summary_lines(issue: &Issue, watchers: &Option<WatchersView>, description: &Option<String>) -> (r: Vec<Vec<Span>>)
    requires
        short_date_ok(Some(issue.created)),
        short_date_ok(Some(issue.updated)),
    ensures
        lines_view(r@) == summary_of(
            *issue,
            *watchers,
            match description {
                Some(d) => Some(d@),
                None => None,
            },
        ),
{
    let mut lines: Vec<Vec<Span>> = Vec::new();
    let head = vec![span(issue.key.as_str(), Tone::Accent), span(" — ", Tone::Plain), span(issue.summary.as_str(), Tone::Bold)];
    assert(line_view(head) =~= seq![(issue.key@, Tone::Accent), (" — "@, Tone::Plain), (issue.summary@, Tone::Bold)]);
    push_line(&mut lines, head);
    push_blank(&mut lines);
    push_line(&mut lines, field_line("Type", issue.issue_type.as_str()));
    push_line(&mut lines, field_line("Status", issue.status.as_str()));
    push_line(&mut lines, field_line("Project", issue.project_key.as_str()));
    let ghost l0 = lines_view(lines@);
    assert(l0 =~= seq![
        seq![(issue.key@, Tone::Accent), (" — "@, Tone::Plain), (issue.summary@, Tone::Bold)],
        blank(),
        field_line_of("Type"@, issue.issue_type@),
        field_line_of("Status"@, issue.status@),
        field_line_of("Project"@, issue.project_key@),
    ]);
    push_opt_field(&mut lines, "Priority", &issue.priority);
    push_opt_field(&mut lines, "Assignee", &issue.assignee);
    push_opt_field(&mut lines, "Reporter", &issue.reporter);
    let c = first_ten_bytes(issue.created.as_str());
    push_line(&mut lines, field_line("Created", c.as_str()));
    let u = first_ten_bytes(issue.updated.as_str());
    push_line(&mut lines, field_line("Updated", u.as_str()));
    let ghost l1 = lines_view(lines@);
    match watchers {
        Some(w) => push_watchers(&mut lines, w),
        None => {},
    }
    let ghost l2 = lines_view(lines@);
    match description {
        Some(t) => if t.unicode_len() > 0 {
            push_blank(&mut lines);
            push_line(&mut lines, one("Description:", Tone::Underlined));
            push_blank(&mut lines);
            push_indented_text(&mut lines, t.as_str());
        },
        None => {},
    }
    assert(l2 =~= l1 + match *watchers {
        Some(w) => watchers_of(w),
        None => Seq::empty(),
    });
    assert(lines_view(lines@) =~= summary_of(
        *issue,
        *watchers,
        match description {
            Some(d) => Some(d@),
            None => None,
        },
    ));
    lines
}

/// A comment as the comments tab shows it.
pub struct CommentView {
    pub author: Option<String>,
    pub created: String,
    pub body: Option<String>,
}

/// An optional text, or `fallback` when absent.
pub open spec fn text_or(o: Option<String>, fallback: Seq<char>) -> Seq<char> {
    match o {
        Some(s) => s@,
        None => fallback,
    }
}

/// The lines of a comment: its author and date, its body (or `(empty)`)
/// indented, a blank line.
pub open spec fn comment_block(c: CommentView) -> Seq<Seq<(Seq<char>, Tone)>> {
    seq![seq![(text_or(c.author, "Unknown"@), Tone::Accent), ("  "@ + get10(c.created@), Tone::Plain)]]
        + indented_text(text_or(c.body, "(empty)"@)) + seq![blank()]
}

/// The comments, each after a muted rule and a blank line but the first.
pub open spec fn comment_blocks(cs: Seq<CommentView>) -> Seq<Seq<(Seq<char>, Tone)>>
    decreases cs.len(),
{
    if cs.len() == 0 {
        Seq::empty()
    } else {
        comment_blocks(cs.drop_last()) + (if cs.len() > 1 {
            seq![toned(crate::issue_views::repeated('─', 48), Tone::Muted), blank()]
        } else {
            Seq::empty()
        }) + comment_block(cs.last())
    }
}

/// The comments tab: loading while the comments are not in yet, a
/// placeholder when there are none, else their count, a blank line and each
/// comment.
pub open spec fn comments_of(cs: Option<Seq<CommentView>>) -> Seq<Seq<(Seq<char>, Tone)>> {
    match cs {
        None => placeholder_of("Comments"@, "Loading comments..."@),
        Some(cs) => if cs.len() == 0 {
            placeholder_of("Comments"@, "No comments on this issue."@)
        } else {
            seq![plain(decimal(cs.len()) + " comment(s)"@), blank()] + comment_blocks(cs)
        },
    }
}

fn or_text(o: &Option<String>, fallback: &str) -> (r: String)
    ensures
        r@ == text_or(*o, fallback@),
{
    let mut s = String::new();
    match o {
        Some(t) => push_str(&mut s, t.as_str()),
        None => push_str(&mut s, fallback),
    }
    s
}

/// The comments tab.
pub fn comment_lines(comments: &Option<Vec<CommentView>>) -> (r: Vec<Vec<Span>>)
    ensures
        lines_view(r@) == comments_of(
            match comments {
                Some(v) => Some(v@),
                None => None,
            },
        ),
{
    let cs = match comments {
        None => return placeholder_lines("Comments", "Loading comments..."),
        Some(cs) => cs,
    };
    if cs.len() == 0 {
        return placeholder_lines("Comments", "No comments on this issue.");
    }
    let mut lines: Vec<Vec<Span>> = Vec::new();
    let mut h = String::new();
    push_decimal(&mut h, cs.len() as u64);
    push_str(&mut h, " comment(s)");
    push_plain(&mut lines, h.as_str());
    push_blank(&mut lines);
    let ghost l0 = lines_view(lines@);
    let mut i: usize = 0;
    while i < cs.len()
        invariant
            i <= cs@.len(),
            lines_view(lines@) == l0 + comment_blocks(cs@.take(i as int)),
        decreases cs@.len() - i,
    {
        assert(cs@.take(i + 1).drop_last() =~= cs@.take(i as int));
        assert(cs@.take(i + 1).last() == cs@[i as int]);
        let ghost before = lines_view(lines@);
        if i > 0 {
            let mut rule = String::new();
            crate::issue_views::push_repeated(&mut rule, '─', 48);
            push_line(&mut lines, one(rule.as_str(), Tone::Muted));
            push_blank(&mut lines);
        }
        let ghost mid = lines_view(lines@);
        let c = &cs[i];
        let author = or_text(&c.author, "Unknown");
        let mut when = String::new();
        push_str(&mut when, "  ");
        let d = first_ten_or_all(c.created.as_str());
        push_str(&mut when, d.as_str());
        let head = vec![Span { text: author, tone: Tone::Accent }, Span { text: when, tone: Tone::Plain }];
        assert(line_view(head) =~= seq![(text_or(c.author, "Unknown"@), Tone::Accent), ("  "@ + get10(c.created@), Tone::Plain)]);
        push_line(&mut lines, head);
        let body = or_text(&c.body, "(empty)");
        push_indented_text(&mut lines, body.as_str());
        push_blank(&mut lines);
        assert(lines_view(lines@) =~= mid + comment_block(cs@[i as int]));
        assert(mid =~= before + (if i + 1 > 1 {
            seq![toned(crate::issue_views::repeated('─', 48), Tone::Muted), blank()]
        } else {
            Seq::<Seq<(Seq<char>, Tone)>>::empty()
        }));
        i = i + 1;
    }
    assert(cs@.take(i as int) =~= cs@);
    lines
}

/// A worklog as the worklog tab shows it.
pub struct WorklogView {
    pub author: Option<String>,
    pub started: String,
    pub time_spent: String,
    pub comment: Option<String>,
}

/// The lines of a worklog: author, time spent and date, its comment
/// indented when it has one, a blank line.
pub open spec fn worklog_block(w: WorklogView) -> Seq<Seq<(Seq<char>, Tone)>> {
    seq![
        seq![
            (text_or(w.author, "Unknown"@), Tone::Accent),
            ("  "@ + w.time_spent@ + "  "@ + get10(w.started@), Tone::Plain),
        ],
    ] + match w.comment {
        Some(c) => indented_text(c@),
        None => Seq::empty(),
    } + seq![blank()]
}

/// The blocks of several worklogs, in order.
pub open spec fn worklog_blocks(ws: Seq<WorklogView>) -> Seq<Seq<(Seq<char>, Tone)>>
    decreases ws.len(),
{
    if ws.len() == 0 {
        Seq::empty()
    } else {
        worklog_blocks(ws.drop_last()) + worklog_block(ws.last())
    }
}

/// The worklog tab: loading while the worklogs are not in yet, a placeholder
/// when there are none, else their count, a blank line and each worklog.
pub open spec fn worklogs_of(ws: Option<Seq<WorklogView>>) -> Seq<Seq<(Seq<char>, Tone)>> {
    match ws {
        None => placeholder_of("Worklog"@, "Loading worklogs..."@),
        Some(ws) => if ws.len() == 0 {
            placeholder_of("Worklog"@, "No worklogs on this issue."@)
        } else {
            seq![plain(decimal(ws.len()) + " worklog entr(y/ies)"@), blank()] + worklog_blocks(ws)
        },
    }
}

/// The worklog tab.
pub fn worklog_lines(worklogs: &Option<Vec<WorklogView>>) -> (r: Vec<Vec<Span>>)
    ensures
        lines_view(r@) == worklogs_of(
            match worklogs {
                Some(v) => Some(v@),
                None => None,
            },
        ),
{
    let ws = match worklogs {
        None => return placeholder_lines("Worklog", "Loading worklogs..."),
        Some(ws) => ws,
    };
    if ws.len() == 0 {
        return placeholder_lines("Worklog", "No worklogs on this issue.");
    }
    let mut lines: Vec<Vec<Span>> = Vec::new();
    let mut h = String::new();
    push_decimal(&mut h, ws.len() as u64);
    push_str(&mut h, " worklog entr(y/ies)");
    push_plain(&mut lines, h.as_str());
    push_blank(&mut lines);
    let ghost l0 = lines_view(lines@);
    let mut i: usize = 0;
    while i < ws.len()
        invariant
            i <= ws@.len(),
            lines_view(lines@) == l0 + worklog_blocks(ws@.take(i as int)),
        decreases ws@.len() - i,
    {
        assert(ws@.take(i + 1).drop_last() =~= ws@.take(i as int));
        assert(ws@.take(i + 1).last() == ws@[i as int]);
        let ghost before = lines_view(lines@);
        let w = &ws[i];
        let author = or_text(&w.author, "Unknown");
        let mut t = String::new();
        push_str(&mut t, "  ");
        push_str(&mut t, w.time_spent.as_str());
        push_str(&mut t, "  ");
        let d = first_ten_or_all(w.started.as_str());
        push_str(&mut t, d.as_str());
        let head = vec![Span { text: author, tone: Tone::Accent }, Span { text: t, tone: Tone::Plain }];
        assert(line_view(head) =~= seq![
            (text_or(w.author, "Unknown"@), Tone::Accent),
            ("  "@ + w.time_spent@ + "  "@ + get10(w.started@), Tone::Plain),
        ]);
        push_line(&mut lines, head);
        match &w.comment {
            Some(c) => push_indented_text(&mut lines, c.as_str()),
            None => {},
        }
        push_blank(&mut lines);
        assert(lines_view(lines@) =~= before + worklog_block(ws@[i as int]));
        i = i + 1;
    }
    assert(ws@.take(i as int) =~= ws@);
    lines
}

/// A text member of an optional JSON value.
pub open spec fn opt_str_member(v: Option<JsonView>, key: Seq<char>) -> Option<Seq<char>> {
    match v {
        Some(o) => str_member(o, key),
        None => None,
    }
}

/// The line of a subtask: its key, status and summary, with stand-ins for
/// what it lacks.
pub open spec fn subtask_line(s: JsonView) -> Seq<char> {
    let f = json_get(s, "fields"@);
    let key = match str_member(s, "key"@) {
        Some(k) => k,
        None => "?"@,
    };
    let summary = match opt_str_member(f, "summary"@) {
        Some(t) => t,
        None => "(no summary)"@,
    };
    let status = match f {
        Some(fv) => opt_str_member(json_get(fv, "status"@), "name"@),
        None => None,
    };
    "• "@ + key + "  ["@ + match status {
        Some(t) => t,
        None => "Unknown"@,
    } + "]  "@ + summary
}

/// The subtasks listed in an issue's fields: the items of `subtasks` when it
/// is an array.
pub open spec fn subtasks_in(fields: JsonView) -> Seq<JsonView> {
    match json_get(fields, "subtasks"@) {
        Some(JsonView::Array(items)) => items,
        _ => Seq::empty(),
    }
}

/// The subtasks tab: a placeholder when there are none, else their count, a
/// blank line and a line per subtask.
pub open spec fn subtasks_of(fields: JsonView) -> Seq<Seq<(Seq<char>, Tone)>> {
    let items = subtasks_in(fields);
    if items.len() == 0 {
        placeholder_of("Subtasks"@, "No subtasks found."@)
    } else {
        seq![plain(decimal(items.len()) + " subtask(s)"@), blank()] + items.map_values(
            |s: JsonView| plain(subtask_line(s)),
        )
    }
}

fn str_of(v: Option<&JsonValue>, key: &str, fallback: &str) -> (r: String)
    ensures
        r@ == match opt_str_member(
            match v {
                Some(x) => Some(x.deep()),
                None => None,
            },
            key@,
        ) {
            Some(t) => t,
            None => fallback@,
        },
{
    match v {
        Some(x) => crate::manifest::member_str_or(x, key, fallback),
        None => {
            let mut t = String::new();
            push_str(&mut t, fallback);
            t
        },
    }
}

/// The subtasks tab.
pub fn subtask_lines(fields: &JsonValue) -> (r: Vec<Vec<Span>>)
    ensures
        lines_view(r@) == subtasks_of(fields.deep()),
{
    let empty: Vec<JsonValue> = Vec::new();
    let items: &Vec<JsonValue> = match fields.get("subtasks") {
        Some(v) => match v.as_array() {
            Some(a) => a,
            None => &empty,
        },
        None => &empty,
    };
    let ghost iv = items@.map_values(|x: JsonValue| x.deep());
    assert(iv =~= subtasks_in(fields.deep()));
    if items.len() == 0 {
        return placeholder_lines("Subtasks", "No subtasks found.");
    }
    let mut lines: Vec<Vec<Span>> = Vec::new();
    let mut h = String::new();
    push_decimal(&mut h, items.len() as u64);
    push_str(&mut h, " subtask(s)");
    push_plain(&mut lines, h.as_str());
    push_blank(&mut lines);
    let ghost l0 = lines_view(lines@);
    let mut i: usize = 0;
    while i < items.len()
        invariant
            i <= items@.len(),
            iv == items@.map_values(|x: JsonValue| x.deep()),
            lines_view(lines@) == l0 + iv.take(i as int).map_values(|s: JsonView| plain(subtask_line(s))),
        decreases items@.len() - i,
    {
        let s = &items[i];
        let f = s.get("fields");
        let key = str_of(Some(s), "key", "?");
        let summary = str_of(f, "summary", "(no summary)");
        let status_obj = match f {
            Some(fv) => fv.get("status"),
            None => None,
        };
        let status = str_of(status_obj, "name", "Unknown");
        let mut t = String::new();
        push_str(&mut t, "• ");
        push_str(&mut t, key.as_str());
        push_str(&mut t, "  [");
        push_str(&mut t, status.as_str());
        push_str(&mut t, "]  ");
        push_str(&mut t, summary.as_str());
        assert(t@ == subtask_line(iv[i as int]));
        push_plain(&mut lines, t.as_str());
        i = i + 1;
        assert(iv.take(i as int).map_values(|s: JsonView| plain(subtask_line(s))) =~= iv.take(i - 1).map_values(
            |s: JsonView| plain(subtask_line(s)),
        ).push(plain(subtask_line(iv[i - 1]))));
    }
    assert(iv.take(i as int) =~= iv);
    assert(lines_view(lines@) =~= subtasks_of(fields.deep()));
    lines
}

/// The line of a fix version on the versions tab: its name, then its release
/// date when it has one.
pub open spec fn fix_version_line(v: JsonView) -> Seq<char> {
    let name = match str_member(v, "name"@) {
        Some(n) => n,
        None => "?"@,
    };
    "• "@ + name + match str_member(v, "releaseDate"@) {
        Some(d) => "  (release "@ + d + ")"@,
        None => Seq::empty(),
    }
}

/// The fix versions listed in an issue's fields: the items of `fixVersions`
/// when it is an array.
pub open spec fn fix_versions_in(fields: JsonView) -> Seq<JsonView> {
    match json_get(fields, "fixVersions"@) {
        Some(JsonView::Array(items)) => items,
        _ => Seq::empty(),
    }
}

/// The versions tab: a placeholder when the issue has no fix version, else
/// their count, a blank line and a line per version.
pub open spec fn versions_of(fields: JsonView) -> Seq<Seq<(Seq<char>, Tone)>> {
    let items = fix_versions_in(fields);
    if items.len() == 0 {
        placeholder_of("Versions"@, "No fix versions set."@)
    } else {
        seq![plain(decimal(items.len()) + " fix version(s)"@), blank()] + items.map_values(
            |v: JsonView| plain(fix_version_line(v)),
        )
    }
}

/// The versions tab.
pub fn fix_version_lines(fields: &JsonValue) -> (r: Vec<Vec<Span>>)
    ensures
        lines_view(r@) == versions_of(fields.deep()),
{
    let empty: Vec<JsonValue> = Vec::new();
    let items: &Vec<JsonValue> = match fields.get("fixVersions") {
        Some(v) => match v.as_array() {
            Some(a) => a,
            None => &empty,
        },
        None => &empty,
    };
    let ghost iv = items@.map_values(|x: JsonValue| x.deep());
    assert(iv =~= fix_versions_in(fields.deep()));
    if items.len() == 0 {
        return placeholder_lines("Versions", "No fix versions set.");
    }
    let mut lines: Vec<Vec<Span>> = Vec::new();
    let mut h = String::new();
    push_decimal(&mut h, items.len() as u64);
    push_str(&mut h, " fix version(s)");
    push_plain(&mut lines, h.as_str());
    push_blank(&mut lines);
    let ghost l0 = lines_view(lines@);
    let mut i: usize = 0;
    while i < items.len()
        invariant
            i <= items@.len(),
            iv == items@.map_values(|x: JsonValue| x.deep()),
            lines_view(lines@) == l0 + iv.take(i as int).map_values(|v: JsonView| plain(fix_version_line(v))),
        decreases items@.len() - i,
    {
        let v = &items[i];
        let name = str_of(Some(v), "name", "?");
        let mut t = String::new();
        push_str(&mut t, "• ");
        push_str(&mut t, name.as_str());
        match crate::manifest::member_str(v, "releaseDate") {
            Some(d) => {
                push_str(&mut t, "  (release ");
                push_str(&mut t, d.as_str());
                push_str(&mut t, ")");
            },
            None => {},
        }
        assert(t@ == fix_version_line(iv[i as int]));
        push_plain(&mut lines, t.as_str());
        i = i + 1;
        assert(iv.take(i as int).map_values(|v: JsonView| plain(fix_version_line(v))) =~= iv.take(i - 1).map_values(
            |v: JsonView| plain(fix_version_line(v)),
        ).push(plain(fix_version_line(iv[i - 1]))));
    }
    assert(iv.take(i as int) =~= iv);
    assert(lines_view(lines@) =~= versions_of(fields.deep()));
    lines
}

/// The head of the fix-version browser's preview pane: the version's name,
/// badges, description when not blank, and dates.
pub open spec fn version_head_of(v: ProjectVersion) -> Seq<Seq<(Seq<char>, Tone)>> {
    seq![toned(v.name@, Tone::Heading), plain(badges_of(v))] + match v.description {
        Some(d) => if trim(d@).len() > 0 {
            seq![blank(), plain(trim(d@))]
        } else {
            Seq::empty()
        },
        None => Seq::empty(),
    } + seq![blank(), toned("Metadata:"@, Tone::Underlined)] + match v.start_date {
        Some(d) => seq![plain("  Start: "@ + short10(d@))],
        None => Seq::empty(),
    } + match v.release_date {
        Some(d) => seq![plain("  Release: "@ + short10(d@))],
        None => Seq::empty(),
    }
}

/// The tail of the preview pane: the keys to press, then the backlog
/// preview once it is loaded for that version.
pub open spec fn version_tail_of(v: ProjectVersion, preview: Option<VersionBacklogPreview>) -> Seq<
    Seq<(Seq<char>, Tone)>,
> {
    seq![
        plain("  Press e to edit, n to create a version"@),
        blank(),
        toned("Open backlog:"@, Tone::Underlined),
        blank(),
    ] + match preview {
        Some(p) => if p.version.name@ == v.name@ {
            preview_lines_of(p, 25).map_values(|l: Seq<char>| plain(l))
        } else {
            seq![plain("Loading backlog preview..."@)]
        },
        None => seq![plain("Loading backlog preview..."@)],
    }
}

/// The preview pane of the fix-version browser for the selected version; a
/// prompt when no version is selected.
pub open spec fn version_pane_of(v: Option<ProjectVersion>, preview: Option<VersionBacklogPreview>) -> Seq<
    Seq<(Seq<char>, Tone)>,
> {
    match v {
        None => seq![plain("Select a fix version to preview its backlog."@)],
        Some(v) => version_head_of(v) + version_tail_of(v, preview),
    }
}

/// The badges of a version: its release state, and its release date cut to
/// ten bytes when it has one.
pub open spec fn badges_of(v: ProjectVersion) -> Seq<char> {
    match v.release_date {
        Some(d) => state_word(v) + " • release "@ + short10(d@),
        None => state_word(v),
    }
}

fn push_short_date(lines: &mut Vec<Vec<Span>>, label: &str, d: &Option<String>)
    requires
        short_date_ok(*d),
    ensures
        lines_view(final(lines)@) == lines_view(old(lines)@) + match *d {
            Some(x) => seq![plain(label@ + short10(x@))],
            None => Seq::<Seq<(Seq<char>, Tone)>>::empty(),
        },
{
    match d {
        Some(x) => {
            let c = first_ten_bytes(x.as_str());
            let mut t = String::new();
            push_str(&mut t, label);
            push_str(&mut t, c.as_str());
            push_plain(lines, t.as_str());
        },
        None => {},
    }
    assert(lines_view(lines@) =~= lines_view(old(lines)@) + match *d {
        Some(x) => seq![plain(label@ + short10(x@))],
        None => Seq::<Seq<(Seq<char>, Tone)>>::empty(),
    });
}

fn push_version_head(lines: &mut Vec<Vec<Span>>, v: &ProjectVersion)
    requires
        short_date_ok(v.release_date),
        short_date_ok(v.start_date),
    ensures
        lines_view(final(lines)@) == lines_view(old(lines)@) + version_head_of(*v),
{
    let ghost start = lines_view(lines@);
    push_line(lines, one(v.name.as_str(), Tone::Heading));
    let b = version_status_badges(v);
    proof {
        if v.release_date is Some {
            let d = v.release_date->0;
            let short = choose|short: Seq<char>| cut_to_bytes(d@, 10, short) && b@ == state_word(*v) + " • release "@ + short;
            crate::versions::lemma_short10(d@, short);
        }
    }
    assert(b@ == badges_of(*v));
    push_plain(lines, b.as_str());
    let ghost l0 = lines_view(lines@);
    match &v.description {
        Some(d) => {
            let t = crate::text::trim_str(d.as_str());
            if t.unicode_len() > 0 {
                push_blank(lines);
                push_plain(lines, t.as_str());
            }
        },
        None => {},
    }
    assert(lines_view(lines@) =~= l0 + match v.description {
        Some(d) => if trim(d@).len() > 0 {
            seq![blank(), plain(trim(d@))]
        } else {
            Seq::<Seq<(Seq<char>, Tone)>>::empty()
        },
        None => Seq::<Seq<(Seq<char>, Tone)>>::empty(),
    });
    push_blank(lines);
    push_line(lines, one("Metadata:", Tone::Underlined));
    push_short_date(lines, "  Start: ", &v.start_date);
    push_short_date(lines, "  Release: ", &v.release_date);
    assert(lines_view(lines@) =~= start + version_head_of(*v));
}

fn push_version_tail(lines: &mut Vec<Vec<Span>>, v: &ProjectVersion, preview: Option<&VersionBacklogPreview>)
    ensures
        lines_view(final(lines)@) == lines_view(old(lines)@) + version_tail_of(
            *v,
            match preview {
                Some(p) => Some(*p),
                None => None,
            },
        ),
{
    let ghost start = lines_view(lines@);
    push_plain(lines, "  Press e to edit, n to create a version");
    push_blank(lines);
    push_line(lines, one("Open backlog:", Tone::Underlined));
    push_blank(lines);
    let ghost l3 = lines_view(lines@);
    let mut shown = false;
    match preview {
        Some(p) => {
            if crate::text::str_eq(p.version.name.as_str(), v.name.as_str()) {
                let pl = crate::versions::backlog_preview_lines(p, 25);
                let ghost pv = views(pl@);
                let mut i: usize = 0;
                while i < pl.len()
                    invariant
                        i <= pl@.len(),
                        pv == views(pl@),
                        lines_view(lines@) == l3 + pv.take(i as int).map_values(|l: Seq<char>| plain(l)),
                    decreases pl@.len() - i,
                {
                    push_plain(lines, pl[i].as_str());
                    i = i + 1;
                    assert(pv.take(i as int).map_values(|l: Seq<char>| plain(l)) =~= pv.take(i - 1).map_values(
                        |l: Seq<char>| plain(l),
                    ).push(plain(pv[i - 1])));
                }
                assert(pv.take(i as int) =~= pv);
                shown = true;
            }
        },
        None => {},
    }
    if !shown {
        push_plain(lines, "Loading backlog preview...");
    }
    assert(lines_view(lines@) =~= start + version_tail_of(
        *v,
        match preview {
            Some(p) => Some(*p),
            None => None,
        },
    ));
}

/// The preview pane of the fix-version browser.
pub fn version_pane_lines(version: Option<&ProjectVersion>, preview: Option<&VersionBacklogPreview>) -> (r: Vec<Vec<Span>>)
    requires
        version matches Some(v) ==> short_date_ok(v.release_date) && short_date_ok(v.start_date),
    ensures
        lines_view(r@) == version_pane_of(
            match version {
                Some(v) => Some(*v),
                None => None,
            },
            match preview {
                Some(p) => Some(*p),
                None => None,
            },
        ),
{
    let mut lines: Vec<Vec<Span>> = Vec::new();
    match version {
        None => {
            push_plain(&mut lines, "Select a fix version to preview its backlog.");
            assert(lines_view(lines@) =~= seq![plain("Select a fix version to preview its backlog."@)]);
        },
        Some(v) => {
            push_version_head(&mut lines, v);
            push_version_tail(&mut lines, v, preview);
            assert(lines_view(lines@) =~= version_head_of(*v) + version_tail_of(
                *v,
                match preview {
                    Some(p) => Some(*p),
                    None => None,
                },
            ));
        },
    }
    lines
}

/// The title of the fix-version browser's search box.
pub fn version_browser_title(project_key: &str) -> (r: String)
    ensures
        r@ == " Fix Versions — "@ + (if project_key@.len() == 0 {
            "project"@
        } else {
            project_key@
        }) + " "@,
{
    let mut s = String::new();
    push_str(&mut s, " Fix Versions — ");
    if project_key.unicode_len() == 0 {
        push_str(&mut s, "project");
    } else {
        push_str(&mut s, project_key);
    }
    push_str(&mut s, " ");
    s
}

/// The entries of the fix-version browser's list: each version's label, or a
/// note when there is none.
pub fn version_list_items(options: &Vec<crate::tui_modal::PickerOption>) -> (r: Vec<String>)
    ensures
        options@.len() == 0 ==> views(r@) == seq!["No fix versions"@],
        options@.len() > 0 ==> views(r@) == options@.map_values(|o: crate::tui_modal::PickerOption| o.label@),
{
    let mut out: Vec<String> = Vec::new();
    if options.len() == 0 {
        let mut t = String::new();
        push_str(&mut t, "No fix versions");
        out.push(t);
        assert(views(out@) =~= seq!["No fix versions"@]);
        return out;
    }
    let mut i: usize = 0;
    while i < options.len()
        invariant
            i <= options@.len(),
            views(out@) == options@.take(i as int).map_values(|o: crate::tui_modal::PickerOption| o.label@),
        decreases options@.len() - i,
    {
        let mut t = String::new();
        push_str(&mut t, options[i].label.as_str());
        let ghost before = views(out@);
        out.push(t);
        assert(views(out@) =~= before.push(options@[i as int].label@));
        i = i + 1;
        assert(options@.take(i as int).map_values(|o: crate::tui_modal::PickerOption| o.label@) =~= options@.take(
            i - 1,
        ).map_values(|o: crate::tui_modal::PickerOption| o.label@).push(options@[i - 1].label@));
    }
    assert(options@.take(i as int) =~= options@);
    out
}

} // verus!

//! Mention notifications: the JQL that finds candidate issues, entry ids and
//! excerpts, read-state bookkeeping and the per-issue grouping shown in the TUI.
use vstd::prelude::*;

use crate::model::{Issue, same_issue_but_summary};
use crate::text::{
    sorted_unique, strictly_sorted, decimal, join, join_strings, non_empty, push_decimal, push_str, split_non_empty, split_on,
    str_eq, trim, trim_str, views, words, Separator, sep_pred, is_ws,
};

verus! {

/// A mention of the current user found on an issue.
pub struct NotificationEntry {
    pub id: String,
    pub issue: Issue,
    /// `description-mention` or `comment-mention`.
    pub source: String,
    pub author: Option<String>,
    /// When the mention was made (RFC 3339).
    pub created: String,
    pub excerpt: String,
    pub url: String,
    pub read: bool,
}

/// The result of a notification scan.
pub struct NotificationScan {
    pub entries: Vec<NotificationEntry>,
    pub scanned_issues: usize,
    pub comment_errors: usize,
    pub jql: String,
}

/// The JQL that lists the issues updated within `since` (a relative window such
/// as `7d`), newest first, restricted to `project` when one is given.
pub open spec fn notifications_jql(project: Option<Seq<char>>, since: Seq<char>) -> Seq<char> {
    match project {
        Some(p) => "project = "@ + p + " AND updated >= -"@ + trim(since)
            + " ORDER BY updated DESC"@,
        None => "updated >= -"@ + trim(since) + " ORDER BY updated DESC"@,
    }
}

/// The JQL for a notification scan.
pub fn build_notifications_jql(project: Option<&str>, since: &str) -> (r: String)
    ensures
        r@ == notifications_jql(
            match project {
                Some(p) => Some(p@),
                None => None,
            },
            since@,
        ),
{
    let since = trim_str(since);
    let mut s = String::new();
    match project {
        Some(p) => {
            push_str(&mut s, "project = ");
            push_str(&mut s, p);
            push_str(&mut s, " AND updated >= -");
        },
        None => {
            push_str(&mut s, "updated >= -");
        },
    }
    push_str(&mut s, since.as_str());
    push_str(&mut s, " ORDER BY updated DESC");
    s
}

/// The id of a mention: issue key, source and creation time, `|`-separated.
pub open spec fn entry_id(issue_key: Seq<char>, source: Seq<char>, created: Seq<char>) -> Seq<
    char,
> {
    issue_key + "|"@ + source + "|"@ + created
}

/// The id of a mention, stable across scans of the same source.
pub fn notification_entry_id(issue_key: &str, source: &str, created: &str) -> (r: String)
    ensures
        r@ == entry_id(issue_key@, source@, created@),
{
    let mut s = String::new();
    push_str(&mut s, issue_key);
    push_str(&mut s, "|");
    push_str(&mut s, source);
    push_str(&mut s, "|");
    push_str(&mut s, created);
    s
}

/// The preview of a mention: its words separated by single spaces, or
/// `(no preview)` when it has none.
pub open spec fn excerpt_text(raw: Seq<char>) -> Seq<char> {
    let w = words(raw);
    if join(w, " "@).len() == 0 {
        "(no preview)"@
    } else {
        join(w, " "@)
    }
}

/// The one-line preview of a mention's text.
pub fn notification_excerpt(raw: &str) -> (r: String)
    ensures
        r@ == excerpt_text(raw@),
{
    let parts = split_non_empty(raw, &Separator::Whitespace);
    assert(sep_pred(Separator::Whitespace) =~= (|c: char| is_ws(c)));
    let joined = join_strings(&parts, " ");
    if joined.unicode_len() == 0 {
        String::from_str("(no preview)")
    } else {
        joined
    }
}


/// The words of a text are non-empty and hold no whitespace.
proof fn lemma_words_clean(raw: Seq<char>)
    ensures
        forall|i: int| 0 <= i < words(raw).len() ==> #[trigger] words(raw)[i].len() > 0,
        forall|i: int, k: int|
            0 <= i < words(raw).len() && 0 <= k < words(raw)[i].len() ==> !is_ws(
                #[trigger] words(raw)[i][k],
            ),
{
    let sep = |c: char| is_ws(c);
    let ps = split_on(raw, sep);
    crate::text::lemma_split_pieces_clean(raw, sep);
    crate::text::lemma_non_empty_pieces(ps);
    assert forall|i: int, k: int| 0 <= i < words(raw).len() && 0 <= k < words(raw)[i].len() implies !is_ws(
        #[trigger] words(raw)[i][k],
    ) by {
        let j = choose|j: int| 0 <= j < ps.len() && ps[j] == non_empty(ps)[i];
        assert(!sep(ps[j][k]));
    }
}

/// A preview is its own preview: it is never empty, and taking the preview of
/// a preview changes nothing.
pub proof fn law_excerpt_idempotent(raw: Seq<char>)
    ensures
        excerpt_text(raw).len() > 0,
        excerpt_text(excerpt_text(raw)) == excerpt_text(raw),
{
    reveal_strlit("(no preview)");
    reveal_strlit("(no");
    reveal_strlit("preview)");
    reveal_strlit(" ");
    let w = words(raw);
    if join(w, " "@).len() == 0 {
        let v = seq!["(no"@, "preview)"@];
        assert(join(v, " "@) =~= "(no preview)"@) by {
            assert(join(v.drop_last(), " "@) == "(no"@);
        }
        assert forall|i: int, k: int| 0 <= i < v.len() && 0 <= k < v[i].len() implies !is_ws(
            #[trigger] v[i][k],
        ) by {
            if i == 0 {
                assert(v[0] == "(no"@);
            } else {
                assert(v[1] == "preview)"@);
            }
        }
        crate::text::lemma_words_of_join(v);
    } else {
        lemma_words_clean(raw);
        crate::text::lemma_words_of_join(w);
    }
}

/// The instant an RFC 3339 timestamp denotes, in UTC, as (seconds since the
/// Unix epoch, nanoseconds), if the text is a valid RFC 3339 timestamp.
pub uninterp spec fn rfc3339_instant(s: Seq<char>) -> Option<(i64, u32)>;

/// `DateTime::parse_from_rfc3339(s)` converted to UTC, as its Unix timestamp
/// and sub-second nanoseconds.
#[verifier::external_body]
fn rfc3339_stamp(s: &str) -> (r: Option<(i64, u32)>)
    ensures
        r == rfc3339_instant(s@),
{
    chrono::DateTime::parse_from_rfc3339(s).ok().map(|dt| dt.with_timezone(&chrono::Utc)).map(|u| (u.timestamp(), u.timestamp_subsec_nanos()))
}

/// A Jira timestamp as a UTC instant: (Unix seconds, nanoseconds).
pub fn parse_jira_datetime(value: &str) -> (r: Option<(i64, u32)>)
    ensures
        r == rfc3339_instant(value@),
{
    rfc3339_stamp(value)
}

/// `a` is a later instant than `b`; a missing instant is earlier than any other.
pub open spec fn stamp_after(a: Option<(i64, u32)>, b: Option<(i64, u32)>) -> bool {
    match (a, b) {
        (Some(x), Some(y)) => x.0 > y.0 || (x.0 == y.0 && x.1 > y.1),
        (Some(_), None) => true,
        _ => false,
    }
}

/// Whether instant `a` is later than instant `b`.
pub fn is_after(a: Option<(i64, u32)>, b: Option<(i64, u32)>) -> (r: bool)
    ensures
        r == stamp_after(a, b),
{
    match (a, b) {
        (Some(x), Some(y)) => x.0 > y.0 || (x.0 == y.0 && x.1 > y.1),
        (Some(_), None) => true,
        _ => false,
    }
}

/// The issue key of a mention.
pub open spec fn entry_key(e: NotificationEntry) -> Seq<char> {
    e.issue.key@
}

/// The instant of a mention.
pub open spec fn entry_stamp(e: NotificationEntry) -> Option<(i64, u32)> {
    rfc3339_instant(e.created@)
}

/// The distinct issue keys of the mentions, in order of first appearance.
pub open spec fn group_keys(es: Seq<NotificationEntry>) -> Seq<Seq<char>>
    decreases es.len(),
{
    if es.len() == 0 {
        Seq::empty()
    } else {
        let p = group_keys(es.drop_last());
        if p.contains(entry_key(es.last())) {
            p
        } else {
            p.push(entry_key(es.last()))
        }
    }
}

/// How many mentions concern the issue with key `k`.
pub open spec fn group_total(es: Seq<NotificationEntry>, k: Seq<char>) -> nat
    decreases es.len(),
{
    if es.len() == 0 {
        0
    } else {
        group_total(es.drop_last(), k) + if entry_key(es.last()) == k {
            1nat
        } else {
            0nat
        }
    }
}

/// How many unread mentions concern the issue with key `k`.
pub open spec fn group_unread(es: Seq<NotificationEntry>, k: Seq<char>) -> nat
    decreases es.len(),
{
    if es.len() == 0 {
        0
    } else {
        group_unread(es.drop_last(), k) + if entry_key(es.last()) == k && !es.last().read {
            1nat
        } else {
            0nat
        }
    }
}

/// The latest instant of the mentions of the issue with key `k`.
pub open spec fn group_latest(es: Seq<NotificationEntry>, k: Seq<char>) -> Option<(i64, u32)>
    decreases es.len(),
{
    if es.len() == 0 {
        None
    } else {
        let p = group_latest(es.drop_last(), k);
        if entry_key(es.last()) == k && stamp_after(entry_stamp(es.last()), p) {
            entry_stamp(es.last())
        } else {
            p
        }
    }
}

/// The index of the first mention of the issue with key `k`.
pub open spec fn group_first(es: Seq<NotificationEntry>, k: Seq<char>) -> int
    decreases es.len(),
{
    if es.len() == 0 {
        -1
    } else if group_keys(es.drop_last()).contains(k) {
        group_first(es.drop_last(), k)
    } else if entry_key(es.last()) == k {
        es.len() - 1
    } else {
        -1
    }
}

/// The summary shown for an issue with `total` mentions of which `unread` are unread.
pub open spec fn mention_label(total: nat, unread: nat, summary: Seq<char>) -> Seq<char> {
    if unread == 0 {
        "[read] "@ + summary
    } else if unread == total && total == 1 {
        "[mention] "@ + summary
    } else if unread == total {
        "["@ + decimal(total) + " mentions] "@ + summary
    } else {
        "["@ + decimal(unread) + " unread/"@ + decimal(total) + " mentions] "@ + summary
    }
}

/// The mentions of one issue, gathered.
#[derive(Clone, Copy)]
pub struct MentionGroup {
    /// Index of the issue's first mention.
    pub first: usize,
    pub total: usize,
    pub unread: usize,
    pub latest: Option<(i64, u32)>,
}

/// `g` gathers exactly the mentions in `es` of the issue with key `k`.
pub open spec fn group_of(es: Seq<NotificationEntry>, k: Seq<char>, g: MentionGroup) -> bool {
    &&& g.first == group_first(es, k)
    &&& 0 <= g.first < es.len()
    &&& entry_key(es[g.first as int]) == k
    &&& g.total == group_total(es, k)
    &&& g.unread == group_unread(es, k)
    &&& g.latest == group_latest(es, k)
}

proof fn lemma_group_first_key(es: Seq<NotificationEntry>, k: Seq<char>)
    requires
        group_keys(es).contains(k),
    ensures
        0 <= group_first(es, k) < es.len(),
        entry_key(es[group_first(es, k)]) == k,
        group_total(es, k) >= 1,
        group_total(es, k) <= es.len(),
        group_unread(es, k) <= group_total(es, k),
    decreases es.len(),
{
    let p = es.drop_last();
    if group_keys(p).contains(k) {
        lemma_group_first_key(p, k);
    } else {
        lemma_group_counts_zero(p, k);
    }
    lemma_group_total_bound(es, k);
}

proof fn lemma_group_total_bound(es: Seq<NotificationEntry>, k: Seq<char>)
    ensures
        group_total(es, k) <= es.len(),
        group_unread(es, k) <= group_total(es, k),
    decreases es.len(),
{
    if es.len() > 0 {
        lemma_group_total_bound(es.drop_last(), k);
    }
}

proof fn lemma_group_keys_contains(es: Seq<NotificationEntry>, k: Seq<char>)
    ensures
        group_keys(es).contains(k) <==> exists|i: int| 0 <= i < es.len() && entry_key(es[i]) == k,
    decreases es.len(),
{
    if es.len() > 0 {
        let p = es.drop_last();
        lemma_group_keys_contains(p, k);
        let gp = group_keys(p);
        let ge = group_keys(es);
        if gp.contains(k) {
            let i = choose|i: int| 0 <= i < gp.len() && gp[i] == k;
            assert(ge[i] == k);
            let w = choose|w: int| 0 <= w < p.len() && entry_key(p[w]) == k;
            assert(es[w] == p[w]);
        } else if entry_key(es.last()) == k {
            assert(ge[ge.len() - 1] == k);
        } else {
            if ge.contains(k) {
                let i = choose|i: int| 0 <= i < ge.len() && ge[i] == k;
                assert(gp[i] == k);
            }
            if exists|i: int| 0 <= i < es.len() && entry_key(es[i]) == k {
                let w = choose|w: int| 0 <= w < es.len() && entry_key(es[w]) == k;
                assert(p[w] == es[w]);
            }
        }
    }
}

proof fn lemma_group_counts_zero(es: Seq<NotificationEntry>, k: Seq<char>)
    requires
        !group_keys(es).contains(k),
    ensures
        group_total(es, k) == 0,
        group_unread(es, k) == 0,
        group_latest(es, k) is None,
    decreases es.len(),
{
    if es.len() > 0 {
        let p = es.drop_last();
        lemma_group_keys_contains(es, k);
        lemma_group_keys_contains(p, k);
        if exists|i: int| 0 <= i < p.len() && entry_key(p[i]) == k {
            let w = choose|w: int| 0 <= w < p.len() && entry_key(p[w]) == k;
            assert(es[w] == p[w]);
        }
        assert(entry_key(es[es.len() - 1]) != k);
        lemma_group_counts_zero(p, k);
    }
}

proof fn lemma_group_keys_distinct(es: Seq<NotificationEntry>)
    ensures
        forall|i: int, j: int|
            0 <= i < j < group_keys(es).len() ==> group_keys(es)[i] != group_keys(es)[j],
    decreases es.len(),
{
    if es.len() > 0 {
        let p = es.drop_last();
        lemma_group_keys_distinct(p);
        let gp = group_keys(p);
        let ge = group_keys(es);
        assert forall|i: int, j: int| 0 <= i < j < ge.len() implies ge[i] != ge[j] by {
            if j == gp.len() {
                assert(ge[j] == entry_key(es.last()));
                assert(!gp.contains(entry_key(es.last())));
                assert(ge[i] == gp[i]);
            } else {
                assert(ge[i] == gp[i] && ge[j] == gp[j]);
            }
        }
    }
}

/// The mentions gathered per issue, in order of each issue's first mention.
pub fn group_mentions(entries: &[NotificationEntry]) -> (r: Vec<MentionGroup>)
    ensures
        r@.len() == group_keys(entries@).len(),
        forall|g: int|
            0 <= g < r@.len() ==> group_of(entries@, group_keys(entries@)[g], #[trigger] r@[g]),
{
    let mut groups: Vec<MentionGroup> = Vec::new();
    let n = entries.len();
    let mut i: usize = 0;
    while i < n
        invariant
            n == entries@.len(),
            i <= n,
            groups@.len() == group_keys(entries@.take(i as int)).len(),
            forall|g: int|
                0 <= g < groups@.len() ==> group_of(
                    entries@.take(i as int),
                    group_keys(entries@.take(i as int))[g],
                    #[trigger] groups@[g],
                ),
        decreases n - i,
    {
        let ghost pre = entries@.take(i as int);
        let ghost post = entries@.take(i + 1);
        let ghost ks = group_keys(pre);
        let ghost old_groups = groups@;
        assert(post.drop_last() =~= pre);
        assert(post.last() == entries@[i as int]);
        let e = &entries[i];
        let stamp = rfc3339_stamp(e.created.as_str());
        let mut j: usize = 0;
        let mut idx: Option<usize> = None;
        while j < groups.len()
            invariant
                groups@ == old_groups,
                groups@.len() == ks.len(),
                j <= groups@.len(),
                forall|g: int| 0 <= g < groups@.len() ==> group_of(pre, ks[g], #[trigger] groups@[g]),
                idx matches Some(x) ==> x < groups@.len() && ks[x as int] == e.issue.key@,
                idx is None ==> forall|g: int| 0 <= g < j ==> ks[g] != e.issue.key@,
                pre == entries@.take(i as int),
                i < entries@.len(),
            decreases groups@.len() - j,
        {
            let first = groups[j].first;
            assert(group_of(pre, ks[j as int], groups@[j as int]));
            assert(entries@[first as int] == pre[first as int]);
            if idx.is_none() && str_eq(entries[first].issue.key.as_str(), e.issue.key.as_str()) {
                idx = Some(j);
            }
            j = j + 1;
        }
        proof {
            lemma_group_keys_distinct(pre);
        }
        let ghost k = e.issue.key@;
        match idx {
            Some(j) => {
                assert(ks[j as int] == k);
                assert(ks.contains(k));
                proof {
                    lemma_group_first_key(pre, k);
                }
                let old_g = &groups[j];
                let newer = is_after(stamp, old_g.latest);
                let updated = MentionGroup {
                    first: old_g.first,
                    total: old_g.total + 1,
                    unread: if e.read {
                        old_g.unread
                    } else {
                        old_g.unread + 1
                    },
                    latest: if newer {
                        stamp
                    } else {
                        old_g.latest
                    },
                };
                groups.set(j, updated);
                proof {
                    assert(group_keys(post) == ks);
                    assert forall|g: int| 0 <= g < groups@.len() implies group_of(
                        post,
                        group_keys(post)[g],
                        #[trigger] groups@[g],
                    ) by {
                        assert(group_of(pre, ks[g], old_groups[g]));
                        if g != j {
                            assert(ks[g] != k);
                        }
                        assert(post[groups@[g].first as int] == pre[groups@[g].first as int]);
                    }
                }
            },
            None => {
                assert(!ks.contains(k)) by {
                    if ks.contains(k) {
                        let g = choose|g: int| 0 <= g < ks.len() && ks[g] == k;
                        assert(ks[g] != k);
                    }
                }
                proof {
                    lemma_group_counts_zero(pre, k);
                }
                groups.push(
                    MentionGroup {
                        first: i,
                        total: 1,
                        unread: if e.read {
                            0
                        } else {
                            1
                        },
                        latest: stamp,
                    },
                );
                proof {
                    assert(group_keys(post) == ks.push(k));
                    assert forall|g: int| 0 <= g < groups@.len() implies group_of(
                        post,
                        group_keys(post)[g],
                        #[trigger] groups@[g],
                    ) by {
                        if g < old_groups.len() {
                            assert(group_of(pre, ks[g], old_groups[g]));
                            assert(ks[g] != k);
                            assert(post[groups@[g].first as int] == pre[groups@[g].first as int]);
                        }
                    }
                }
            },
        }
        i = i + 1;
    }
    assert(entries@.take(n as int) =~= entries@);
    groups
}


/// Sorts gathered mentions by latest instant, latest first.
pub fn sort_groups_by_latest(groups: &Vec<MentionGroup>) -> (r: Vec<MentionGroup>)
    ensures
        r@.to_multiset() == groups@.to_multiset(),
        r@.len() == groups@.len(),
        forall|i: int, j: int|
            0 <= i < j < r@.len() ==> !stamp_after(#[trigger] r@[j].latest, #[trigger] r@[i].latest),
{
    broadcast use vstd::seq_lib::group_to_multiset_ensures;

    let mut out: Vec<MentionGroup> = Vec::new();
    let n = groups.len();
    let mut i: usize = 0;
    while i < n
        invariant
            n == groups@.len(),
            i <= n,
            out@.to_multiset() == groups@.take(i as int).to_multiset(),
            out@.len() == i,
            forall|a: int, b: int|
                0 <= a < b < out@.len() ==> !stamp_after(#[trigger] out@[b].latest, #[trigger] out@[a].latest),
        decreases n - i,
    {
        let g = groups[i];
        let mut p: usize = 0;
        while p < out.len() && !is_after(g.latest, out[p].latest)
            invariant
                p <= out@.len(),
                forall|q: int| 0 <= q < p ==> !stamp_after(g.latest, #[trigger] out@[q].latest),
            decreases out@.len() - p,
        {
            p = p + 1;
        }
        let ghost old_out = out@;
        out.insert(p, g);
        assert(out@ == old_out.insert(p as int, g));
        proof {
            vstd::seq_lib::to_multiset_insert(old_out, p as int, g);
            vstd::seq_lib::to_multiset_build(groups@.take(i as int), g);
        }
        assert(groups@.take(i + 1) =~= groups@.take(i as int).push(g));

        assert forall|a: int, b: int| 0 <= a < b < out@.len() implies !stamp_after(
            #[trigger] out@[b].latest,
            #[trigger] out@[a].latest,
        ) by {
            if b < p {
                assert(out@[a] == old_out[a] && out@[b] == old_out[b]);
            } else if b == p {
                assert(out@[a] == old_out[a]);
                assert(!stamp_after(g.latest, old_out[a].latest));
            } else if a == p {
                assert(out@[b] == old_out[b - 1]);
                assert(stamp_after(g.latest, old_out[p as int].latest));
                if b - 1 > p {
                    assert(!stamp_after(old_out[b - 1].latest, old_out[p as int].latest));
                }
            } else if a < p {
                assert(out@[a] == old_out[a] && out@[b] == old_out[b - 1]);
            } else {
                assert(out@[a] == old_out[a - 1] && out@[b] == old_out[b - 1]);
            }
        }
        i = i + 1;
    }
    assert(groups@.take(n as int) =~= groups@);
    out
}

/// The summary label of an issue with `total` mentions of which `unread` are unread.
pub fn label_mentions(total: usize, unread: usize, summary: &str) -> (r: String)
    ensures
        r@ == mention_label(total as nat, unread as nat, summary@),
{
    let mut s = String::new();
    if unread == 0 {
        push_str(&mut s, "[read] ");
    } else if unread == total && total == 1 {
        push_str(&mut s, "[mention] ");
    } else if unread == total {
        push_str(&mut s, "[");
        push_decimal(&mut s, total as u64);
        push_str(&mut s, " mentions] ");
    } else {
        push_str(&mut s, "[");
        push_decimal(&mut s, unread as u64);
        push_str(&mut s, " unread/");
        push_decimal(&mut s, total as u64);
        push_str(&mut s, " mentions] ");
    }
    push_str(&mut s, summary);
    s
}

/// One issue per mentioned issue, latest mention first, each with its summary
/// prefixed by its read state: `[read]` when every mention is read,
/// `[mention]` for a single unread mention, `[N mentions]` when all N are
/// unread, `[U unread/N mentions]` otherwise. Issues whose latest mentions are
/// equally recent may come in either order.
pub fn notification_issues(entries: &[NotificationEntry]) -> (r: Vec<Issue>)
    ensures
        r@.len() == group_keys(entries@).len(),
        forall|i: int|
            0 <= i < r@.len() ==> {
                let k = (#[trigger] r@[i]).key@;
                let first = entries@[group_first(entries@, k)].issue;
                &&& group_keys(entries@).contains(k)
                &&& same_issue_but_summary(r@[i], first)
                &&& r@[i].summary@ == mention_label(
                    group_total(entries@, k),
                    group_unread(entries@, k),
                    first.summary@,
                )
            },
        forall|i: int, j: int| 0 <= i < j < r@.len() ==> (#[trigger] r@[i]).key@ != (#[trigger] r@[j]).key@,
        forall|i: int, j: int|
            0 <= i < j < r@.len() ==> !stamp_after(
                group_latest(entries@, (#[trigger] r@[j]).key@),
                group_latest(entries@, (#[trigger] r@[i]).key@),
            ),
{
    broadcast use vstd::seq_lib::group_to_multiset_ensures;

    let groups = group_mentions(entries);
    let ghost ks = group_keys(entries@);
    proof {
        lemma_group_keys_distinct(entries@);
        assert(groups@.no_duplicates()) by {
            assert forall|a: int, b: int| 0 <= a < groups@.len() && 0 <= b < groups@.len() && a != b implies groups@[a] != groups@[b] by {
                assert(group_of(entries@, ks[a], groups@[a]));
                assert(group_of(entries@, ks[b], groups@[b]));
                if a < b {
                    assert(ks[a] != ks[b]);
                } else {
                    assert(ks[b] != ks[a]);
                }
            }
        }
        groups@.lemma_multiset_has_no_duplicates();
    }
    let sorted = sort_groups_by_latest(&groups);
    proof {
        sorted@.lemma_multiset_has_no_duplicates_conv();
    }
    let mut out: Vec<Issue> = Vec::new();
    let mut i: usize = 0;
    while i < sorted.len()
        invariant
            i <= sorted@.len(),
            out@.len() == i,
            sorted@.to_multiset() == groups@.to_multiset(),
            sorted@.len() == groups@.len(),
            groups@.len() == ks.len(),
            ks == group_keys(entries@),
            forall|g: int| 0 <= g < groups@.len() ==> group_of(entries@, ks[g], #[trigger] groups@[g]),
            forall|q: int|
                0 <= q < i ==> {
                    &&& (#[trigger] out@[q]).key@ == entry_key(entries@[sorted@[q].first as int])
                    &&& same_issue_but_summary(out@[q], entries@[sorted@[q].first as int].issue)
                    &&& out@[q].summary@ == mention_label(
                        sorted@[q].total as nat,
                        sorted@[q].unread as nat,
                        entries@[sorted@[q].first as int].issue.summary@,
                    )
                },
        decreases sorted@.len() - i,
    {
        let g = sorted[i];
        proof {
            assert(sorted@[i as int] == g);
            assert(sorted@.contains(g));
            vstd::seq_lib::to_multiset_contains(sorted@, g);
            vstd::seq_lib::to_multiset_contains(groups@, g);
        }
        let ghost m = choose|m: int| 0 <= m < groups@.len() && groups@[m] == g;
        assert(group_of(entries@, ks[m], groups@[m]));
        let source = &entries[g.first].issue;
        let label = label_mentions(g.total, g.unread, source.summary.as_str());
        out.push(source.with_summary(label));
        i = i + 1;
    }
    proof {
        assert forall|q: int| 0 <= q < sorted@.len() implies exists|m: int|
            0 <= m < groups@.len() && groups@[m] == #[trigger] sorted@[q] by {
            assert(sorted@.contains(sorted@[q]));
            vstd::seq_lib::to_multiset_contains(sorted@, sorted@[q]);
            vstd::seq_lib::to_multiset_contains(groups@, sorted@[q]);
        }
        assert forall|q: int| 0 <= q < out@.len() implies {
            let k = (#[trigger] out@[q]).key@;
            let first = entries@[group_first(entries@, k)].issue;
            &&& group_keys(entries@).contains(k)
            &&& same_issue_but_summary(out@[q], first)
            &&& out@[q].summary@ == mention_label(
                group_total(entries@, k),
                group_unread(entries@, k),
                first.summary@,
            )
        } by {
            let m = choose|m: int| 0 <= m < groups@.len() && groups@[m] == sorted@[q];
            assert(group_of(entries@, ks[m], groups@[m]));
            assert(ks[m] == out@[q].key@);
        }
        assert forall|a: int, b: int| 0 <= a < b < out@.len() implies (#[trigger] out@[a]).key@
            != (#[trigger] out@[b]).key@ by {
            let ma = choose|m: int| 0 <= m < groups@.len() && groups@[m] == sorted@[a];
            let mb = choose|m: int| 0 <= m < groups@.len() && groups@[m] == sorted@[b];
            assert(group_of(entries@, ks[ma], groups@[ma]));
            assert(group_of(entries@, ks[mb], groups@[mb]));
            assert(sorted@[a] != sorted@[b]);
            assert(ma != mb);
            if ma < mb {
                assert(ks[ma] != ks[mb]);
            } else {
                assert(ks[mb] != ks[ma]);
            }
        }
        assert forall|a: int, b: int| 0 <= a < b < out@.len() implies !stamp_after(
            group_latest(entries@, (#[trigger] out@[b]).key@),
            group_latest(entries@, (#[trigger] out@[a]).key@),
        ) by {
            let ma = choose|m: int| 0 <= m < groups@.len() && groups@[m] == sorted@[a];
            let mb = choose|m: int| 0 <= m < groups@.len() && groups@[m] == sorted@[b];
            assert(group_of(entries@, ks[ma], groups@[ma]));
            assert(group_of(entries@, ks[mb], groups@[mb]));
            assert(!stamp_after(sorted@[b].latest, sorted@[a].latest));
        }
    }
    out
}


/// The JQL listing the mentioned issues by key, each key once in increasing
/// order, newest update first; `fallback` when there are no mentions.
pub fn notification_issue_jql(entries: &[NotificationEntry], fallback_jql: &str) -> (r: String)
    ensures
        entries@.len() == 0 ==> r@ == fallback_jql@,
        entries@.len() > 0 ==> exists|ks: Seq<Seq<char>>|
            {
                &&& strictly_sorted(ks)
                &&& forall|t: Seq<char>|
                    #![trigger ks.contains(t)]
                    ks.contains(t) <==> exists|i: int|
                        0 <= i < entries@.len() && entry_key(entries@[i]) == t
                &&& r@ == "key in ("@ + join(ks, ", "@) + ") ORDER BY updated DESC"@
            },
{
    let mut keys: Vec<String> = Vec::new();
    let mut i: usize = 0;
    while i < entries.len()
        invariant
            i <= entries@.len(),
            keys@.len() == i,
            forall|q: int| 0 <= q < i ==> (#[trigger] keys@[q])@ == entry_key(entries@[q]),
        decreases entries@.len() - i,
    {
        keys.push(entries[i].issue.key.clone());
        i = i + 1;
    }
    let unique = sorted_unique(&keys);
    if unique.len() == 0 {
        if entries.len() > 0 {
            assert(views(keys@)[0] == keys@[0]@);
            assert(views(keys@).contains(keys@[0]@));
            assert(false);
        }
        return String::from_str(fallback_jql);
    }
    proof {
        if entries@.len() == 0 {
            assert(views(unique@)[0] == unique@[0]@);
            assert(views(unique@).contains(unique@[0]@));
            assert(views(keys@).contains(unique@[0]@));
        }
    }
    let mut s = String::from_str("key in (");
    let joined = join_strings(&unique, ", ");
    push_str(&mut s, joined.as_str());
    push_str(&mut s, ") ORDER BY updated DESC");
    proof {
        let ks = views(unique@);
        assert forall|t: Seq<char>| #![trigger ks.contains(t)] ks.contains(t) <==> exists|i: int|
            0 <= i < entries@.len() && entry_key(entries@[i]) == t by {
            if views(keys@).contains(t) {
                let w = choose|w: int| 0 <= w < views(keys@).len() && views(keys@)[w] == t;
                assert(entry_key(entries@[w]) == t);
            }
            if exists|i: int| 0 <= i < entries@.len() && entry_key(entries@[i]) == t {
                let w = choose|w: int| 0 <= w < entries@.len() && entry_key(entries@[w]) == t;
                assert(views(keys@)[w] == t);
            }
        }
    }
    s
}

/// Whether some entry before index `i` would be marked under `issue_key` and
/// carries the id `id`.
pub open spec fn earlier_candidate(
    es: Seq<NotificationEntry>,
    issue_key: Seq<char>,
    i: int,
    id: Seq<char>,
) -> bool {
    exists|j: int|
        0 <= j < i && entry_key(#[trigger] es[j]) == issue_key && !es[j].read && es[j].id@ == id
}

/// Entry `i` of `es` becomes read when marking `issue_key`: it concerns that
/// issue, is unread, and its id is new to the read set (neither recorded
/// before nor taken by an earlier entry of this pass).
pub open spec fn newly_read(
    es: Seq<NotificationEntry>,
    read_ids: Seq<Seq<char>>,
    issue_key: Seq<char>,
    i: int,
) -> bool {
    &&& entry_key(es[i]) == issue_key
    &&& !es[i].read
    &&& !read_ids.contains(es[i].id@)
    &&& !earlier_candidate(es, issue_key, i, es[i].id@)
}

/// Marks the unread mentions of issue `issue_key` as read, recording their ids
/// in `read_ids` (the persisted set of read ids, each held once), and returns how
/// many entries changed. An entry whose id is already recorded stays as it is.
pub fn mark_read_entries(
    entries: &mut Vec<NotificationEntry>,
    issue_key: &str,
    read_ids: &mut Vec<String>,
) -> (changed: usize)
    requires
        views(old(read_ids)@).no_duplicates(),
    ensures
        final(entries)@.len() == old(entries)@.len(),
        forall|i: int|
            0 <= i < old(entries)@.len() ==> {
                &&& (#[trigger] final(entries)@[i]).read == (old(entries)@[i].read || newly_read(
                    old(entries)@,
                    views(old(read_ids)@),
                    issue_key@,
                    i,
                ))
                &&& final(entries)@[i].id == old(entries)@[i].id
                &&& final(entries)@[i].issue == old(entries)@[i].issue
                &&& final(entries)@[i].source == old(entries)@[i].source
                &&& final(entries)@[i].author == old(entries)@[i].author
                &&& final(entries)@[i].created == old(entries)@[i].created
                &&& final(entries)@[i].excerpt == old(entries)@[i].excerpt
                &&& final(entries)@[i].url == old(entries)@[i].url
            },
        views(final(read_ids)@).no_duplicates(),
        forall|t: Seq<char>|
            #![trigger views(final(read_ids)@).contains(t)]
            views(final(read_ids)@).contains(t) <==> (views(old(read_ids)@).contains(t)
                || earlier_candidate(old(entries)@, issue_key@, old(entries)@.len() as int, t)),
        changed == Set::new(|i: int| 0 <= i < old(entries)@.len() && newly_read(
            old(entries)@,
            views(old(read_ids)@),
            issue_key@,
            i,
        )).len(),
{
    let ghost es = entries@;
    let ghost ids0 = views(read_ids@);
    let n = entries.len();
    let mut changed: usize = 0;
    let mut i: usize = 0;
    assert(Set::new(|q: int| 0 <= q < 0 && newly_read(es, ids0, issue_key@, q)) =~= Set::<int>::empty());
    while i < n
        invariant
            n == es.len(),
            entries@.len() == n,
            i <= n,
            views(read_ids@).no_duplicates(),
            ids0.no_duplicates(),
            forall|q: int|
                0 <= q < n ==> {
                    &&& (#[trigger] entries@[q]).read == (es[q].read || (q < i && newly_read(
                        es,
                        ids0,
                        issue_key@,
                        q,
                    )))
                    &&& entries@[q].id == es[q].id
                    &&& entries@[q].issue == es[q].issue
                    &&& entries@[q].source == es[q].source
                    &&& entries@[q].author == es[q].author
                    &&& entries@[q].created == es[q].created
                    &&& entries@[q].excerpt == es[q].excerpt
                    &&& entries@[q].url == es[q].url
                },
            forall|t: Seq<char>|
                #![trigger views(read_ids@).contains(t)]
                views(read_ids@).contains(t) <==> (ids0.contains(t) || earlier_candidate(
                    es,
                    issue_key@,
                    i as int,
                    t,
                )),
            changed == Set::new(|q: int| 0 <= q < i && newly_read(es, ids0, issue_key@, q)).len(),
            changed <= i,
        decreases n - i,
    {
        let ghost before_ids = views(read_ids@);
        let ghost newly_set = Set::new(|q: int| 0 <= q < i && newly_read(es, ids0, issue_key@, q));
        let ghost next_set = Set::new(|q: int| 0 <= q < i + 1 && newly_read(es, ids0, issue_key@, q));
        assert(entries@[i as int] == es[i as int]) by {
            assert(entries@[i as int].id == es[i as int].id);
        }
        let matches = str_eq(entries[i].issue.key.as_str(), issue_key);
        let mut marked = false;
        if matches && !entries[i].read {
            let mut known = false;
            let mut k: usize = 0;
            while k < read_ids.len()
                invariant
                    k <= read_ids@.len(),
                    known == exists|m: int| 0 <= m < k && read_ids@[m]@ == entries@[i as int].id@,
                    i < entries@.len(),
                decreases read_ids@.len() - k,
            {
                if !known && str_eq(read_ids[k].as_str(), entries[i].id.as_str()) {
                    known = true;
                }
                k = k + 1;
            }
            proof {
                let idv = es[i as int].id@;
                if known {
                    let m = choose|m: int| 0 <= m < read_ids@.len() && read_ids@[m]@ == idv;
                    assert(views(read_ids@)[m] == idv);
                } else {
                    if views(read_ids@).contains(idv) {
                        let m = choose|m: int| 0 <= m < views(read_ids@).len() && views(read_ids@)[m] == idv;
                        assert(read_ids@[m]@ == idv);
                    }
                }
                assert(known == before_ids.contains(idv));
            }
            if !known {
                let id = entries[i].id.clone();
                read_ids.push(id);
                let mut entry = entries.remove(i);
                entry.read = true;
                entries.insert(i, entry);
                marked = true;
            }
        }
        proof {
            let idv = es[i as int].id@;
            let eligible = entry_key(es[i as int]) == issue_key@ && !es[i as int].read;
            assert(matches == (entry_key(es[i as int]) == issue_key@));
            assert(marked == newly_read(es, ids0, issue_key@, i as int)) by {
                if eligible {
                    assert(before_ids.contains(idv) == (ids0.contains(idv) || earlier_candidate(es, issue_key@, i as int, idv)));
                }
            }
            assert forall|t: Seq<char>| #![trigger views(read_ids@).contains(t)] views(read_ids@).contains(t) <==> (ids0.contains(t) || earlier_candidate(es, issue_key@, i + 1, t)) by {
                if earlier_candidate(es, issue_key@, i + 1, t) && !earlier_candidate(es, issue_key@, i as int, t) {
                    let j = choose|j: int| 0 <= j < i + 1 && entry_key(#[trigger] es[j]) == issue_key@ && !es[j].read && es[j].id@ == t;
                    assert(j == i);
                    if !marked {
                        assert(before_ids.contains(t));
                    } else {
                        assert(views(read_ids@)[views(read_ids@).len() - 1] == t);
                    }
                }
                if earlier_candidate(es, issue_key@, i as int, t) {
                    let j = choose|j: int| 0 <= j < i && entry_key(#[trigger] es[j]) == issue_key@ && !es[j].read && es[j].id@ == t;
                    assert(earlier_candidate(es, issue_key@, i + 1, t) == true) by {
                        assert(0 <= j < i + 1);
                    }
                }
                if marked {
                    assert(views(read_ids@) =~= before_ids.push(idv));
                    if views(read_ids@).contains(t) && t != idv {
                        let m = choose|m: int| 0 <= m < views(read_ids@).len() && views(read_ids@)[m] == t;
                        assert(before_ids[m] == t);
                    }
                    if before_ids.contains(t) {
                        let m = choose|m: int| 0 <= m < before_ids.len() && before_ids[m] == t;
                        assert(views(read_ids@)[m] == t);
                    }
                    assert(earlier_candidate(es, issue_key@, i + 1, idv)) by {
                        assert(0 <= i < i + 1);
                    }
                } else {
                    assert(views(read_ids@) =~= before_ids);
                }
            }
            assert(newly_set.subset_of(vstd::set_lib::set_int_range(0, i as int)));
            vstd::set_lib::lemma_int_range(0, i as int);
            vstd::set_lib::lemma_len_subset(newly_set, vstd::set_lib::set_int_range(0, i as int));
            if marked {
                assert(views(read_ids@) =~= before_ids.push(idv));
                assert(!before_ids.contains(idv));
                assert(views(read_ids@).no_duplicates());
                assert(next_set =~= newly_set.insert(i as int));
                assert(!newly_set.contains(i as int));
            } else {
                assert(next_set =~= newly_set);
            }
        }
        if marked {
            changed = changed + 1;
        }
        i = i + 1;
    }
    changed
}


/// Marking an issue's mentions read a second time changes nothing: once a pass
/// has run (leaving `after` and `ids_after` as `mark_read_entries` states), no
/// entry is newly read by another pass with the same issue key.
pub proof fn law_mark_read_idempotent(
    before: Seq<NotificationEntry>,
    ids_before: Seq<Seq<char>>,
    issue_key: Seq<char>,
    after: Seq<NotificationEntry>,
    ids_after: Seq<Seq<char>>,
    i: int,
)
    requires
        after.len() == before.len(),
        forall|q: int|
            0 <= q < before.len() ==> {
                &&& (#[trigger] after[q]).read == (before[q].read || newly_read(
                    before,
                    ids_before,
                    issue_key,
                    q,
                ))
                &&& after[q].id == before[q].id
                &&& after[q].issue == before[q].issue
            },
        forall|t: Seq<char>|
            #![trigger ids_after.contains(t)]
            ids_after.contains(t) <==> (ids_before.contains(t) || earlier_candidate(
                before,
                issue_key,
                before.len() as int,
                t,
            )),
        0 <= i < after.len(),
    ensures
        !newly_read(after, ids_after, issue_key, i),
{
    if entry_key(after[i]) == issue_key && !after[i].read {
        let id = before[i].id@;
        assert(after[i] == after[i]);
        assert(!before[i].read);
        assert(!newly_read(before, ids_before, issue_key, i));
        if !ids_before.contains(id) {
            let j = choose|j: int|
                0 <= j < i && entry_key(#[trigger] before[j]) == issue_key && !before[j].read
                    && before[j].id@ == id;
            assert(earlier_candidate(before, issue_key, before.len() as int, id));
        }
        assert(ids_after.contains(id));
    }
}

/// In a stable sort of mentions newest first, position `i` of instants `ts`
/// goes before position `j`.
pub open spec fn newest_before(ts: Seq<Option<(i64, u32)>>, i: int, j: int) -> bool {
    ||| stamp_after(ts[i], ts[j])
    ||| ts[i] == ts[j] && i < j
}

/// Instants are ordered strictly and totally by `stamp_after`.
pub proof fn lemma_stamp_order(a: Option<(i64, u32)>, b: Option<(i64, u32)>, c: Option<(i64, u32)>)
    ensures
        !stamp_after(a, a),
        a != b ==> (stamp_after(a, b) || stamp_after(b, a)),
        !(stamp_after(a, b) && stamp_after(b, a)),
        stamp_after(a, b) && stamp_after(b, c) ==> stamp_after(a, c),
{
}

/// The instants at which mentions were made.
pub open spec fn entry_stamps(es: Seq<NotificationEntry>) -> Seq<Option<(i64, u32)>> {
    es.map_values(|e: NotificationEntry| entry_stamp(e))
}

/// Mentions newest first, those made at the same instant (or at none that
/// can be read) in their order; those without a readable instant last.
pub fn sort_entries_newest_first(entries: Vec<NotificationEntry>) -> (r: Vec<NotificationEntry>)
    ensures
        r@.len() == entries@.len(),
        exists|p: Seq<int>|
            {
                &&& crate::versions::is_permutation(p, entries@.len())
                &&& forall|k: int| 0 <= k < r@.len() ==> r@[k] == entries@[#[trigger] p[k]]
                &&& forall|a: int, b: int|
                    0 <= a < b < p.len() ==> newest_before(entry_stamps(entries@), #[trigger] p[a], #[trigger] p[b])
            },
{
    let ghost orig = entries@;
    let ghost ts = entry_stamps(orig);
    let n = entries.len();
    let mut stamps: Vec<Option<(i64, u32)>> = Vec::new();
    let mut k: usize = 0;
    while k < n
        invariant
            n == orig.len(),
            entries@ == orig,
            ts == entry_stamps(orig),
            k <= n,
            stamps@ == ts.take(k as int),
        decreases n - k,
    {
        stamps.push(parse_jira_datetime(entries[k].created.as_str()));
        k = k + 1;
        assert(stamps@ =~= ts.take(k as int));
    }
    assert(ts.take(n as int) =~= ts);
    let mut pos: Vec<usize> = Vec::new();
    let mut i: usize = 0;
    while i < n
        invariant
            n == orig.len(),
            stamps@ == ts,
            ts.len() == n,
            i <= n,
            pos@.len() == i,
            forall|q: int| 0 <= q < i ==> 0 <= #[trigger] pos@[q] < i,
            forall|a: int, b: int| 0 <= a < b < i ==> pos@[a] != pos@[b],
            forall|a: int, b: int| 0 <= a < b < i ==> newest_before(ts, #[trigger] pos@[a] as int, #[trigger] pos@[b] as int),
        decreases n - i,
    {
        let ghost ti = ts[i as int];
        let mut q: usize = 0;
        while q < pos.len() && !is_after(stamps[i], stamps[pos[q]])
            invariant
                q <= pos@.len(),
                pos@.len() == i,
                i < n,
                stamps@ == ts,
                ts.len() == n,
                ti == ts[i as int],
                forall|x: int| 0 <= x < i ==> 0 <= #[trigger] pos@[x] < i,
                forall|a: int| 0 <= a < q ==> !stamp_after(ti, #[trigger] ts[pos@[a] as int]),
            decreases pos@.len() - q,
        {
            q = q + 1;
        }
        proof {
            assert forall|a: int| 0 <= a < q implies newest_before(ts, #[trigger] pos@[a] as int, i as int) by {
                lemma_stamp_order(ts[pos@[a] as int], ti, ti);
            }
            if q < pos@.len() {
                assert(stamp_after(ti, ts[pos@[q as int] as int]));
                assert forall|a: int| q <= a < i implies newest_before(ts, i as int, #[trigger] pos@[a] as int) by {
                    if a > q {
                        assert(newest_before(ts, pos@[q as int] as int, pos@[a] as int));
                        lemma_stamp_order(ti, ts[pos@[q as int] as int], ts[pos@[a] as int]);
                    }
                }
            }
        }
        let ghost old_pos = pos@;
        pos.insert(q, i);
        proof {
            assert forall|x: int| 0 <= x < i + 1 implies 0 <= #[trigger] pos@[x] < i + 1 by {
                if x < q {
                    assert(pos@[x] == old_pos[x]);
                } else if x > q {
                    assert(pos@[x] == old_pos[x - 1]);
                }
            }
            assert forall|a: int, b: int| 0 <= a < b < i + 1 implies pos@[a] != pos@[b] by {
                if a < q && b < q {
                    assert(pos@[a] == old_pos[a] && pos@[b] == old_pos[b]);
                } else if a < q && b == q {
                    assert(pos@[a] == old_pos[a]);
                } else if a < q {
                    assert(pos@[a] == old_pos[a] && pos@[b] == old_pos[b - 1]);
                } else if a == q {
                    assert(pos@[b] == old_pos[b - 1]);
                } else {
                    assert(pos@[a] == old_pos[a - 1] && pos@[b] == old_pos[b - 1]);
                }
            }
            assert forall|a: int, b: int| 0 <= a < b < i + 1 implies newest_before(ts, #[trigger] pos@[a] as int, #[trigger] pos@[b] as int) by {
                if a < q && b < q {
                    assert(pos@[a] == old_pos[a] && pos@[b] == old_pos[b]);
                } else if a < q && b == q {
                    assert(pos@[a] == old_pos[a]);
                } else if a < q {
                    assert(pos@[a] == old_pos[a] && pos@[b] == old_pos[b - 1]);
                } else if a == q {
                    assert(pos@[b] == old_pos[b - 1]);
                } else {
                    assert(pos@[a] == old_pos[a - 1] && pos@[b] == old_pos[b - 1]);
                }
            }
        }
        i = i + 1;
    }
    let ghost pi = pos@.map_values(|x: usize| x as int);
    let mut slots: Vec<Option<NotificationEntry>> = Vec::new();
    let mut items = entries;
    let mut m: usize = 0;
    while m < n
        invariant
            n == orig.len(),
            m <= n,
            items@ == orig.skip(m as int),
            slots@.len() == m,
            forall|x: int| 0 <= x < m ==> #[trigger] slots@[x] == Some(orig[x]),
        decreases n - m,
    {
        let e = items.remove(0);
        assert(e == orig[m as int]);
        assert(items@ =~= orig.skip(m + 1));
        slots.push(Some(e));
        m = m + 1;
    }
    let mut out: Vec<NotificationEntry> = Vec::new();
    let mut j: usize = 0;
    while j < n
        invariant
            n == orig.len(),
            j <= n,
            pos@.len() == n,
            slots@.len() == n,
            forall|x: int| 0 <= x < n ==> 0 <= #[trigger] pos@[x] < n,
            forall|a: int, b: int| 0 <= a < b < n ==> pos@[a] != pos@[b],
            forall|x: int| j <= x < n ==> #[trigger] slots@[pos@[x] as int] == Some(orig[pos@[x] as int]),
            out@.len() == j,
            forall|x: int| 0 <= x < j ==> #[trigger] out@[x] == orig[pos@[x] as int],
        decreases n - j,
    {
        let at = pos[j];
        let mut taken: Option<NotificationEntry> = None;
        std::mem::swap(&mut taken, &mut slots[at]);
        proof {
            assert forall|x: int| j + 1 <= x < n implies #[trigger] slots@[pos@[x] as int] == Some(orig[pos@[x] as int]) by {
                assert(pos@[x] != pos@[j as int]);
            }
        }
        match taken {
            Some(e) => out.push(e),
            None => {
                assert(false);
            },
        }
        j = j + 1;
    }
    proof {
        assert forall|x: int| 0 <= x < pi.len() implies 0 <= #[trigger] pi[x] < orig.len() by {
            assert(pi[x] == pos@[x] as int);
        }
        assert forall|a: int, b: int| 0 <= a < b < pi.len() implies pi[a] != pi[b] by {
            assert(pi[a] == pos@[a] as int && pi[b] == pos@[b] as int);
        }
        assert forall|x: int| 0 <= x < out@.len() implies out@[x] == orig[#[trigger] pi[x]] by {
            assert(pi[x] == pos@[x] as int);
        }
        assert forall|a: int, b: int| 0 <= a < b < pi.len() implies newest_before(entry_stamps(orig), #[trigger] pi[a], #[trigger] pi[b]) by {
            assert(pi[a] == pos@[a] as int && pi[b] == pos@[b] as int);
        }
        assert(crate::versions::is_permutation(pi, orig.len()));
        assert({
            &&& crate::versions::is_permutation(pi, orig.len())
            &&& forall|k: int| 0 <= k < out@.len() ==> out@[k] == orig[#[trigger] pi[k]]
            &&& forall|a: int, b: int|
                0 <= a < b < pi.len() ==> newest_before(entry_stamps(orig), #[trigger] pi[a], #[trigger] pi[b])
        });
    }
    out
}

} // verus!

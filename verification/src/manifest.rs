//! Manifests of `jirac issue batch` and `jirac issue bulk-create`: JSON arrays
//! of operations or issues. Each entry is read into the request it stands for;
//! the requests are sent by the caller, whose answers are recorded here and
//! summed up.
use vstd::prelude::*;

use crate::model::{json_get, json_str, JsonValue, JsonView};
use crate::text::{
    ascii_lowercase, ascii_lowercase_str, decimal, push_decimal, push_str, str_eq, views,
};

verus! {

/// The string value of member `key` of `v`, if it is a string.
pub open spec fn str_member(v: JsonView, key: Seq<char>) -> Option<Seq<char>> {
    json_str(json_get(v, key))
}

/// The string items of an array, in order; other items are skipped.
pub open spec fn string_items(items: Seq<JsonView>) -> Seq<Seq<char>>
    decreases items.len(),
{
    if items.len() == 0 {
        Seq::empty()
    } else {
        let rest = string_items(items.drop_last());
        match items.last() {
            JsonView::Str(s) => rest.push(s),
            _ => rest,
        }
    }
}

/// The string items of member `key` of `v`, when it is an array.
pub open spec fn str_list_member(v: JsonView, key: Seq<char>) -> Option<Seq<Seq<char>>> {
    match json_get(v, key) {
        Some(JsonView::Array(items)) => Some(string_items(items)),
        _ => None,
    }
}

/// The string items of member `key` of `v`; none when it is not an array.
pub open spec fn str_list_or_empty(v: JsonView, key: Seq<char>) -> Seq<Seq<char>> {
    match str_list_member(v, key) {
        Some(l) => l,
        None => Seq::empty(),
    }
}

/// The entries of member `key` of `v`, when it is an object; none otherwise.
pub open spec fn object_member(v: JsonView, key: Seq<char>) -> Seq<(Seq<char>, JsonView)> {
    match json_get(v, key) {
        Some(JsonView::Object(entries)) => entries,
        _ => Seq::empty(),
    }
}

/// The content of an optional string.
pub open spec fn opt_text(o: Option<String>) -> Option<Seq<char>> {
    match o {
        Some(s) => Some(s@),
        None => None,
    }
}

/// The content of a list of named JSON values.
pub open spec fn entry_views(v: Seq<(String, JsonValue)>) -> Seq<(Seq<char>, JsonView)> {
    v.map_values(|e: (String, JsonValue)| (e.0@, e.1.deep()))
}

/// The string value of member `key` of `v`.
pub fn member_str(v: &JsonValue, key: &str) -> (r: Option<String>)
    ensures
        opt_text(r) == str_member(v.deep(), key@),
{
    match v.get(key) {
        Some(m) => match m.as_str() {
            Some(s) => {
                let mut t = String::new();
                push_str(&mut t, s);
                Some(t)
            },
            None => None,
        },
        None => None,
    }
}

/// The string value of member `key` of `v`, or `default`.
pub fn member_str_or(v: &JsonValue, key: &str, default: &str) -> (r: String)
    ensures
        r@ == match str_member(v.deep(), key@) {
            Some(s) => s,
            None => default@,
        },
{
    match member_str(v, key) {
        Some(s) => s,
        None => {
            let mut t = String::new();
            push_str(&mut t, default);
            t
        },
    }
}

/// The string value of member `key` of `v`, or an empty string.
pub fn member_str_or_empty(v: &JsonValue, key: &str) -> (r: String)
    ensures
        r@ == str_or_empty(v.deep(), key@),
{
    match member_str(v, key) {
        Some(s) => s,
        None => String::new(),
    }
}

/// The string items of member `key` of `v`, when it is an array.
pub fn member_str_list(v: &JsonValue, key: &str) -> (r: Option<Vec<String>>)
    ensures
        match r {
            Some(l) => str_list_member(v.deep(), key@) == Some(views(l@)),
            None => str_list_member(v.deep(), key@) is None,
        },
{
    match v.get(key) {
        Some(m) => match m.as_array() {
            Some(items) => {
                let ghost ds = m.deep()->Array_0;
                let mut out: Vec<String> = Vec::new();
                let mut i: usize = 0;
                while i < items.len()
                    invariant
                        *m == JsonValue::Array(*items),
                        ds == m.deep()->Array_0,
                        ds.len() == items@.len(),
                        i <= items@.len(),
                        views(out@) == string_items(ds.take(i as int)),
                    decreases items@.len() - i,
                {
                    assert(ds[i as int] == items@[i as int].deep());
                    assert(ds.take(i + 1).drop_last() =~= ds.take(i as int));
                    match items[i].as_str() {
                        Some(s) => {
                            let mut t = String::new();
                            push_str(&mut t, s);
                            out.push(t);
                            assert(views(out@) =~= views(out@).drop_last().push(s@));
                        },
                        None => {},
                    }
                    i = i + 1;
                }
                assert(ds.take(i as int) =~= ds);
                Some(out)
            },
            None => None,
        },
        None => None,
    }
}

/// The string items of member `key` of `v`, none when it is not an array.
pub fn member_str_list_or_empty(v: &JsonValue, key: &str) -> (r: Vec<String>)
    ensures
        views(r@) == str_list_or_empty(v.deep(), key@),
{
    match member_str_list(v, key) {
        Some(l) => l,
        None => {
            let r: Vec<String> = Vec::new();
            assert(views(r@) =~= Seq::<Seq<char>>::empty());
            r
        },
    }
}

/// The entries of member `key` of `v` when it is an object, copied.
pub fn member_entries(v: &JsonValue, key: &str) -> (r: Vec<(String, JsonValue)>)
    ensures
        entry_views(r@) == object_member(v.deep(), key@),
{
    let mut out: Vec<(String, JsonValue)> = Vec::new();
    match v.get(key) {
        Some(m) => match m {
            JsonValue::Object(entries) => {
                let ghost ds = m.deep()->Object_0;
                let mut i: usize = 0;
                while i < entries.len()
                    invariant
                        *m == JsonValue::Object(*entries),
                        ds == m.deep()->Object_0,
                        ds.len() == entries@.len(),
                        i <= entries@.len(),
                        out@.len() == i,
                        forall|k: int| 0 <= k < i ==> (#[trigger] out@[k]).0@ == ds[k].0 && out@[k].1.deep() == ds[k].1,
                    decreases entries@.len() - i,
                {
                    assert(ds[i as int] == (entries@[i as int].0@, entries@[i as int].1.deep()));
                    let name = entries[i].0.clone();
                    let value = entries[i].1.duplicate();
                    out.push((name, value));
                    i = i + 1;
                }
                assert(entry_views(out@) =~= ds);
            },
            _ => {
                assert(entry_views(out@) =~= Seq::<(Seq<char>, JsonView)>::empty());
            },
        },
        None => {
            assert(entry_views(out@) =~= Seq::<(Seq<char>, JsonView)>::empty());
        },
    }
    out
}

/// An issue to create.
pub struct IssueDraft {
    pub project_key: String,
    pub summary: String,
    pub description: Option<String>,
    pub issue_type: String,
    pub assignee: Option<String>,
    pub priority: Option<String>,
    pub labels: Vec<String>,
    pub components: Vec<String>,
    pub fix_versions: Vec<String>,
    pub parent: Option<String>,
    /// Other fields, by field id, sent as given.
    pub custom_fields: Vec<(String, JsonValue)>,
}

/// The draft holds what manifest entry `e` gives for every field but the
/// project and the summary: the type defaults to `Task`, lists default to empty.
pub open spec fn draft_from_entry(d: IssueDraft, e: JsonView) -> bool {
    &&& opt_text(d.description) == str_member(e, "description"@)
    &&& d.issue_type@ == match str_member(e, "type"@) {
        Some(t) => t,
        None => "Task"@,
    }
    &&& opt_text(d.assignee) == str_member(e, "assignee"@)
    &&& opt_text(d.priority) == str_member(e, "priority"@)
    &&& views(d.labels@) == str_list_or_empty(e, "labels"@)
    &&& views(d.components@) == str_list_or_empty(e, "components"@)
    &&& views(d.fix_versions@) == str_list_or_empty(e, "fix_versions"@)
    &&& opt_text(d.parent) == str_member(e, "parent"@)
    &&& entry_views(d.custom_fields@) == object_member(e, "fields"@)
}

fn draft(entry: &JsonValue, project_key: String, summary: String) -> (r: IssueDraft)
    ensures
        draft_from_entry(r, entry.deep()),
        r.project_key@ == project_key@,
        r.summary@ == summary@,
{
    IssueDraft {
        project_key,
        summary,
        description: member_str(entry, "description"),
        issue_type: member_str_or(entry, "type", "Task"),
        assignee: member_str(entry, "assignee"),
        priority: member_str(entry, "priority"),
        labels: member_str_list_or_empty(entry, "labels"),
        components: member_str_list_or_empty(entry, "components"),
        fix_versions: member_str_list_or_empty(entry, "fix_versions"),
        parent: member_str(entry, "parent"),
        custom_fields: member_entries(entry, "fields"),
    }
}

/// Changes to an issue; `None` leaves a field as it is.
pub struct IssueChanges {
    pub summary: Option<String>,
    pub assignee: Option<String>,
    pub priority: Option<String>,
    pub labels: Option<Vec<String>>,
    pub components: Option<Vec<String>>,
}

/// The content of an optional list of strings.
pub open spec fn opt_list(o: Option<Vec<String>>) -> Option<Seq<Seq<char>>> {
    match o {
        Some(l) => Some(views(l@)),
        None => None,
    }
}

/// One operation of a batch manifest.
pub enum ManifestOp {
    /// Create an issue.
    Create(IssueDraft),
    /// Change an issue.
    Update { key: String, changes: IssueChanges },
    /// Move an issue through the transition named (or numbered) `to`.
    Transition { key: String, to: String },
    /// Archive an issue.
    Archive { key: String },
    /// An operation the batch does not know; it is skipped.
    Unknown,
}

/// The operation a batch entry asks for: its `op` member (`unknown` when
/// missing) and what the entry gives for it; missing texts read as empty.
pub open spec fn op_from_entry(name: Seq<char>, op: ManifestOp, e: JsonView) -> bool {
    &&& name == match str_member(e, "op"@) {
        Some(o) => o,
        None => "unknown"@,
    }
    &&& if name == "create"@ {
        op matches ManifestOp::Create(d) && draft_from_entry(d, e)
            && d.project_key@ == str_or_empty(e, "project"@) && d.summary@ == str_or_empty(e, "summary"@)
    } else if name == "update"@ {
        op matches ManifestOp::Update { key, changes } && key@ == str_or_empty(e, "key"@)
            && opt_text(changes.summary) == str_member(e, "summary"@)
            && opt_text(changes.assignee) == str_member(e, "assignee"@)
            && opt_text(changes.priority) == str_member(e, "priority"@)
            && opt_list(changes.labels) == str_list_member(e, "labels"@)
            && opt_list(changes.components) == str_list_member(e, "components"@)
    } else if name == "transition"@ {
        op matches ManifestOp::Transition { key, to } && key@ == str_or_empty(e, "key"@)
            && to@ == str_or_empty(e, "to"@)
    } else if name == "archive"@ {
        op matches ManifestOp::Archive { key } && key@ == str_or_empty(e, "key"@)
    } else {
        op is Unknown
    }
}

/// The string value of member `key`, or empty.
pub open spec fn str_or_empty(e: JsonView, key: Seq<char>) -> Seq<char> {
    match str_member(e, key) {
        Some(s) => s,
        None => Seq::empty(),
    }
}

/// Reads one entry of a batch manifest: the operation's name and the operation.
pub fn manifest_op(entry: &JsonValue) -> (r: (String, ManifestOp))
    ensures
        op_from_entry(r.0@, r.1, entry.deep()),
{
    let name = member_str_or(entry, "op", "unknown");
    if str_eq(name.as_str(), "create") {
        let project = member_str_or_empty(entry, "project");
        let summary = member_str_or_empty(entry, "summary");
        let d = draft(entry, project, summary);
        (name, ManifestOp::Create(d))
    } else if str_eq(name.as_str(), "update") {
        let key = member_str_or_empty(entry, "key");
        let changes = IssueChanges {
            summary: member_str(entry, "summary"),
            assignee: member_str(entry, "assignee"),
            priority: member_str(entry, "priority"),
            labels: member_str_list(entry, "labels"),
            components: member_str_list(entry, "components"),
        };
        (name, ManifestOp::Update { key, changes })
    } else if str_eq(name.as_str(), "transition") {
        let key = member_str_or_empty(entry, "key");
        let to = member_str_or_empty(entry, "to");
        (name, ManifestOp::Transition { key, to })
    } else if str_eq(name.as_str(), "archive") {
        let key = member_str_or_empty(entry, "key");
        (name, ManifestOp::Archive { key })
    } else {
        (name, ManifestOp::Unknown)
    }
}

/// What became of one operation of a batch.
pub struct OpOutcome {
    pub op: String,
    pub key: String,
    pub status: String,
    /// Why the operation failed or was skipped.
    pub error: Option<String>,
}

/// The outcome of an operation that succeeded with `status`.
pub fn succeeded(op: &str, key: &str, status: &str) -> (r: OpOutcome)
    ensures
        r.op@ == op@,
        r.key@ == key@,
        r.status@ == status@,
        r.error is None,
{
    let mut o = String::new();
    push_str(&mut o, op);
    let mut k = String::new();
    push_str(&mut k, key);
    let mut s = String::new();
    push_str(&mut s, status);
    OpOutcome { op: o, key: k, status: s, error: None }
}

/// The outcome of an operation that failed with `error`.
pub fn failed(op: &str, key: &str, error: String) -> (r: OpOutcome)
    ensures
        r.op@ == op@,
        r.key@ == key@,
        r.status@ == "failed"@,
        r.error matches Some(e) && e@ == error@,
{
    let mut o = String::new();
    push_str(&mut o, op);
    let mut k = String::new();
    push_str(&mut k, key);
    let mut s = String::new();
    push_str(&mut s, "failed");
    OpOutcome { op: o, key: k, status: s, error: Some(error) }
}

/// The outcome of an operation the batch does not know.
pub fn skipped(op: &str) -> (r: OpOutcome)
    ensures
        r.op@ == op@,
        r.key@ == Seq::<char>::empty(),
        r.status@ == "skipped"@,
        r.error matches Some(e) && e@ == "Unknown op: '"@ + op@ + "'"@,
{
    let mut o = String::new();
    push_str(&mut o, op);
    let mut s = String::new();
    push_str(&mut s, "skipped");
    let mut e = String::new();
    push_str(&mut e, "Unknown op: '");
    push_str(&mut e, op);
    push_str(&mut e, "'");
    OpOutcome { op: o, key: String::new(), status: s, error: Some(e) }
}

/// The status recorded for a transition to `to`.
pub fn transitioned_status(to: &str) -> (r: String)
    ensures
        r@ == "transitioned to '"@ + to@ + "'"@,
{
    let mut s = String::new();
    push_str(&mut s, "transitioned to '");
    push_str(&mut s, to);
    push_str(&mut s, "'");
    s
}

/// A transition of an issue: its id and name.
pub struct TransitionChoice {
    pub id: String,
    pub name: String,
}

/// The position of the first transition whose id is `to`, or whose name is `to`
/// in any ASCII case.
pub open spec fn transition_index(ts: Seq<TransitionChoice>, to: Seq<char>) -> Option<int>
    decreases ts.len(),
{
    if ts.len() == 0 {
        None
    } else if ts[0].id@ == to || ascii_lowercase(ts[0].name@) == ascii_lowercase(to) {
        Some(0)
    } else {
        match transition_index(ts.drop_first(), to) {
            Some(i) => Some(i + 1),
            None => None,
        }
    }
}

/// The id of the transition a batch entry asks for.
pub fn find_transition(transitions: &Vec<TransitionChoice>, to: &str) -> (r: Result<String, String>)
    ensures
        match transition_index(transitions@, to@) {
            Some(i) => r matches Ok(id) && id@ == transitions@[i].id@,
            None => r matches Err(m) && m@ == "Transition '"@ + to@ + "' not found"@,
        },
{
    let lower_to = ascii_lowercase_str(to);
    let mut i: usize = 0;
    assert(transitions@.skip(0) =~= transitions@);
    while i < transitions.len()
        invariant
            i <= transitions@.len(),
            lower_to@ == ascii_lowercase(to@),
            match transition_index(transitions@, to@) {
                Some(j) => match transition_index(transitions@.skip(i as int), to@) {
                    Some(k) => j == k + i,
                    None => false,
                },
                None => transition_index(transitions@.skip(i as int), to@) is None,
            },
        decreases transitions@.len() - i,
    {
        let t = &transitions[i];
        let ghost rest = transitions@.skip(i as int);
        assert(rest[0] == transitions@[i as int]);
        let lower_name = ascii_lowercase_str(t.name.as_str());
        if str_eq(t.id.as_str(), to) || str_eq(lower_name.as_str(), lower_to.as_str()) {
            return Ok(t.id.clone());
        }
        assert(rest.drop_first() =~= transitions@.skip(i + 1));
        i = i + 1;
    }
    let mut m = String::new();
    push_str(&mut m, "Transition '");
    push_str(&mut m, to);
    push_str(&mut m, "' not found");
    Err(m)
}

/// How many outcomes carry no error.
pub open spec fn success_count(rs: Seq<OpOutcome>) -> nat
    decreases rs.len(),
{
    if rs.len() == 0 {
        0
    } else {
        success_count(rs.drop_last()) + if rs.last().error is None {
            1nat
        } else {
            0nat
        }
    }
}

/// The line printed for one outcome.
pub open spec fn outcome_line(r: OpOutcome) -> Seq<char> {
    let key = if r.key@.len() == 0 {
        Seq::<char>::empty()
    } else {
        " "@ + r.key@
    };
    match r.error {
        Some(e) => "  ✗ "@ + r.op@ + key + ": "@ + e@,
        None => "  ✓ "@ + r.op@ + key + ": "@ + r.status@,
    }
}

/// The report of a batch: how many operations completed, then a line per
/// operation.
pub open spec fn batch_report(rs: Seq<OpOutcome>) -> Seq<Seq<char>> {
    seq!["✓ "@ + decimal(success_count(rs)) + "/"@ + decimal(rs.len()) + " operations completed"@]
        + rs.map_values(|r: OpOutcome| outcome_line(r))
}

/// The report printed after a batch.
pub fn batch_report_lines(results: &Vec<OpOutcome>) -> (r: Vec<String>)
    ensures
        views(r@) == batch_report(results@),
{
    let mut ok: u64 = 0;
    let mut i: usize = 0;
    while i < results.len()
        invariant
            i <= results@.len(),
            ok == success_count(results@.take(i as int)),
            ok <= i,
        decreases results@.len() - i,
    {
        assert(results@.take(i + 1).drop_last() =~= results@.take(i as int));
        if results[i].error.is_none() {
            ok = ok + 1;
        }
        i = i + 1;
    }
    assert(results@.take(i as int) =~= results@);
    let mut head = String::new();
    push_str(&mut head, "✓ ");
    push_decimal(&mut head, ok);
    push_str(&mut head, "/");
    push_decimal(&mut head, results.len() as u64);
    push_str(&mut head, " operations completed");
    let mut lines: Vec<String> = Vec::new();
    lines.push(head);
    let ghost tail = results@.map_values(|r: OpOutcome| outcome_line(r));
    let mut j: usize = 0;
    while j < results.len()
        invariant
            j <= results@.len(),
            lines@.len() == j + 1,
            lines@[0]@ == "✓ "@ + decimal(success_count(results@)) + "/"@ + decimal(results@.len()) + " operations completed"@,
            tail == results@.map_values(|r: OpOutcome| outcome_line(r)),
            forall|k: int| 0 <= k < j ==> #[trigger] lines@[k + 1]@ == tail[k],
        decreases results@.len() - j,
    {
        let r = &results[j];
        let mut l = String::new();
        match &r.error {
            Some(e) => push_str(&mut l, "  ✗ "),
            None => push_str(&mut l, "  ✓ "),
        }
        push_str(&mut l, r.op.as_str());
        if r.key.unicode_len() > 0 {
            push_str(&mut l, " ");
            push_str(&mut l, r.key.as_str());
        }
        push_str(&mut l, ": ");
        match &r.error {
            Some(e) => push_str(&mut l, e.as_str()),
            None => push_str(&mut l, r.status.as_str()),
        }
        assert(l@ =~= outcome_line(*r));
        lines.push(l);
        j = j + 1;
    }
    let ghost want = batch_report(results@);
    assert(views(lines@) =~= want) by {
        assert forall|k: int| 1 <= k < lines@.len() implies #[trigger] views(lines@)[k] == want[k] by {
            assert(lines@[(k - 1) + 1]@ == tail[k - 1]);
        }
    }
    lines
}

/// Reads one entry of a bulk-create manifest: the project and the summary are
/// required.
pub fn bulk_entry(entry: &JsonValue) -> (r: Result<IssueDraft, String>)
    ensures
        match (str_member(entry.deep(), "project"@), str_member(entry.deep(), "summary"@)) {
            (Some(p), Some(s)) => r matches Ok(d) && draft_from_entry(d, entry.deep())
                && d.project_key@ == p && d.summary@ == s,
            (None, _) => r matches Err(m) && m@ == "Each manifest entry must have a \"project\" field"@,
            (Some(_), None) => r matches Err(m) && m@ == "Each manifest entry must have a \"summary\" field"@,
        },
{
    let project = match member_str(entry, "project") {
        Some(p) => p,
        None => {
            let mut m = String::new();
            push_str(&mut m, "Each manifest entry must have a \"project\" field");
            return Err(m);
        },
    };
    let summary = match member_str(entry, "summary") {
        Some(s) => s,
        None => {
            let mut m = String::new();
            push_str(&mut m, "Each manifest entry must have a \"summary\" field");
            return Err(m);
        },
    };
    Ok(draft(entry, project, summary))
}

/// The line kept for an issue a bulk create made.
pub fn created_line(key: &str, summary: &str) -> (r: String)
    ensures
        r@ == key@ + " — "@ + summary@,
{
    let mut l = String::new();
    push_str(&mut l, key);
    push_str(&mut l, " — ");
    push_str(&mut l, summary);
    l
}

/// The line kept for an issue a bulk create could not make.
pub fn failed_line(summary: &str, error: &str) -> (r: String)
    ensures
        r@ == "\""@ + summary@ + "\" failed: "@ + error@,
{
    let mut l = String::new();
    push_str(&mut l, "\"");
    push_str(&mut l, summary);
    push_str(&mut l, "\" failed: ");
    push_str(&mut l, error);
    l
}

/// The report of a bulk create over `total` entries.
pub open spec fn bulk_report(created: Seq<Seq<char>>, failed: Seq<Seq<char>>, total: nat) -> Seq<Seq<char>> {
    let head = seq!["✓ Created "@ + decimal(created.len()) + "/"@ + decimal(total) + " issues:"@]
        + created.map_values(|c: Seq<char>| "  "@ + c);
    if failed.len() == 0 {
        head
    } else {
        head + seq!["✗ Failed ("@ + decimal(failed.len()) + "):"@] + failed.map_values(|f: Seq<char>| "  "@ + f)
    }
}

/// Appends each item, indented by two spaces.
pub fn indented(lines: &mut Vec<String>, items: &Vec<String>)
    ensures
        views(final(lines)@) == views(old(lines)@) + views(items@).map_values(|c: Seq<char>| "  "@ + c),
{
    let ghost start = views(lines@);
    let ghost want = views(items@).map_values(|c: Seq<char>| "  "@ + c);
    let mut i: usize = 0;
    while i < items.len()
        invariant
            i <= items@.len(),
            want == views(items@).map_values(|c: Seq<char>| "  "@ + c),
            lines@.len() == start.len() + i,
            forall|k: int| 0 <= k < start.len() ==> #[trigger] lines@[k]@ == start[k],
            forall|k: int| 0 <= k < i ==> #[trigger] lines@[start.len() + k]@ == want[k],
        decreases items@.len() - i,
    {
        let mut l = String::new();
        push_str(&mut l, "  ");
        push_str(&mut l, items[i].as_str());
        assert(l@ == want[i as int]);
        lines.push(l);
        i = i + 1;
    }
    assert(views(lines@) =~= start + want) by {
        assert forall|k: int| start.len() <= k < lines@.len() implies #[trigger] views(lines@)[k] == (start + want)[k] by {
            assert(lines@[start.len() + (k - start.len())]@ == want[k - start.len()]);
        }
    }
}

/// The report printed after a bulk create.
pub fn bulk_report_lines(created: &Vec<String>, failed: &Vec<String>, total: usize) -> (r: Vec<String>)
    ensures
        views(r@) == bulk_report(views(created@), views(failed@), total as nat),
{
    let mut lines: Vec<String> = Vec::new();
    let mut head = String::new();
    push_str(&mut head, "✓ Created ");
    push_decimal(&mut head, created.len() as u64);
    push_str(&mut head, "/");
    push_decimal(&mut head, total as u64);
    push_str(&mut head, " issues:");
    lines.push(head);
    assert(views(lines@) =~= seq!["✓ Created "@ + decimal(views(created@).len()) + "/"@ + decimal(total as nat) + " issues:"@]);
    indented(&mut lines, created);
    if failed.len() > 0 {
        let mut f = String::new();
        push_str(&mut f, "✗ Failed (");
        push_decimal(&mut f, failed.len() as u64);
        push_str(&mut f, "):");
        let ghost before = views(lines@);
        lines.push(f);
        assert(views(lines@) =~= before + seq!["✗ Failed ("@ + decimal(views(failed@).len()) + "):"@]);
        indented(&mut lines, failed);
    }
    lines
}

} // verus!

//! Columns of the TUI issue table: the built-in columns, the text of each cell,
//! and how a status is coloured.
use vstd::prelude::*;

use crate::model::{json_get, json_str, Issue, JsonValue, JsonView};
use crate::text::{
    byte_len, byte_prefix, contains, is_boundary, join, lemma_byte_len_grows, lowercase,
    push_str, str_contains, str_eq, to_lowercase, views,
};

verus! {

/// How wide a column is laid out.
#[derive(Clone, Copy, Debug, PartialEq, Eq, Structural)]
pub enum Width {
    /// Exactly this many cells.
    Length(u16),
    /// At least this many cells.
    Min(u16),
}

/// A column of the issue table.
pub struct ColumnSpec {
    pub id: String,
    pub label: String,
    pub width: Width,
}

/// The ids of the built-in columns, in display order.
pub open spec fn builtin_ids() -> Seq<Seq<char>> {
    seq![
        "key"@,
        "issuetype"@,
        "priority"@,
        "status"@,
        "assignee"@,
        "reporter"@,
        "project"@,
        "created"@,
        "updated"@,
        "labels"@,
        "components"@,
        "fixVersions"@,
        "summary"@,
    ]
}

/// The label and width of the built-in column with id `id`.
pub open spec fn builtin_column(id: Seq<char>) -> Option<(Seq<char>, Width)> {
    if id == "key"@ {
        Some(("Key"@, Width::Length(12)))
    } else if id == "issuetype"@ {
        Some(("Type"@, Width::Length(8)))
    } else if id == "priority"@ {
        Some(("Priority"@, Width::Length(8)))
    } else if id == "status"@ {
        Some(("Status"@, Width::Length(14)))
    } else if id == "assignee"@ {
        Some(("Assignee"@, Width::Length(16)))
    } else if id == "reporter"@ {
        Some(("Reporter"@, Width::Length(16)))
    } else if id == "project"@ {
        Some(("Project"@, Width::Length(10)))
    } else if id == "created"@ {
        Some(("Created"@, Width::Length(11)))
    } else if id == "updated"@ {
        Some(("Updated"@, Width::Length(11)))
    } else if id == "labels"@ {
        Some(("Labels"@, Width::Min(14)))
    } else if id == "components"@ {
        Some(("Components"@, Width::Min(14)))
    } else if id == "fixVersions"@ {
        Some(("Fix Versions"@, Width::Min(14)))
    } else if id == "summary"@ {
        Some(("Summary"@, Width::Min(24)))
    } else {
        None
    }
}

fn builtin_lookup(id: &str) -> (r: Option<(&'static str, Width)>)
    ensures
        match r {
            Some((l, w)) => builtin_column(id@) == Some((l@, w)),
            None => builtin_column(id@) is None,
        },
{
    if str_eq(id, "key") {
        Some(("Key", Width::Length(12)))
    } else if str_eq(id, "issuetype") {
        Some(("Type", Width::Length(8)))
    } else if str_eq(id, "priority") {
        Some(("Priority", Width::Length(8)))
    } else if str_eq(id, "status") {
        Some(("Status", Width::Length(14)))
    } else if str_eq(id, "assignee") {
        Some(("Assignee", Width::Length(16)))
    } else if str_eq(id, "reporter") {
        Some(("Reporter", Width::Length(16)))
    } else if str_eq(id, "project") {
        Some(("Project", Width::Length(10)))
    } else if str_eq(id, "created") {
        Some(("Created", Width::Length(11)))
    } else if str_eq(id, "updated") {
        Some(("Updated", Width::Length(11)))
    } else if str_eq(id, "labels") {
        Some(("Labels", Width::Min(14)))
    } else if str_eq(id, "components") {
        Some(("Components", Width::Min(14)))
    } else if str_eq(id, "fixVersions") {
        Some(("Fix Versions", Width::Min(14)))
    } else if str_eq(id, "summary") {
        Some(("Summary", Width::Min(24)))
    } else {
        None
    }
}

impl ColumnSpec {
    /// The column with id `id`: a built-in one, or a field column labelled by
    /// its id, at least 14 cells wide.
    pub fn for_id(id: &str) -> (r: ColumnSpec)
        ensures
            r.id@ == id@,
            match builtin_column(id@) {
                Some((l, w)) => r.label@ == l && r.width == w,
                None => r.label@ == id@ && r.width == Width::Min(14),
            },
    {
        let mut i = String::new();
        push_str(&mut i, id);
        match builtin_lookup(id) {
            Some((l, w)) => {
                let mut label = String::new();
                push_str(&mut label, l);
                ColumnSpec { id: i, label, width: w }
            },
            None => {
                let mut label = String::new();
                push_str(&mut label, id);
                ColumnSpec { id: i, label, width: Width::Min(14) }
            },
        }
    }

    /// The column of a field: a built-in one when the field's id is one, else
    /// labelled by the field's name, at least 14 cells wide.
    pub fn from_field(field_id: &str, field_name: &str) -> (r: ColumnSpec)
        ensures
            r.id@ == field_id@,
            match builtin_column(field_id@) {
                Some((l, w)) => r.label@ == l && r.width == w,
                None => r.label@ == field_name@ && r.width == Width::Min(14),
            },
    {
        let mut i = String::new();
        push_str(&mut i, field_id);
        match builtin_lookup(field_id) {
            Some((l, w)) => {
                let mut label = String::new();
                push_str(&mut label, l);
                ColumnSpec { id: i, label, width: w }
            },
            None => {
                let mut label = String::new();
                push_str(&mut label, field_name);
                ColumnSpec { id: i, label, width: Width::Min(14) }
            },
        }
    }
}

/// The ids of the built-in columns, in display order.
pub fn default_column_ids() -> (r: Vec<String>)
    ensures
        views(r@) == builtin_ids(),
{
    let ids: Vec<&str> = vec![
        "key",
        "issuetype",
        "priority",
        "status",
        "assignee",
        "reporter",
        "project",
        "created",
        "updated",
        "labels",
        "components",
        "fixVersions",
        "summary",
    ];
    let mut out: Vec<String> = Vec::new();
    let mut i: usize = 0;
    while i < ids.len()
        invariant
            i <= ids@.len(),
            ids@.map_values(|s: &str| s@) == builtin_ids(),
            views(out@) == builtin_ids().take(i as int),
        decreases ids@.len() - i,
    {
        let mut s = String::new();
        push_str(&mut s, ids[i]);
        let ghost before = views(out@);
        assert(ids@[i as int]@ == builtin_ids()[i as int]);
        out.push(s);
        i = i + 1;
        assert(views(out@) =~= before.push(builtin_ids()[i - 1]));
        assert(builtin_ids().take(i as int) =~= builtin_ids().take(i - 1).push(builtin_ids()[i - 1]));
    }
    assert(builtin_ids().take(i as int) =~= builtin_ids());
    out
}

/// The labels of the columns.
pub open spec fn column_labels(cs: Seq<ColumnSpec>) -> Seq<Seq<char>> {
    cs.map_values(|c: ColumnSpec| c.label@)
}

/// The labels of the columns, separated by commas.
pub fn format_column_summary(columns: &Vec<ColumnSpec>) -> (r: String)
    ensures
        r@ == join(column_labels(columns@), ", "@),
{
    let mut labels: Vec<String> = Vec::new();
    let mut i: usize = 0;
    while i < columns.len()
        invariant
            i <= columns@.len(),
            views(labels@) == column_labels(columns@).take(i as int),
        decreases columns@.len() - i,
    {
        let ghost before = views(labels@);
        labels.push(columns[i].label.clone());
        i = i + 1;
        assert(views(labels@) =~= before.push(columns@[i - 1].label@));
        assert(column_labels(columns@).take(i as int) =~= column_labels(columns@).take(i - 1).push(columns@[i - 1].label@));
    }
    assert(column_labels(columns@).take(i as int) =~= column_labels(columns@));
    crate::text::join_strings(&labels, ", ")
}

/// The colour a status is shown in.
#[derive(Clone, Copy, Debug, PartialEq, Eq, Structural)]
pub enum StatusColor {
    Green,
    Yellow,
    Red,
    White,
}

/// Done-like statuses are green, in-progress ones yellow, blocked ones red.
pub open spec fn status_color_of(status: Seq<char>) -> StatusColor {
    let s = lowercase(status);
    if contains(s, "done"@) || contains(s, "closed"@) || contains(s, "resolved"@) {
        StatusColor::Green
    } else if contains(s, "progress"@) || contains(s, "review"@) {
        StatusColor::Yellow
    } else if contains(s, "blocked"@) || contains(s, "impediment"@) {
        StatusColor::Red
    } else {
        StatusColor::White
    }
}

/// Status colours: a status whose lower-cased text mentions `done`, `closed` or
/// `resolved` is green; otherwise one mentioning `progress` or `review` is
/// yellow; otherwise one mentioning `blocked` or `impediment` is red; any other
/// status is white.
pub proof fn law_status_colors(status: Seq<char>)
    ensures
        ({
            let l = lowercase(status);
            let done = contains(l, "done"@) || contains(l, "closed"@) || contains(l, "resolved"@);
            let busy = contains(l, "progress"@) || contains(l, "review"@);
            let stuck = contains(l, "blocked"@) || contains(l, "impediment"@);
            &&& done ==> status_color_of(status) == StatusColor::Green
            &&& (!done && busy) ==> status_color_of(status) == StatusColor::Yellow
            &&& (!done && !busy && stuck) ==> status_color_of(status) == StatusColor::Red
            &&& (!done && !busy && !stuck) ==> status_color_of(status) == StatusColor::White
        }),
{
}

/// The colour a status is shown in.
pub fn status_color(status: &str) -> (r: StatusColor)
    ensures
        r == status_color_of(status@),
{
    let s = to_lowercase(status);
    let t = s.as_str();
    if str_contains(t, "done") || str_contains(t, "closed") || str_contains(t, "resolved") {
        StatusColor::Green
    } else if str_contains(t, "progress") || str_contains(t, "review") {
        StatusColor::Yellow
    } else if str_contains(t, "blocked") || str_contains(t, "impediment") {
        StatusColor::Red
    } else {
        StatusColor::White
    }
}

/// The members of an object tried, in order, for its display text.
pub open spec fn display_keys() -> Seq<Seq<char>> {
    seq!["displayName"@, "name"@, "value"@, "key"@, "emailAddress"@]
}

/// The first non-empty text among the display members of an object's entries.
pub open spec fn object_label_from(entries: Seq<(Seq<char>, JsonView)>, keys: Seq<Seq<char>>) -> Option<Seq<char>>
    decreases keys.len(),
{
    if keys.len() == 0 {
        None
    } else {
        match json_str(crate::model::entry_lookup(entries, keys[0])) {
            Some(s) => if s.len() > 0 {
                Some(s)
            } else {
                object_label_from(entries, keys.drop_first())
            },
            None => object_label_from(entries, keys.drop_first()),
        }
    }
}

/// The text `true` or `false`.
pub open spec fn bool_text(b: bool) -> Seq<char> {
    if b {
        "true"@
    } else {
        "false"@
    }
}

/// The text of a JSON value inside a list: texts, numbers and booleans as
/// written, objects by their display member, anything else empty.
pub open spec fn json_scalar_of(v: JsonView) -> Seq<char> {
    match v {
        JsonView::Str(s) => s,
        JsonView::Number(n) => n,
        JsonView::Bool(b) => bool_text(b),
        JsonView::Object(entries) => match object_label_from(entries, display_keys()) {
            Some(s) => s,
            None => Seq::empty(),
        },
        _ => Seq::empty(),
    }
}

/// The text of a field's value in a cell; `-` stands for nothing.
pub open spec fn json_display_of(v: Option<JsonView>) -> Seq<char> {
    match v {
        None => "-"@,
        Some(JsonView::Null) => "-"@,
        Some(JsonView::Str(s)) => if s.len() == 0 {
            "-"@
        } else {
            s
        },
        Some(JsonView::Bool(b)) => bool_text(b),
        Some(JsonView::Number(n)) => n,
        Some(JsonView::Array(items)) => {
            let joined = join(items.map_values(|i: JsonView| json_scalar_of(i)), ", "@);
            if joined.len() == 0 {
                "-"@
            } else {
                joined
            }
        },
        Some(JsonView::Object(entries)) => match object_label_from(entries, display_keys()) {
            Some(s) => s,
            None => "-"@,
        },
    }
}

fn object_label(v: &JsonValue) -> (r: Option<String>)
    requires
        v.deep() is Object,
    ensures
        match r {
            Some(s) => object_label_from(v.deep()->Object_0, display_keys()) == Some(s@),
            None => object_label_from(v.deep()->Object_0, display_keys()) is None,
        },
{
    let keys: Vec<&str> = vec!["displayName", "name", "value", "key", "emailAddress"];
    let ghost ks = keys@.map_values(|k: &str| k@);
    assert(ks =~= display_keys());
    let ghost entries = v.deep()->Object_0;
    let mut i: usize = 0;
    assert(display_keys().skip(0) =~= display_keys());
    while i < keys.len()
        invariant
            i <= keys@.len(),
            keys@.len() == display_keys().len(),
            forall|k: int| 0 <= k < keys@.len() ==> #[trigger] keys@[k]@ == display_keys()[k],
            v.deep() is Object,
            entries == v.deep()->Object_0,
            object_label_from(entries, display_keys()) == object_label_from(entries, display_keys().skip(i as int)),
        decreases keys@.len() - i,
    {
        let ghost rest = display_keys().skip(i as int);
        assert(rest[0] == keys@[i as int]@);
        assert(rest.drop_first() =~= display_keys().skip(i + 1));
        match v.get(keys[i]) {
            Some(m) => match m.as_str() {
                Some(s) => {
                    if s.unicode_len() > 0 {
                        let mut t = String::new();
                        push_str(&mut t, s);
                        return Some(t);
                    }
                },
                None => {},
            },
            None => {},
        }
        i = i + 1;
    }
    None
}

fn bool_string(b: bool) -> (r: String)
    ensures
        r@ == bool_text(b),
{
    let mut s = String::new();
    if b {
        push_str(&mut s, "true");
    } else {
        push_str(&mut s, "false");
    }
    s
}

/// The text of a JSON value inside a list.
pub fn json_scalar(value: &JsonValue) -> (r: String)
    ensures
        r@ == json_scalar_of(value.deep()),
{
    match value {
        JsonValue::Str(s) => s.clone(),
        JsonValue::Number(n) => n.clone(),
        JsonValue::Bool(b) => bool_string(*b),
        JsonValue::Object(_) => match object_label(value) {
            Some(s) => s,
            None => String::new(),
        },
        _ => String::new(),
    }
}

fn dash() -> (r: String)
    ensures
        r@ == "-"@,
{
    let mut s = String::new();
    push_str(&mut s, "-");
    s
}

/// The text of a field's value in a cell.
pub fn json_to_display(value: Option<&JsonValue>) -> (r: String)
    ensures
        r@ == json_display_of(
            match value {
                Some(v) => Some(v.deep()),
                None => None,
            },
        ),
{
    match value {
        None => dash(),
        Some(v) => match v {
            JsonValue::Null => dash(),
            JsonValue::Str(s) => {
                if s.unicode_len() == 0 {
                    dash()
                } else {
                    s.clone()
                }
            },
            JsonValue::Bool(b) => bool_string(*b),
            JsonValue::Number(n) => n.clone(),
            JsonValue::Array(items) => {
                let ghost ds = v.deep()->Array_0;
                let mut parts: Vec<String> = Vec::new();
                let mut i: usize = 0;
                while i < items.len()
                    invariant
                        *v == JsonValue::Array(*items),
                        ds == v.deep()->Array_0,
                        ds.len() == items@.len(),
                        i <= items@.len(),
                        views(parts@) == ds.take(i as int).map_values(|x: JsonView| json_scalar_of(x)),
                    decreases items@.len() - i,
                {
                    assert(ds[i as int] == items@[i as int].deep());
                    let ghost before = views(parts@);
                    let p = json_scalar(&items[i]);
                    let ghost pv = p@;
                    parts.push(p);
                    i = i + 1;
                    assert(views(parts@) =~= before.push(pv));
                    assert(ds.take(i as int).map_values(|x: JsonView| json_scalar_of(x)) =~= ds.take(i - 1).map_values(|x: JsonView| json_scalar_of(x)).push(json_scalar_of(ds[i - 1])));
                }
                assert(ds.take(i as int) =~= ds);
                let joined = crate::text::join_strings(&parts, ", ");
                if joined.unicode_len() == 0 {
                    dash()
                } else {
                    joined
                }
            },
            JsonValue::Object(_) => match object_label(v) {
                Some(s) => s,
                None => dash(),
            },
        },
    }
}

/// The texts of an array member of `fields`: its text items joined by
/// commas, or `-` when there are none.
pub open spec fn joined_texts(fields: JsonView, field: Seq<char>) -> Seq<char> {
    match json_get(fields, field) {
        Some(JsonView::Array(items)) => {
            let j = join(crate::manifest::string_items(items), ", "@);
            if j.len() == 0 {
                "-"@
            } else {
                j
            }
        },
        _ => "-"@,
    }
}

/// The names of an array member of `fields`: the `name` of each item joined by
/// commas, or `-` when there are none.
pub open spec fn joined_names(fields: JsonView, field: Seq<char>) -> Seq<char> {
    match json_get(fields, field) {
        Some(JsonView::Array(items)) => {
            let j = join(crate::versions::string_members(items, "name"@), ", "@);
            if j.len() == 0 {
                "-"@
            } else {
                j
            }
        },
        _ => "-"@,
    }
}

/// The text items of an array field of an issue, joined by commas.
pub fn join_string_array(issue: &Issue, field: &str) -> (r: String)
    ensures
        r@ == joined_texts(issue.fields.deep(), field@),
{
    match crate::manifest::member_str_list(&issue.fields, field) {
        Some(items) => {
            let j = crate::text::join_strings(&items, ", ");
            if j.unicode_len() == 0 {
                dash()
            } else {
                j
            }
        },
        None => dash(),
    }
}

/// The `name` texts of the items of member `key` of `v`, when it is an array.
pub fn member_names(v: &JsonValue, key: &str) -> (r: Option<Vec<String>>)
    ensures
        match r {
            Some(names) => json_get(v.deep(), key@) matches Some(JsonView::Array(items)) && views(names@)
                == crate::versions::string_members(items, "name"@),
            None => !(json_get(v.deep(), key@) matches Some(JsonView::Array(_))),
        },
{
    match v.get(key) {
        Some(list) => match list.as_array() {
            Some(items) => {
                let ghost ds = list.deep()->Array_0;
                let mut names: Vec<String> = Vec::new();
                let mut i: usize = 0;
                while i < items.len()
                    invariant
                        *list == JsonValue::Array(*items),
                        ds == list.deep()->Array_0,
                        ds.len() == items@.len(),
                        i <= items@.len(),
                        views(names@) == crate::versions::string_members(ds.take(i as int), "name"@),
                    decreases items@.len() - i,
                {
                    assert(ds[i as int] == items@[i as int].deep());
                    assert(ds.take(i + 1).drop_last() =~= ds.take(i as int));
                    match items[i].get("name") {
                        Some(n) => match n.as_str() {
                            Some(s) => {
                                let mut t = String::new();
                                push_str(&mut t, s);
                                names.push(t);
                                assert(views(names@) =~= views(names@).drop_last().push(s@));
                            },
                            None => {},
                        },
                        None => {},
                    }
                    i = i + 1;
                }
                assert(ds.take(i as int) =~= ds);
                Some(names)
            },
            None => None,
        },
        None => None,
    }
}

/// The names of the items of an array field of an issue, joined by commas.
pub fn join_named_array(issue: &Issue, field: &str) -> (r: String)
    ensures
        r@ == joined_names(issue.fields.deep(), field@),
{
    match member_names(&issue.fields, field) {
        Some(names) => {
            let j = crate::text::join_strings(&names, ", ");
            if j.unicode_len() == 0 {
                dash()
            } else {
                j
            }
        },
        None => dash(),
    }
}

/// The first ten bytes of `s` when they end between two characters
/// (`str::get(..10)`), else all of `s`.
pub open spec fn date_part(s: Seq<char>) -> Seq<char> {
    if is_boundary(s, 10) {
        s.take(choose|k: int| 0 <= k <= s.len() && byte_len(#[trigger] s.take(k)) == 10)
    } else {
        s
    }
}

proof fn lemma_unique_cut(s: Seq<char>, j: int, k: int)
    requires
        0 <= j <= s.len(),
        0 <= k <= s.len(),
        byte_len(s.take(j)) == byte_len(s.take(k)),
    ensures
        j == k,
{
    if j < k {
        lemma_byte_len_grows(s, j, k);
    } else if k < j {
        lemma_byte_len_grows(s, k, j);
    }
}

/// The date part of a timestamp.
pub fn short_date(s: &str) -> (r: String)
    ensures
        r@ == date_part(s@),
{
    match byte_prefix(s, 10) {
        Some(p) => {
            proof {
                let j = choose|j: int| 0 <= j <= s@.len() && byte_len(#[trigger] s@.take(j)) == 10 && p@ == s@.take(j);
                let k = choose|k: int| 0 <= k <= s@.len() && byte_len(#[trigger] s@.take(k)) == 10;
                lemma_unique_cut(s@, j, k);
            }
            p
        },
        None => {
            let mut t = String::new();
            push_str(&mut t, s);
            t
        },
    }
}

/// The text of column `id` for an issue: the issue's own fields for the
/// built-in columns (`-` for a missing priority, assignee or reporter), the
/// field's value for any other column.
pub open spec fn cell_text_of(issue: Issue, id: Seq<char>) -> Seq<char> {
    let or_dash = |o: Option<String>| match o {
        Some(s) => s@,
        None => "-"@,
    };
    if id == "key"@ {
        issue.key@
    } else if id == "issuetype"@ {
        issue.issue_type@
    } else if id == "priority"@ {
        or_dash(issue.priority)
    } else if id == "status"@ {
        issue.status@
    } else if id == "assignee"@ {
        or_dash(issue.assignee)
    } else if id == "reporter"@ {
        or_dash(issue.reporter)
    } else if id == "project"@ {
        issue.project_key@
    } else if id == "created"@ {
        date_part(issue.created@)
    } else if id == "updated"@ {
        date_part(issue.updated@)
    } else if id == "labels"@ {
        joined_texts(issue.fields.deep(), "labels"@)
    } else if id == "components"@ {
        joined_names(issue.fields.deep(), "components"@)
    } else if id == "fixVersions"@ {
        joined_names(issue.fields.deep(), "fixVersions"@)
    } else if id == "summary"@ {
        issue.summary@
    } else {
        json_display_of(json_get(issue.fields.deep(), id))
    }
}

fn text_or_dash(o: &Option<String>) -> (r: String)
    ensures
        r@ == match o {
            Some(s) => s@,
            None => "-"@,
        },
{
    match o {
        Some(s) => s.clone(),
        None => dash(),
    }
}

/// The text shown in column `id` for an issue.
pub fn cell_text(issue: &Issue, id: &str) -> (r: String)
    ensures
        r@ == cell_text_of(*issue, id@),
{
    if str_eq(id, "key") {
        issue.key.clone()
    } else if str_eq(id, "issuetype") {
        issue.issue_type.clone()
    } else if str_eq(id, "priority") {
        text_or_dash(&issue.priority)
    } else if str_eq(id, "status") {
        issue.status.clone()
    } else if str_eq(id, "assignee") {
        text_or_dash(&issue.assignee)
    } else if str_eq(id, "reporter") {
        text_or_dash(&issue.reporter)
    } else if str_eq(id, "project") {
        issue.project_key.clone()
    } else if str_eq(id, "created") {
        short_date(issue.created.as_str())
    } else if str_eq(id, "updated") {
        short_date(issue.updated.as_str())
    } else if str_eq(id, "labels") {
        join_string_array(issue, "labels")
    } else if str_eq(id, "components") {
        join_named_array(issue, "components")
    } else if str_eq(id, "fixVersions") {
        join_named_array(issue, "fixVersions")
    } else if str_eq(id, "summary") {
        issue.summary.clone()
    } else {
        json_to_display(issue.fields.get(id))
    }
}

} // verus!

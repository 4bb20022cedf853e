//! The Jira data the library reasons about: JSON values, issues and project versions.
use vstd::prelude::*;

use crate::text::{chars_of, str_eq};

verus! {

/// A JSON value (the shape of `serde_json::Value`); numbers are held by their
/// decimal rendering.
pub enum JsonValue {
    Null,
    Bool(bool),
    Number(String),
    Str(String),
    Array(Vec<JsonValue>),
    Object(Vec<(String, JsonValue)>),
}

/// The mathematical content of a JSON value.
pub enum JsonView {
    Null,
    Bool(bool),
    Number(Seq<char>),
    Str(Seq<char>),
    Array(Seq<JsonView>),
    Object(Seq<(Seq<char>, JsonView)>),
}

impl JsonValue {
    /// The content of the value.
    pub open spec fn deep(self) -> JsonView
        decreases self,
    {
        match self {
            JsonValue::Null => JsonView::Null,
            JsonValue::Bool(b) => JsonView::Bool(b),
            JsonValue::Number(n) => JsonView::Number(n@),
            JsonValue::Str(s) => JsonView::Str(s@),
            JsonValue::Array(items) => JsonView::Array(
                Seq::new(
                    items@.len(),
                    |i: int|
                        if 0 <= i < items@.len() {
                            items@[i].deep()
                        } else {
                            JsonView::Null
                        },
                ),
            ),
            JsonValue::Object(entries) => JsonView::Object(
                Seq::new(
                    entries@.len(),
                    |i: int|
                        if 0 <= i < entries@.len() {
                            (entries@[i].0@, entries@[i].1.deep())
                        } else {
                            (Seq::empty(), JsonView::Null)
                        },
                ),
            ),
        }
    }

    /// A copy of the value with the same content.
    pub fn duplicate(&self) -> (r: JsonValue)
        ensures
            r.deep() == self.deep(),
        decreases self,
    {
        match self {
            JsonValue::Null => JsonValue::Null,
            JsonValue::Bool(b) => JsonValue::Bool(*b),
            JsonValue::Number(n) => JsonValue::Number(n.clone()),
            JsonValue::Str(s) => JsonValue::Str(s.clone()),
            JsonValue::Array(items) => {
                let mut out: Vec<JsonValue> = Vec::new();
                let mut i: usize = 0;
                while i < items.len()
                    invariant
                        *self == JsonValue::Array(*items),
                        i <= items@.len(),
                        out@.len() == i,
                        forall|k: int| 0 <= k < i ==> (#[trigger] out@[k]).deep() == items@[k].deep(),
                    decreases items@.len() - i,
                {
                    let item = &items[i];
                    assert(decreases_to!(*self => self->Array_0));
                    assert(decreases_to!(*items => items@));
                    assert(decreases_to!(items@ => items@[i as int]));
                    assert(decreases_to!(*self => items@[i as int]));
                    out.push(item.duplicate());
                    i = i + 1;
                }
                let r = JsonValue::Array(out);
                assert(r.deep()->Array_0 =~= self.deep()->Array_0);
                r
            },
            JsonValue::Object(entries) => {
                let mut out: Vec<(String, JsonValue)> = Vec::new();
                let mut i: usize = 0;
                while i < entries.len()
                    invariant
                        *self == JsonValue::Object(*entries),
                        i <= entries@.len(),
                        out@.len() == i,
                        forall|k: int| 0 <= k < i ==> (#[trigger] out@[k]).0@ == entries@[k].0@ && out@[k].1.deep() == entries@[k].1.deep(),
                    decreases entries@.len() - i,
                {
                    let (name, value) = &entries[i];
                    assert(decreases_to!(*self => self->Object_0));
                    assert(decreases_to!(*entries => entries@));
                    assert(decreases_to!(entries@ => entries@[i as int]));
                    assert(decreases_to!(entries@[i as int] => entries@[i as int].1));
                    assert(decreases_to!(*self => entries@[i as int].1));
                    out.push((name.clone(), value.duplicate()));
                    i = i + 1;
                }
                let r = JsonValue::Object(out);
                assert(r.deep()->Object_0 =~= self.deep()->Object_0);
                r
            },
        }
    }
}


/// The value stored under `key` in an object's entries (the first entry with
/// that key; a JSON object holds each key once).
pub open spec fn entry_lookup(entries: Seq<(Seq<char>, JsonView)>, key: Seq<char>) -> Option<
    JsonView,
>
    decreases entries.len(),
{
    if entries.len() == 0 {
        None
    } else if entries[0].0 == key {
        Some(entries[0].1)
    } else {
        entry_lookup(entries.drop_first(), key)
    }
}

/// `Value::get(key)`: the member `key` of an object, nothing for other values.
pub open spec fn json_get(v: JsonView, key: Seq<char>) -> Option<JsonView> {
    match v {
        JsonView::Object(entries) => entry_lookup(entries, key),
        _ => None,
    }
}

/// `Value::as_str`.
pub open spec fn json_str(v: Option<JsonView>) -> Option<Seq<char>> {
    match v {
        Some(JsonView::Str(s)) => Some(s),
        _ => None,
    }
}

impl JsonValue {
    /// `Value::get(key)`: the member `key` of an object.
    pub fn get(&self, key: &str) -> (r: Option<&JsonValue>)
        ensures
            match r {
                Some(v) => json_get(self.deep(), key@) == Some(v.deep()),
                None => json_get(self.deep(), key@) is None,
            },
    {
        match self {
            JsonValue::Object(entries) => {
                let mut i: usize = 0;
                assert(self.deep()->Object_0.skip(0) =~= self.deep()->Object_0);
                while i < entries.len()
                    invariant
                        *self == JsonValue::Object(*entries),
                        i <= entries@.len(),
                        json_get(self.deep(), key@) == entry_lookup(
                            self.deep()->Object_0.skip(i as int),
                            key@,
                        ),
                    decreases entries@.len() - i,
                {
                    let ghost rest = self.deep()->Object_0.skip(i as int);
                    assert(rest[0] == (entries@[i as int].0@, entries@[i as int].1.deep()));
                    if str_eq(entries[i].0.as_str(), key) {
                        return Some(&entries[i].1);
                    }
                    assert(rest.drop_first() =~= self.deep()->Object_0.skip(i + 1));
                    i = i + 1;
                }
                None
            },
            _ => None,
        }
    }

    /// `Value::as_array`: the items of an array value.
    pub fn as_array(&self) -> (r: Option<&Vec<JsonValue>>)
        ensures
            match r {
                Some(items) => *self == JsonValue::Array(*items),
                None => !(self.deep() is Array),
            },
    {
        match self {
            JsonValue::Array(items) => Some(items),
            _ => None,
        }
    }

    /// `Value::as_str`: the text of a string value.
    pub fn as_str(&self) -> (r: Option<&str>)
        ensures
            match r {
                Some(s) => self.deep() == JsonView::Str(s@),
                None => !(self.deep() is Str),
            },
    {
        match self {
            JsonValue::Str(s) => Some(s.as_str()),
            _ => None,
        }
    }
}

/// A Jira issue, with the fields the command line and the TUI read.
pub struct Issue {
    pub id: String,
    pub key: String,
    pub summary: String,
    pub description: Option<JsonValue>,
    pub status: String,
    pub assignee: Option<String>,
    pub reporter: Option<String>,
    pub priority: Option<String>,
    pub issue_type: String,
    pub project_key: String,
    pub created: String,
    pub updated: String,
    /// The raw `fields` object of the issue.
    pub fields: JsonValue,
}

/// The content of an optional string.
pub open spec fn opt_view(o: Option<String>) -> Option<Seq<char>> {
    match o {
        Some(s) => Some(s@),
        None => None,
    }
}

/// The content of an optional JSON value.
pub open spec fn opt_deep(o: Option<JsonValue>) -> Option<JsonView> {
    match o {
        Some(v) => Some(v.deep()),
        None => None,
    }
}

/// `a` and `b` hold the same issue data, except perhaps the summary.
pub open spec fn same_issue_but_summary(a: Issue, b: Issue) -> bool {
    &&& a.id@ == b.id@
    &&& a.key@ == b.key@
    &&& opt_deep(a.description) == opt_deep(b.description)
    &&& a.status@ == b.status@
    &&& opt_view(a.assignee) == opt_view(b.assignee)
    &&& opt_view(a.reporter) == opt_view(b.reporter)
    &&& opt_view(a.priority) == opt_view(b.priority)
    &&& a.issue_type@ == b.issue_type@
    &&& a.project_key@ == b.project_key@
    &&& a.created@ == b.created@
    &&& a.updated@ == b.updated@
    &&& a.fields.deep() == b.fields.deep()
}

/// A copy of an optional string.
pub fn copy_opt(o: &Option<String>) -> (r: Option<String>)
    ensures
        opt_view(r) == opt_view(*o),
{
    match o {
        Some(s) => Some(s.clone()),
        None => None,
    }
}

impl Issue {
    /// A copy of the issue with `summary` in place of its summary.
    pub fn with_summary(&self, summary: String) -> (r: Issue)
        ensures
            same_issue_but_summary(r, *self),
            r.summary@ == summary@,
    {
        Issue {
            id: self.id.clone(),
            key: self.key.clone(),
            summary,
            description: match &self.description {
                Some(d) => Some(d.duplicate()),
                None => None,
            },
            status: self.status.clone(),
            assignee: copy_opt(&self.assignee),
            reporter: copy_opt(&self.reporter),
            priority: copy_opt(&self.priority),
            issue_type: self.issue_type.clone(),
            project_key: self.project_key.clone(),
            created: self.created.clone(),
            updated: self.updated.clone(),
            fields: self.fields.duplicate(),
        }
    }
}

/// A fix version of a Jira project.
pub struct ProjectVersion {
    pub id: String,
    pub name: String,
    pub description: Option<String>,
    pub archived: bool,
    pub released: bool,
    pub release_date: Option<String>,
    pub start_date: Option<String>,
}

/// A sprint of a Jira board.
pub struct Sprint {
    pub id: u64,
    pub name: String,
    /// `active`, `future` or `closed`.
    pub state: String,
    pub board_id: Option<u64>,
    pub goal: Option<String>,
    pub start_date: Option<String>,
    pub end_date: Option<String>,
    pub complete_date: Option<String>,
}

} // verus!

//! `jirac issue clone`: the issue a clone creates from its source, and what
//! the command prints.
use vstd::prelude::*;

use crate::columns::member_names;
use crate::manifest::{member_str_list, str_list_member};
use crate::model::{json_get, Issue, JsonValue, JsonView};
use crate::text::{push_str, views};
use crate::versions::string_members;

verus! {

/// The issue a clone creates.
pub struct CloneRequest {
    pub project_key: String,
    pub summary: String,
    /// The source's description, as Jira's document format.
    pub description_adf: Option<JsonValue>,
    pub issue_type: String,
    pub assignee: Option<String>,
    pub priority: Option<String>,
    pub labels: Vec<String>,
    pub components: Vec<String>,
    pub fix_versions: Vec<String>,
}

/// The text items of array member `key` of the fields, none when it is not
/// an array.
pub open spec fn text_list(fields: JsonView, key: Seq<char>) -> Seq<Seq<char>> {
    match str_list_member(fields, key) {
        Some(l) => l,
        None => Seq::empty(),
    }
}

/// The `name` texts of the items of array member `key` of the fields, none
/// when it is not an array.
pub open spec fn name_list(fields: JsonView, key: Seq<char>) -> Seq<Seq<char>> {
    match json_get(fields, key) {
        Some(JsonView::Array(items)) => string_members(items, "name"@),
        _ => Seq::empty(),
    }
}

fn copy_text(s: &String) -> (r: String)
    ensures
        r@ == s@,
{
    let mut t = String::new();
    push_str(&mut t, s.as_str());
    t
}

fn copy_opt(o: &Option<String>) -> (r: Option<String>)
    ensures
        crate::model::opt_view(r) == crate::model::opt_view(*o),
{
    match o {
        Some(s) => Some(copy_text(s)),
        None => None,
    }
}

/// The issue a clone of `source` creates: in `project` (else the source's
/// project), titled `summary` (else the source's summary), assigned to
/// `assignee`, with the source's description, type, priority, labels,
/// components and fix versions.
pub fn clone_request(source: &Issue, project: Option<String>, summary: Option<String>, assignee: Option<String>) -> (r: CloneRequest)
    ensures
        r.project_key@ == match project {
            Some(p) => p@,
            None => source.project_key@,
        },
        r.summary@ == match summary {
            Some(s) => s@,
            None => source.summary@,
        },
        crate::model::opt_deep(r.description_adf) == crate::model::opt_deep(source.description),
        r.issue_type@ == source.issue_type@,
        r.assignee == assignee,
        crate::model::opt_view(r.priority) == crate::model::opt_view(source.priority),
        views(r.labels@) == text_list(source.fields.deep(), "labels"@),
        views(r.components@) == name_list(source.fields.deep(), "components"@),
        views(r.fix_versions@) == name_list(source.fields.deep(), "fixVersions"@),
{
    let labels = match member_str_list(&source.fields, "labels") {
        Some(l) => l,
        None => {
            let e: Vec<String> = Vec::new();
            assert(views(e@) =~= Seq::<Seq<char>>::empty());
            e
        },
    };
    let components = match member_names(&source.fields, "components") {
        Some(l) => l,
        None => {
            let e: Vec<String> = Vec::new();
            assert(views(e@) =~= Seq::<Seq<char>>::empty());
            e
        },
    };
    let fix_versions = match member_names(&source.fields, "fixVersions") {
        Some(l) => l,
        None => {
            let e: Vec<String> = Vec::new();
            assert(views(e@) =~= Seq::<Seq<char>>::empty());
            e
        },
    };
    CloneRequest {
        project_key: match project {
            Some(p) => p,
            None => copy_text(&source.project_key),
        },
        summary: match summary {
            Some(s) => s,
            None => copy_text(&source.summary),
        },
        description_adf: match &source.description {
            Some(d) => Some(d.duplicate()),
            None => None,
        },
        issue_type: copy_text(&source.issue_type),
        assignee,
        priority: copy_opt(&source.priority),
        labels,
        components,
        fix_versions,
    }
}

/// The question asked before the source of a moved clone is deleted.
pub fn delete_original_question(key: &str, clone_key: &str) -> (r: String)
    ensures
        r@ == "Delete original "@ + key@ + " after cloning to "@ + clone_key@ + "?"@,
{
    let mut s = String::new();
    push_str(&mut s, "Delete original ");
    push_str(&mut s, key);
    push_str(&mut s, " after cloning to ");
    push_str(&mut s, clone_key);
    push_str(&mut s, "?");
    s
}

/// What the clone command prints at the end: the move, or the clone with
/// its summary.
pub fn clone_message(key: &str, clone_key: &str, clone_summary: &str, moved: bool) -> (r: String)
    ensures
        r@ == if moved {
            "✓ Moved: "@ + key@ + " → "@ + clone_key@
        } else {
            "✓ Cloned: "@ + key@ + " → "@ + clone_key@ + " — "@ + clone_summary@
        },
{
    let mut s = String::new();
    if moved {
        push_str(&mut s, "✓ Moved: ");
        push_str(&mut s, key);
        push_str(&mut s, " → ");
        push_str(&mut s, clone_key);
    } else {
        push_str(&mut s, "✓ Cloned: ");
        push_str(&mut s, key);
        push_str(&mut s, " → ");
        push_str(&mut s, clone_key);
        push_str(&mut s, " — ");
        push_str(&mut s, clone_summary);
    }
    s
}

} // verus!

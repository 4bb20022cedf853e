//! Turning the options of `jirac issue version` and `jirac issue sprint update`
//! into the requests sent to Jira.
use vstd::prelude::*;

use crate::issue_input::{
    csv_items, opt_str, parse_csv, midnight_stamp, normalize_optional_text, optional_text, text_result, validate_ymd_date,
    validated_ymd, ymd_to_jira_datetime,
};
use crate::model::{opt_view, JsonValue, JsonView};
use crate::text::{push_str, trim, trim_str, views};

verus! {

/// The options of a project-version change.
pub struct ProjectVersionUpdateArgs {
    pub create: bool,
    pub set_name: Option<String>,
    pub description: Option<String>,
    pub clear_description: bool,
    pub set_release_date: Option<String>,
    pub clear_release_date: bool,
    pub set_start_date: Option<String>,
    pub clear_start_date: bool,
    pub released: bool,
    pub unreleased: bool,
    pub archived: bool,
    pub unarchived: bool,
}

/// The body of a project-version update: `None` leaves a field as it is.
pub struct UpdateProjectVersionRequest {
    pub name: Option<String>,
    pub description: Option<String>,
    pub archived: Option<bool>,
    pub released: Option<bool>,
    pub release_date: Option<String>,
    pub start_date: Option<String>,
}

/// The body of a project-version creation.
pub struct CreateProjectVersionRequest {
    pub name: String,
    pub project: String,
    pub description: Option<String>,
    pub archived: bool,
    pub released: bool,
    pub release_date: Option<String>,
    pub start_date: Option<String>,
}

/// A flag pair as a change: set, cleared, or left alone (set wins).
pub open spec fn flag_change(on: bool, off: bool) -> Option<bool> {
    if on {
        Some(true)
    } else if off {
        Some(false)
    } else {
        None
    }
}

/// A date change of an update: clearing writes an empty date; a new date is
/// checked first.
pub open spec fn date_change(clear: bool, set: Option<Seq<char>>, label: Seq<char>) -> Result<Option<Seq<char>>, Seq<char>> {
    if clear {
        Ok(Some(Seq::empty()))
    } else {
        match set {
            Some(v) => match validated_ymd(label, v) {
                Ok(t) => Ok(Some(t)),
                Err(e) => Err(e),
            },
            None => Ok(None),
        }
    }
}

/// A date of a creation: clearing leaves it out; a given date is checked first.
pub open spec fn date_of_new(clear: bool, set: Option<Seq<char>>, label: Seq<char>) -> Result<Option<Seq<char>>, Seq<char>> {
    if clear {
        Ok(None)
    } else {
        match set {
            Some(v) => match validated_ymd(label, v) {
                Ok(t) => Ok(Some(t)),
                Err(e) => Err(e),
            },
            None => Ok(None),
        }
    }
}

/// The trimmed text of an optional value.
pub open spec fn trimmed_opt(v: Option<Seq<char>>) -> Option<Seq<char>> {
    match v {
        Some(s) => Some(trim(s)),
        None => None,
    }
}

fn date_change_exec(clear: bool, set: &Option<String>, label: &str) -> (r: Result<Option<String>, String>)
    ensures
        match r {
            Ok(d) => date_change(clear, opt_view(*set), label@) == Ok::<Option<Seq<char>>, Seq<char>>(opt_view(d)),
            Err(e) => date_change(clear, opt_view(*set), label@) == Err::<Option<Seq<char>>, Seq<char>>(e@),
        },
{
    if clear {
        return Ok(Some(String::new()));
    }
    match set {
        Some(v) => match validate_ymd_date(v.as_str(), label) {
            Ok(t) => Ok(Some(t)),
            Err(e) => Err(e),
        },
        None => Ok(None),
    }
}

fn date_of_new_exec(clear: bool, set: &Option<String>, label: &str) -> (r: Result<Option<String>, String>)
    ensures
        match r {
            Ok(d) => date_of_new(clear, opt_view(*set), label@) == Ok::<Option<Seq<char>>, Seq<char>>(opt_view(d)),
            Err(e) => date_of_new(clear, opt_view(*set), label@) == Err::<Option<Seq<char>>, Seq<char>>(e@),
        },
{
    if clear {
        return Ok(None);
    }
    match set {
        Some(v) => match validate_ymd_date(v.as_str(), label) {
            Ok(t) => Ok(Some(t)),
            Err(e) => Err(e),
        },
        None => Ok(None),
    }
}

fn flag_change_exec(on: bool, off: bool) -> (r: Option<bool>)
    ensures
        r == flag_change(on, off),
{
    if on {
        Some(true)
    } else if off {
        Some(false)
    } else {
        None
    }
}

fn opt_str_ref(o: &Option<String>) -> (r: Option<&str>)
    ensures
        crate::issue_input::opt_str(r) == opt_view(*o),
{
    match o {
        Some(s) => Some(s.as_str()),
        None => None,
    }
}

impl ProjectVersionUpdateArgs {
    /// Whether any option asks for a change.
    pub open spec fn changes(&self) -> bool {
        self.create || self.set_name is Some || self.description is Some || self.clear_description
            || self.set_release_date is Some || self.clear_release_date || self.set_start_date is Some
            || self.clear_start_date || self.released || self.unreleased || self.archived
            || self.unarchived
    }

    /// Whether any option asks for a change.
    pub fn has_changes(&self) -> (r: bool)
        ensures
            r == self.changes(),
    {
        self.create || self.set_name.is_some() || self.description.is_some()
            || self.clear_description || self.set_release_date.is_some() || self.clear_release_date
            || self.set_start_date.is_some() || self.clear_start_date || self.released
            || self.unreleased || self.archived || self.unarchived
    }

    /// The update request: a cleared date or description is sent empty, a new
    /// name trimmed, a new description trimmed (blank counts as none), and each
    /// date checked, the release date first.
    pub fn to_request(&self) -> (r: Result<UpdateProjectVersionRequest, String>)
        ensures
            match date_change(self.clear_release_date, opt_view(self.set_release_date), "release date"@) {
                Err(e) => r matches Err(m) && m@ == e,
                Ok(rd) => match date_change(self.clear_start_date, opt_view(self.set_start_date), "start date"@) {
                    Err(e) => r matches Err(m) && m@ == e,
                    Ok(sd) => r matches Ok(q) && {
                        &&& opt_view(q.release_date) == rd
                        &&& opt_view(q.start_date) == sd
                        &&& opt_view(q.name) == trimmed_opt(opt_view(self.set_name))
                        &&& opt_view(q.description) == if self.clear_description {
                            Some(Seq::<char>::empty())
                        } else {
                            optional_text(opt_view(self.description))
                        }
                        &&& q.archived == flag_change(self.archived, self.unarchived)
                        &&& q.released == flag_change(self.released, self.unreleased)
                    },
                },
            },
    {
        let release_date = match date_change_exec(self.clear_release_date, &self.set_release_date, "release date") {
            Ok(d) => d,
            Err(e) => return Err(e),
        };
        let start_date = match date_change_exec(self.clear_start_date, &self.set_start_date, "start date") {
            Ok(d) => d,
            Err(e) => return Err(e),
        };
        let name = match &self.set_name {
            Some(v) => Some(trim_str(v.as_str())),
            None => None,
        };
        let description = if self.clear_description {
            Some(String::new())
        } else {
            normalize_optional_text(opt_str_ref(&self.description))
        };
        Ok(UpdateProjectVersionRequest {
            name,
            description,
            archived: flag_change_exec(self.archived, self.unarchived),
            released: flag_change_exec(self.released, self.unreleased),
            release_date,
            start_date,
        })
    }

    /// The creation request for version `version_name` of project
    /// `project_key`: a cleared date is left out, a given one checked, the
    /// release date first.
    pub fn to_create_request(&self, project_key: &str, version_name: &str) -> (r: Result<CreateProjectVersionRequest, String>)
        ensures
            match date_of_new(self.clear_release_date, opt_view(self.set_release_date), "release date"@) {
                Err(e) => r matches Err(m) && m@ == e,
                Ok(rd) => match date_of_new(self.clear_start_date, opt_view(self.set_start_date), "start date"@) {
                    Err(e) => r matches Err(m) && m@ == e,
                    Ok(sd) => r matches Ok(q) && {
                        &&& q.name@ == trim(version_name@)
                        &&& q.project@ == project_key@
                        &&& opt_view(q.description) == optional_text(opt_view(self.description))
                        &&& q.archived == self.archived
                        &&& q.released == self.released
                        &&& opt_view(q.release_date) == rd
                        &&& opt_view(q.start_date) == sd
                    },
                },
            },
    {
        let release_date = match date_of_new_exec(self.clear_release_date, &self.set_release_date, "release date") {
            Ok(d) => d,
            Err(e) => return Err(e),
        };
        let start_date = match date_of_new_exec(self.clear_start_date, &self.set_start_date, "start date") {
            Ok(d) => d,
            Err(e) => return Err(e),
        };
        let mut project = String::new();
        push_str(&mut project, project_key);
        Ok(CreateProjectVersionRequest {
            name: trim_str(version_name),
            project,
            description: normalize_optional_text(opt_str_ref(&self.description)),
            archived: self.archived,
            released: self.released,
            release_date,
            start_date,
        })
    }
}

/// The options of a sprint update.
pub struct SprintUpdateArgs {
    pub name: Option<String>,
    pub goal: Option<String>,
    pub clear_goal: bool,
    pub start_date: Option<String>,
    pub clear_start_date: bool,
    pub end_date: Option<String>,
    pub clear_end_date: bool,
}

/// One entry of a JSON object whose value is a string.
pub open spec fn text_entry(key: Seq<char>, value: Seq<char>) -> (Seq<char>, JsonView) {
    (key, JsonView::Str(value))
}

/// The `name` entry of a sprint update: the new name trimmed, when not blank.
pub open spec fn sprint_name_entry(name: Option<Seq<char>>) -> Seq<(Seq<char>, JsonView)> {
    match name {
        Some(n) => if trim(n).len() > 0 {
            seq![text_entry("name"@, trim(n))]
        } else {
            Seq::empty()
        },
        None => Seq::empty(),
    }
}

/// The `goal` entry of a sprint update: empty when cleared, else the new goal
/// trimmed, when not blank.
pub open spec fn sprint_goal_entry(clear: bool, goal: Option<Seq<char>>) -> Seq<(Seq<char>, JsonView)> {
    if clear {
        seq![text_entry("goal"@, Seq::empty())]
    } else {
        match optional_text(goal) {
            Some(g) => seq![text_entry("goal"@, g)],
            None => Seq::empty(),
        }
    }
}

/// A sprint date: checked as `YYYY-MM-DD` (the error naming `label`), then
/// written as midnight UTC.
pub open spec fn sprint_date(value: Seq<char>, label: Seq<char>) -> Result<Seq<char>, Seq<char>> {
    match validated_ymd(label, value) {
        Ok(t) => midnight_stamp(t),
        Err(e) => Err(e),
    }
}

/// A date entry of a sprint update: empty when cleared, else the new date.
pub open spec fn sprint_date_entry(key: Seq<char>, clear: bool, value: Option<Seq<char>>, label: Seq<char>) -> Result<Seq<(Seq<char>, JsonView)>, Seq<char>> {
    if clear {
        Ok(seq![text_entry(key, Seq::empty())])
    } else {
        match value {
            Some(v) => match sprint_date(v, label) {
                Ok(s) => Ok(seq![text_entry(key, s)]),
                Err(e) => Err(e),
            },
            None => Ok(Seq::empty()),
        }
    }
}

/// The entries of a sprint update body, in the order added, or the first error
/// (the start date is checked before the end date).
pub open spec fn sprint_body(a: SprintUpdateArgs) -> Result<Seq<(Seq<char>, JsonView)>, Seq<char>> {
    match sprint_date_entry("startDate"@, a.clear_start_date, opt_view(a.start_date), "sprint start date"@) {
        Err(e) => Err(e),
        Ok(s) => match sprint_date_entry("endDate"@, a.clear_end_date, opt_view(a.end_date), "sprint end date"@) {
            Err(e) => Err(e),
            Ok(t) => Ok(sprint_name_entry(opt_view(a.name)) + sprint_goal_entry(a.clear_goal, opt_view(a.goal)) + s + t),
        },
    }
}

fn text_value(key: &str, value: String) -> (r: (String, JsonValue))
    ensures
        (r.0@, r.1.deep()) == text_entry(key@, value@),
{
    let mut k = String::new();
    push_str(&mut k, key);
    (k, JsonValue::Str(value))
}

fn sprint_date_value(value: &str, label: &str) -> (r: Result<String, String>)
    ensures
        text_result(r) == sprint_date(value@, label@),
{
    match validate_ymd_date(value, label) {
        Ok(t) => ymd_to_jira_datetime(t.as_str()),
        Err(e) => Err(e),
    }
}

impl SprintUpdateArgs {
    /// Whether any option asks for a change.
    pub open spec fn changes(&self) -> bool {
        self.name is Some || self.goal is Some || self.clear_goal || self.start_date is Some
            || self.clear_start_date || self.end_date is Some || self.clear_end_date
    }

    /// Whether any option asks for a change.
    pub fn has_changes(&self) -> (r: bool)
        ensures
            r == self.changes(),
    {
        self.name.is_some() || self.goal.is_some() || self.clear_goal || self.start_date.is_some()
            || self.clear_start_date || self.end_date.is_some() || self.clear_end_date
    }

    /// The JSON body of the update: an object with the entries that change.
    pub fn to_request(&self) -> (r: Result<JsonValue, String>)
        ensures
            match sprint_body(*self) {
                Ok(entries) => r matches Ok(v) && v.deep() == JsonView::Object(entries),
                Err(e) => r matches Err(m) && m@ == e,
            },
    {
        let mut body: Vec<(String, JsonValue)> = Vec::new();
        let ghost mut spec_entries: Seq<(Seq<char>, JsonView)> = Seq::empty();
        match &self.name {
            Some(n) => {
                let t = trim_str(n.as_str());
                if t.unicode_len() > 0 {
                    body.push(text_value("name", t));
                }
            },
            None => {},
        }
        if self.clear_goal {
            body.push(text_value("goal", String::new()));
        } else {
            match normalize_optional_text(opt_str_ref(&self.goal)) {
                Some(g) => body.push(text_value("goal", g)),
                None => {},
            }
        }
        proof {
            spec_entries = sprint_name_entry(opt_view(self.name)) + sprint_goal_entry(self.clear_goal, opt_view(self.goal));
        }
        assert(body@.len() == spec_entries.len());
        assert(forall|k: int| 0 <= k < body@.len() ==> (#[trigger] body@[k]).0@ == spec_entries[k].0 && body@[k].1.deep() == spec_entries[k].1);
        if self.clear_start_date {
            body.push(text_value("startDate", String::new()));
        } else {
            match &self.start_date {
                Some(v) => match sprint_date_value(v.as_str(), "sprint start date") {
                    Ok(s) => body.push(text_value("startDate", s)),
                    Err(e) => return Err(e),
                },
                None => {},
            }
        }
        proof {
            spec_entries = spec_entries + sprint_date_entry("startDate"@, self.clear_start_date, opt_view(self.start_date), "sprint start date"@)->Ok_0;
        }
        assert(body@.len() == spec_entries.len());
        assert(forall|k: int| 0 <= k < body@.len() ==> (#[trigger] body@[k]).0@ == spec_entries[k].0 && body@[k].1.deep() == spec_entries[k].1);
        if self.clear_end_date {
            body.push(text_value("endDate", String::new()));
        } else {
            match &self.end_date {
                Some(v) => match sprint_date_value(v.as_str(), "sprint end date") {
                    Ok(s) => body.push(text_value("endDate", s)),
                    Err(e) => return Err(e),
                },
                None => {},
            }
        }
        proof {
            spec_entries = spec_entries + sprint_date_entry("endDate"@, self.clear_end_date, opt_view(self.end_date), "sprint end date"@)->Ok_0;
        }
        assert(body@.len() == spec_entries.len());
        assert(forall|k: int| 0 <= k < body@.len() ==> (#[trigger] body@[k]).0@ == spec_entries[k].0 && body@[k].1.deep() == spec_entries[k].1);
        let r = JsonValue::Object(body);
        assert(r.deep()->Object_0 =~= spec_entries);
        Ok(r)
    }
}

/// The changes `jirac issue update` sends for one issue; `None` leaves a
/// field as it is. Custom fields travel beside it, as the caller parsed them.
pub struct IssueUpdate {
    pub summary: Option<String>,
    pub description: Option<String>,
    pub description_adf: Option<JsonValue>,
    pub assignee: Option<String>,
    pub priority: Option<String>,
    pub labels: Option<Vec<String>>,
    pub components: Option<Vec<String>>,
    pub fix_versions: Option<Vec<String>>,
    pub parent: Option<String>,
}

/// The items of an optional comma-separated option: absent stays absent.
pub open spec fn csv_option(o: Option<Seq<char>>) -> Option<Seq<Seq<char>>> {
    match o {
        Some(s) => Some(
            if trim(s).len() == 0 {
                Seq::empty()
            } else {
                csv_items(s)
            },
        ),
        None => None,
    }
}

/// The view of an optional list of texts.
pub open spec fn opt_list_view(o: Option<Vec<String>>) -> Option<Seq<Seq<char>>> {
    match o {
        Some(v) => Some(views(v@)),
        None => None,
    }
}

fn csv_of(o: Option<&str>) -> (r: Option<Vec<String>>)
    ensures
        opt_list_view(r) == csv_option(opt_str(o)),
{
    match o {
        Some(s) => Some(parse_csv(Some(s))),
        None => None,
    }
}

/// What `jirac issue update` prints when no option asks for a change.
pub open spec fn no_changes_text() -> Seq<char> {
    "No fields to update. Use --summary, --assignee, --priority, --description-file, --labels, --components, --fix-version, --parent, or --field."@
}

/// What `jirac issue update` prints when no option asks for a change.
pub fn no_changes_message() -> (r: String)
    ensures
        r@ == no_changes_text(),
{
    let mut s = String::new();
    push_str(
        &mut s,
        "No fields to update. Use --summary, --assignee, --priority, --description-file, --labels, --components, --fix-version, --parent, or --field.",
    );
    s
}

/// The changes asked for by the options of `jirac issue update`, the lists
/// read from their comma-separated form; `None` when no option (custom
/// fields counted by `custom_fields`) asks for a change.
pub fn issue_update(
    summary: Option<String>,
    assignee: Option<String>,
    priority: Option<String>,
    description: Option<String>,
    description_adf: Option<JsonValue>,
    labels: Option<&str>,
    components: Option<&str>,
    fix_version: Option<&str>,
    parent: Option<String>,
    custom_fields: usize,
) -> (r: Option<IssueUpdate>)
    ensures
        r is None <==> (summary is None && assignee is None && priority is None && description is None
            && description_adf is None && labels is None && components is None && fix_version is None
            && parent is None && custom_fields == 0),
        r matches Some(u) ==> {
            &&& u.summary == summary
            &&& u.assignee == assignee
            &&& u.priority == priority
            &&& u.description == description
            &&& u.description_adf == description_adf
            &&& u.parent == parent
            &&& opt_list_view(u.labels) == csv_option(opt_str(labels))
            &&& opt_list_view(u.components) == csv_option(opt_str(components))
            &&& opt_list_view(u.fix_versions) == csv_option(opt_str(fix_version))
        },
{
    let has_changes = summary.is_some() || assignee.is_some() || priority.is_some() || description.is_some()
        || description_adf.is_some() || labels.is_some() || components.is_some() || fix_version.is_some()
        || parent.is_some() || custom_fields > 0;
    if !has_changes {
        return None;
    }
    Some(
        IssueUpdate {
            summary,
            description,
            description_adf,
            assignee,
            priority,
            labels: csv_of(labels),
            components: csv_of(components),
            fix_versions: csv_of(fix_version),
            parent,
        },
    )
}

} // verus!

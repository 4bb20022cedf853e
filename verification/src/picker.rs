//! The single-choice pickers shown on the terminal before an action: which
//! options a typed search keeps, and the assignee picker built from the users
//! Jira found.
//!
//! Prompting happens in the caller; it hands each answer to these functions
//! and shows what they return.
use vstd::prelude::*;

use crate::manifest::{member_str_or, str_member};
use crate::model::{JsonValue, JsonView};
use crate::text::{contains, lowercase, push_str, str_contains, str_eq, to_lowercase, trim, trim_str};
use crate::tui_modal::PickerOption;

verus! {

/// The value of the entry that asks for another search.
pub open spec fn search_again() -> Seq<char> {
    "__search_again__"@
}

/// A picker option as the contracts see it: label, then value.
pub open spec fn option_view(o: PickerOption) -> (Seq<char>, Seq<char>) {
    (o.label@, o.value@)
}

/// The views of picker options.
pub open spec fn option_views(os: Seq<PickerOption>) -> Seq<(Seq<char>, Seq<char>)> {
    os.map_values(|o: PickerOption| option_view(o))
}

/// A search as it is matched: trimmed and lower-cased.
pub open spec fn picker_query(input: Seq<char>) -> Seq<char> {
    lowercase(trim(input))
}

/// A search as it is matched: trimmed and lower-cased.
pub fn normalize_picker_query(input: &str) -> (r: String)
    ensures
        r@ == picker_query(input@),
{
    let t = trim_str(input);
    to_lowercase(t.as_str())
}

/// An option matches a search when the search is blank, or when its label, a
/// space and its value, trimmed and lower-cased, contain the search.
pub open spec fn option_matches(label: Seq<char>, value: Seq<char>, query: Seq<char>) -> bool {
    let q = picker_query(query);
    q.len() == 0 || contains(picker_query(label + " "@ + value), q)
}

/// Whether an option matches a search.
pub fn picker_option_matches(option: &PickerOption, query: &str) -> (r: bool)
    ensures
        r == option_matches(option.label@, option.value@, query@),
{
    let q = normalize_picker_query(query);
    if q.unicode_len() == 0 {
        return true;
    }
    let mut hay = String::new();
    push_str(&mut hay, option.label.as_str());
    push_str(&mut hay, " ");
    push_str(&mut hay, option.value.as_str());
    let h = normalize_picker_query(hay.as_str());
    str_contains(h.as_str(), q.as_str())
}

/// The options a search keeps, in order: the entry for another search, the
/// entry for oneself (`me`), and those that match.
pub open spec fn kept_options(os: Seq<(Seq<char>, Seq<char>)>, query: Seq<char>) -> Seq<(Seq<char>, Seq<char>)>
    decreases os.len(),
{
    if os.len() == 0 {
        Seq::empty()
    } else {
        let r = kept_options(os.drop_last(), query);
        let o = os.last();
        if o.1 == search_again() || o.1 == "me"@ || option_matches(o.0, o.1, query) {
            r.push(o)
        } else {
            r
        }
    }
}

/// Every option is the entry for another search.
pub open spec fn only_search_again(os: Seq<(Seq<char>, Seq<char>)>) -> bool {
    forall|i: int| 0 <= i < os.len() ==> (#[trigger] os[i]).1 == search_again()
}

/// What a refining search does to the options shown.
pub enum Refined {
    /// The search was dismissed: nothing is picked.
    Cancelled,
    /// The search was blank: the options shown stay.
    Unchanged,
    /// The options the search keeps.
    Kept(Vec<PickerOption>),
    /// Nothing matched: the message is shown and all options are offered again.
    NoMatches(String),
}

fn copy_option(o: &PickerOption) -> (r: PickerOption)
    ensures
        option_view(r) == option_view(*o),
{
    let mut value = String::new();
    push_str(&mut value, o.value.as_str());
    let mut label = String::new();
    push_str(&mut label, o.label.as_str());
    PickerOption { value, label }
}

/// The options a search keeps.
pub fn keep_options(options: &Vec<PickerOption>, query: &str) -> (r: Vec<PickerOption>)
    ensures
        option_views(r@) == kept_options(option_views(options@), query@),
{
    let ghost os = option_views(options@);
    let mut out: Vec<PickerOption> = Vec::new();
    let mut i: usize = 0;
    while i < options.len()
        invariant
            i <= options@.len(),
            os == option_views(options@),
            option_views(out@) == kept_options(os.take(i as int), query@),
        decreases options@.len() - i,
    {
        assert(os.take(i + 1).drop_last() =~= os.take(i as int));
        assert(os.take(i + 1).last() == option_view(options@[i as int]));
        let o = &options[i];
        if str_eq(o.value.as_str(), "__search_again__") || str_eq(o.value.as_str(), "me")
            || picker_option_matches(o, query) {
            let ghost before = option_views(out@);
            out.push(copy_option(o));
            assert(option_views(out@) =~= before.push(option_view(options@[i as int])));
        }
        i = i + 1;
    }
    assert(os.take(i as int) =~= os);
    out
}

/// What the search typed to refine a picker does: dismissed, nothing picked;
/// blank, the options stay; else the options it keeps, unless only the entry
/// for another search is left, when a message names the search and all
/// options are offered again.
pub fn refine(options: &Vec<PickerOption>, answer: Option<&str>) -> (r: Refined)
    ensures
        answer is None ==> r is Cancelled,
        answer matches Some(a) ==> {
            let q = picker_query(a@);
            let kept = kept_options(option_views(options@), q);
            if q.len() == 0 {
                r is Unchanged
            } else if only_search_again(kept) {
                r matches Refined::NoMatches(m) && m@ == "  No matches for '"@ + q + "'. Try another search."@
            } else {
                r matches Refined::Kept(k) && option_views(k@) == kept
            }
        },
{
    let a = match answer {
        Some(a) => a,
        None => return Refined::Cancelled,
    };
    let q = normalize_picker_query(a);
    if q.unicode_len() == 0 {
        return Refined::Unchanged;
    }
    let kept = keep_options(options, q.as_str());
    let ghost kv = option_views(kept@);
    let mut all_again = true;
    let mut i: usize = 0;
    while i < kept.len()
        invariant
            i <= kept@.len(),
            kv == option_views(kept@),
            all_again == (forall|j: int| 0 <= j < i ==> (#[trigger] kv[j]).1 == search_again()),
        decreases kept@.len() - i,
    {
        assert(kv[i as int] == option_view(kept@[i as int]));
        if !str_eq(kept[i].value.as_str(), "__search_again__") {
            all_again = false;
        }
        i = i + 1;
    }
    if all_again {
        let mut m = String::new();
        push_str(&mut m, "  No matches for '");
        push_str(&mut m, q.as_str());
        push_str(&mut m, "'. Try another search.");
        Refined::NoMatches(m)
    } else {
        Refined::Kept(kept)
    }
}

/// Whether the option picked asks for another search.
pub fn is_search_again(option: &PickerOption) -> (r: bool)
    ensures
        r == (option.value@ == search_again()),
{
    str_eq(option.value.as_str(), "__search_again__")
}

/// A text member of a user, trimmed, or `default` trimmed when it has none.
pub open spec fn user_text(u: JsonView, key: Seq<char>, default: Seq<char>) -> Seq<char> {
    trim(
        match str_member(u, key) {
            Some(s) => s,
            None => default,
        },
    )
}

/// How a user is offered: the display name, the email in angle brackets when
/// there is one, and the account id, joined by bullets.
pub open spec fn user_label(u: JsonView) -> Seq<char> {
    let email = user_text(u, "emailAddress"@, ""@);
    user_text(u, "displayName"@, "Unknown user"@) + (if email.len() > 0 {
        "  •  <"@ + email + ">"@
    } else {
        Seq::empty()
    }) + "  •  accountId: "@ + user_text(u, "accountId"@, ""@)
}

/// The assignee picker: oneself, another search, then each user with an
/// account id that no earlier option has as its value.
pub open spec fn assignee_entries(users: Seq<JsonView>) -> Seq<(Seq<char>, Seq<char>)>
    decreases users.len(),
{
    if users.len() == 0 {
        seq![("Assign to me"@, "me"@), ("Search again..."@, search_again())]
    } else {
        let r = assignee_entries(users.drop_last());
        let u = users.last();
        let a = user_text(u, "accountId"@, ""@);
        if a.len() == 0 || r.map_values(|o: (Seq<char>, Seq<char>)| o.1).contains(a) {
            r
        } else {
            r.push((user_label(u), a))
        }
    }
}

fn option_of(label: &str, value: &str) -> (r: PickerOption)
    ensures
        option_view(r) == (label@, value@),
{
    let mut l = String::new();
    push_str(&mut l, label);
    let mut v = String::new();
    push_str(&mut v, value);
    PickerOption { value: v, label: l }
}

fn has_value(options: &Vec<PickerOption>, value: &str) -> (r: bool)
    ensures
        r == option_views(options@).map_values(|o: (Seq<char>, Seq<char>)| o.1).contains(value@),
{
    let ghost vs = option_views(options@).map_values(|o: (Seq<char>, Seq<char>)| o.1);
    let mut i: usize = 0;
    while i < options.len()
        invariant
            i <= options@.len(),
            vs == option_views(options@).map_values(|o: (Seq<char>, Seq<char>)| o.1),
            forall|j: int| 0 <= j < i ==> vs[j] != value@,
        decreases options@.len() - i,
    {
        assert(vs[i as int] == options@[i as int].value@);
        if str_eq(options[i].value.as_str(), value) {
            return true;
        }
        i = i + 1;
    }
    false
}

fn user_text_of(u: &JsonValue, key: &str, default: &str) -> (r: String)
    ensures
        r@ == user_text(u.deep(), key@, default@),
{
    let s = member_str_or(u, key, default);
    trim_str(s.as_str())
}

/// The options of the assignee picker for the users Jira found.
pub fn assignee_picker_options(users: &Vec<JsonValue>) -> (r: Vec<PickerOption>)
    ensures
        option_views(r@) == assignee_entries(users@.map_values(|u: JsonValue| u.deep())),
{
    let ghost us = users@.map_values(|u: JsonValue| u.deep());
    let mut out: Vec<PickerOption> = Vec::new();
    out.push(option_of("Assign to me", "me"));
    out.push(option_of("Search again...", "__search_again__"));
    assert(option_views(out@) =~= assignee_entries(us.take(0)));
    let mut i: usize = 0;
    while i < users.len()
        invariant
            i <= users@.len(),
            us == users@.map_values(|u: JsonValue| u.deep()),
            option_views(out@) == assignee_entries(us.take(i as int)),
        decreases users@.len() - i,
    {
        assert(us.take(i + 1).drop_last() =~= us.take(i as int));
        assert(us.take(i + 1).last() == users@[i as int].deep());
        let u = &users[i];
        let account = user_text_of(u, "accountId", "");
        if account.unicode_len() > 0 && !has_value(&out, account.as_str()) {
            let display = user_text_of(u, "displayName", "Unknown user");
            let email = user_text_of(u, "emailAddress", "");
            let mut label = String::new();
            push_str(&mut label, display.as_str());
            if email.unicode_len() > 0 {
                push_str(&mut label, "  •  <");
                push_str(&mut label, email.as_str());
                push_str(&mut label, ">");
            }
            push_str(&mut label, "  •  accountId: ");
            push_str(&mut label, account.as_str());
            assert(label@ == user_label(users@[i as int].deep()));
            let ghost before = option_views(out@);
            out.push(PickerOption { value: account, label });
            assert(option_views(out@) =~= before.push((user_label(us[i as int]), user_text(us[i as int], "accountId"@, ""@))));
        }
        i = i + 1;
    }
    assert(us.take(i as int) =~= us);
    out
}

/// The assignee picker for the users Jira found, or `None` when no user
/// could be offered.
pub fn assignee_choices(users: &Vec<JsonValue>) -> (r: Option<Vec<PickerOption>>)
    ensures
        assignee_entries(users@.map_values(|u: JsonValue| u.deep())).len() <= 2 ==> r is None,
        assignee_entries(users@.map_values(|u: JsonValue| u.deep())).len() > 2 ==> (r matches Some(os)
            && option_views(os@) == assignee_entries(users@.map_values(|u: JsonValue| u.deep()))),
{
    let os = assignee_picker_options(users);
    if os.len() <= 2 {
        None
    } else {
        Some(os)
    }
}

/// The project versions the version picker offers for a search: those whose
/// lower-cased name contains the lower-cased search (all of them for an empty
/// search), each offered by its name.
pub open spec fn version_entries(names: Seq<Seq<char>>, query: Seq<char>) -> Seq<(Seq<char>, Seq<char>)>
    decreases names.len(),
{
    if names.len() == 0 {
        Seq::empty()
    } else {
        let r = version_entries(names.drop_last(), query);
        let n = names.last();
        let q = lowercase(query);
        if q.len() == 0 || contains(lowercase(n), q) {
            r.push((n, n))
        } else {
            r
        }
    }
}

/// The options of the project-version picker for a search.
pub fn build_project_version_options(catalog: &Vec<crate::model::ProjectVersion>, query: &str) -> (r: Vec<PickerOption>)
    ensures
        option_views(r@) == version_entries(
            catalog@.map_values(|v: crate::model::ProjectVersion| v.name@),
            query@,
        ),
{
    let ghost names = catalog@.map_values(|v: crate::model::ProjectVersion| v.name@);
    let q = to_lowercase(query);
    let mut out: Vec<PickerOption> = Vec::new();
    let mut i: usize = 0;
    while i < catalog.len()
        invariant
            i <= catalog@.len(),
            names == catalog@.map_values(|v: crate::model::ProjectVersion| v.name@),
            q@ == lowercase(query@),
            option_views(out@) == version_entries(names.take(i as int), query@),
        decreases catalog@.len() - i,
    {
        assert(names.take(i + 1).drop_last() =~= names.take(i as int));
        assert(names.take(i + 1).last() == catalog@[i as int].name@);
        let name = catalog[i].name.as_str();
        if q.unicode_len() == 0 || str_contains(to_lowercase(name).as_str(), q.as_str()) {
            let ghost before = option_views(out@);
            out.push(option_of(name, name));
            assert(option_views(out@) =~= before.push((names[i as int], names[i as int])));
        }
        i = i + 1;
    }
    assert(names.take(i as int) =~= names);
    out
}

} // verus!

//! `jirac issue jql`: the parameters of a query, read from the builder's
//! prompts, completed with the builder's defaults, and the table printed when
//! the query is run.
//!
//! Turning the parameters into JQL text is the Jira client's work and happens
//! in the caller.
use vstd::prelude::*;

use crate::issue_input::optional_text;
use crate::issue_views::{issue_row_of, push_issue_rows, push_repeated, repeated, row_ok};
use crate::model::Issue;
use crate::text::{decimal, padded, push_decimal, push_padded, push_str, str_eq, views};

verus! {

/// Whose issues a query asks for.
pub enum AssigneeFilter {
    /// The user running the query.
    CurrentUser,
    /// Issues assigned to nobody.
    Empty,
    /// The user with this email address.
    Email { email: String },
}

/// The direction of a sort key.
pub enum OrderDir {
    Asc,
    Desc,
}

/// The parameters of a query.
pub struct JqlParams {
    pub project: Option<String>,
    pub status: Vec<String>,
    pub assignee: Vec<AssigneeFilter>,
    pub priority: Vec<String>,
    pub labels: Vec<String>,
    pub components: Vec<String>,
    pub fix_versions: Vec<String>,
    pub text: Option<String>,
    pub created_after: Option<String>,
    pub updated_after: Option<String>,
    pub extra_clauses: Vec<String>,
    pub order_by: Vec<(String, OrderDir)>,
}

/// The parameters hold no filter at all (a sort order is no filter).
pub open spec fn filters_empty(p: JqlParams) -> bool {
    &&& p.project is None
    &&& p.status@.len() == 0
    &&& p.assignee@.len() == 0
    &&& p.priority@.len() == 0
    &&& p.labels@.len() == 0
    &&& p.components@.len() == 0
    &&& p.fix_versions@.len() == 0
    &&& p.text is None
    &&& p.created_after is None
    &&& p.updated_after is None
    &&& p.extra_clauses@.len() == 0
}

/// Whether the parameters hold no filter at all.
pub fn jql_params_filters_empty(p: &JqlParams) -> (r: bool)
    ensures
        r == filters_empty(*p),
{
    p.project.is_none() && p.status.len() == 0 && p.assignee.len() == 0 && p.priority.len() == 0
        && p.labels.len() == 0 && p.components.len() == 0 && p.fix_versions.len() == 0 && p.text.is_none()
        && p.created_after.is_none() && p.updated_after.is_none() && p.extra_clauses.len() == 0
}

/// The builder's defaults: a query without filters asks for the current
/// user's issues, and one without a sort order sorts by `updated`, newest
/// first. Nothing else changes.
pub fn with_builder_defaults(p: JqlParams) -> (r: JqlParams)
    ensures
        r == (JqlParams { assignee: r.assignee, order_by: r.order_by, ..p }),
        filters_empty(p) ==> r.assignee@.len() == 1 && r.assignee@[0] is CurrentUser,
        !filters_empty(p) ==> r.assignee@ == p.assignee@,
        p.order_by@.len() == 0 ==> r.order_by@.len() == 1 && r.order_by@[0].0@ == "updated"@
            && r.order_by@[0].1 is Desc,
        p.order_by@.len() > 0 ==> r.order_by@ == p.order_by@,
{
    let empty = jql_params_filters_empty(&p);
    let mut q = p;
    if empty {
        q.assignee.push(AssigneeFilter::CurrentUser);
    }
    if q.order_by.len() == 0 {
        let mut f = String::new();
        push_str(&mut f, "updated");
        q.order_by.push((f, OrderDir::Desc));
    }
    q
}

fn text_vec(items: &[&str]) -> (r: Vec<String>)
    ensures
        views(r@) == items@.map_values(|s: &str| s@),
{
    let mut out: Vec<String> = Vec::new();
    let mut i: usize = 0;
    while i < items.len()
        invariant
            i <= items@.len(),
            views(out@) == items@.take(i as int).map_values(|s: &str| s@),
        decreases items@.len() - i,
    {
        let mut s = String::new();
        push_str(&mut s, items[i]);
        let ghost before = views(out@);
        out.push(s);
        assert(views(out@) =~= before.push(items@[i as int]@));
        i = i + 1;
        assert(items@.take(i as int).map_values(|s: &str| s@) =~= items@.take(i - 1).map_values(|s: &str| s@).push(
            items@[i - 1]@,
        ));
    }
    assert(items@.take(i as int) =~= items@);
    out
}

/// The choice offered on each prompt that sets no filter.
pub open spec fn any_choice() -> Seq<char> {
    "(any)"@
}

/// The choices of the status prompt.
pub open spec fn status_choices() -> Seq<Seq<char>> {
    seq!["To Do"@, "In Progress"@, "In Review"@, "Done"@, "Blocked"@, "(any)"@]
}

/// The choices of the status prompt.
pub fn status_options() -> (r: Vec<String>)
    ensures
        views(r@) == status_choices(),
{
    let items: [&str; 6] = ["To Do", "In Progress", "In Review", "Done", "Blocked", "(any)"];
    let r = text_vec(&items);
    assert(views(r@) =~= status_choices());
    r
}

/// The choices of the assignee prompt.
pub open spec fn assignee_choices() -> Seq<Seq<char>> {
    seq!["Me (currentUser)"@, "Unassigned"@, "Custom email"@, "(any)"@]
}

/// The choices of the assignee prompt.
pub fn assignee_options() -> (r: Vec<String>)
    ensures
        views(r@) == assignee_choices(),
{
    let items: [&str; 4] = ["Me (currentUser)", "Unassigned", "Custom email", "(any)"];
    let r = text_vec(&items);
    assert(views(r@) =~= assignee_choices());
    r
}

/// The choices of the priority prompt.
pub open spec fn priority_choices() -> Seq<Seq<char>> {
    seq!["Highest"@, "High"@, "Medium"@, "Low"@, "Lowest"@, "(any)"@]
}

/// The choices of the priority prompt.
pub fn priority_options() -> (r: Vec<String>)
    ensures
        views(r@) == priority_choices(),
{
    let items: [&str; 6] = ["Highest", "High", "Medium", "Low", "Lowest", "(any)"];
    let r = text_vec(&items);
    assert(views(r@) =~= priority_choices());
    r
}

/// The choices of the sort prompt.
pub open spec fn order_choices() -> Seq<Seq<char>> {
    seq!["updated DESC"@, "created DESC"@, "priority DESC"@, "key ASC"@]
}

/// The choices of the sort prompt.
pub fn order_options() -> (r: Vec<String>)
    ensures
        views(r@) == order_choices(),
{
    let items: [&str; 4] = ["updated DESC", "created DESC", "priority DESC", "key ASC"];
    let r = text_vec(&items);
    assert(views(r@) =~= order_choices());
    r
}

/// The single-value filter a status or priority choice sets: none for
/// `(any)`, else the choice itself.
pub fn filter_from_choice(choice: &str) -> (r: Vec<String>)
    ensures
        choice@ == any_choice() ==> r@.len() == 0,
        choice@ != any_choice() ==> views(r@) == seq![choice@],
{
    let mut out: Vec<String> = Vec::new();
    if !str_eq(choice, "(any)") {
        let mut s = String::new();
        push_str(&mut s, choice);
        out.push(s);
        assert(views(out@) =~= seq![choice@]);
    }
    proof {
        reveal_strlit("(any)");
    }
    out
}

/// Whether the assignee choice needs an email address typed in.
pub fn asks_email(choice: &str) -> (r: bool)
    ensures
        r == (choice@ == "Custom email"@),
{
    str_eq(choice, "Custom email")
}

/// The assignee filter an assignee choice sets, with the email typed for
/// `Custom email`.
pub fn assignee_from_choice(choice: &str, email: Option<String>) -> (r: Vec<AssigneeFilter>)
    requires
        choice@ == "Custom email"@ ==> email is Some,
    ensures
        choice@ == "Me (currentUser)"@ ==> r@.len() == 1 && r@[0] is CurrentUser,
        choice@ == "Unassigned"@ ==> r@.len() == 1 && r@[0] is Empty,
        choice@ == "Custom email"@ ==> r@.len() == 1 && (r@[0] matches AssigneeFilter::Email { email: e }
            && e == email.unwrap()),
        choice@ != "Me (currentUser)"@ && choice@ != "Unassigned"@ && choice@ != "Custom email"@ ==> r@.len()
            == 0,
{
    proof {
        reveal_strlit("Me (currentUser)");
        reveal_strlit("Unassigned");
        reveal_strlit("Custom email");
        assert("Unassigned"@.len() != "Me (currentUser)"@.len());
        assert("Custom email"@.len() != "Me (currentUser)"@.len());
        assert("Custom email"@[0] != "Unassigned"@[0]);
    }
    let mut out: Vec<AssigneeFilter> = Vec::new();
    if str_eq(choice, "Me (currentUser)") {
        out.push(AssigneeFilter::CurrentUser);
    } else if str_eq(choice, "Unassigned") {
        out.push(AssigneeFilter::Empty);
    } else if str_eq(choice, "Custom email") {
        match email {
            Some(e) => out.push(AssigneeFilter::Email { email: e }),
            None => {},
        }
    }
    out
}

/// The sort key a sort choice sets; anything but the first three sorts by
/// key, ascending.
pub open spec fn order_of_choice(choice: Seq<char>) -> (Seq<char>, bool) {
    if choice == "updated DESC"@ {
        ("updated"@, true)
    } else if choice == "created DESC"@ {
        ("created"@, true)
    } else if choice == "priority DESC"@ {
        ("priority"@, true)
    } else {
        ("key"@, false)
    }
}

/// The sort key a sort choice sets.
pub fn order_from_choice(choice: &str) -> (r: (String, OrderDir))
    ensures
        r.0@ == order_of_choice(choice@).0,
        (r.1 is Desc) == order_of_choice(choice@).1,
{
    let mut f = String::new();
    if str_eq(choice, "updated DESC") {
        push_str(&mut f, "updated");
        (f, OrderDir::Desc)
    } else if str_eq(choice, "created DESC") {
        push_str(&mut f, "created");
        (f, OrderDir::Desc)
    } else if str_eq(choice, "priority DESC") {
        push_str(&mut f, "priority");
        (f, OrderDir::Desc)
    } else {
        push_str(&mut f, "key");
        (f, OrderDir::Asc)
    }
}

/// The parameters the builder's prompts give: the project typed (blank for
/// none), the status, assignee, priority and sort chosen; no other filter.
pub fn params_from_answers(
    project: Option<String>,
    status: &str,
    assignee: &str,
    email: Option<String>,
    priority: &str,
    order: &str,
) -> (r: JqlParams)
    requires
        assignee@ == "Custom email"@ ==> email is Some,
    ensures
        crate::model::opt_view(r.project) == optional_text(crate::model::opt_view(project)),
        status@ == any_choice() ==> r.status@.len() == 0,
        status@ != any_choice() ==> views(r.status@) == seq![status@],
        assignee@ == "Me (currentUser)"@ ==> r.assignee@.len() == 1 && r.assignee@[0] is CurrentUser,
        assignee@ == "Unassigned"@ ==> r.assignee@.len() == 1 && r.assignee@[0] is Empty,
        assignee@ == "Custom email"@ ==> r.assignee@.len() == 1 && (r.assignee@[0] matches AssigneeFilter::Email {
            email: e,
        } && e == email.unwrap()),
        assignee@ != "Me (currentUser)"@ && assignee@ != "Unassigned"@ && assignee@ != "Custom email"@
            ==> r.assignee@.len() == 0,
        priority@ == any_choice() ==> r.priority@.len() == 0,
        priority@ != any_choice() ==> views(r.priority@) == seq![priority@],
        r.order_by@.len() == 1,
        r.order_by@[0].0@ == order_of_choice(order@).0,
        (r.order_by@[0].1 is Desc) == order_of_choice(order@).1,
        r.labels@.len() == 0,
        r.components@.len() == 0,
        r.fix_versions@.len() == 0,
        r.text is None,
        r.created_after is None,
        r.updated_after is None,
        r.extra_clauses@.len() == 0,
{
    let project = match project {
        Some(p) => crate::issue_input::normalize_optional_text(Some(p.as_str())),
        None => None,
    };
    let mut order_by: Vec<(String, OrderDir)> = Vec::new();
    order_by.push(order_from_choice(order));
    JqlParams {
        project,
        status: filter_from_choice(status),
        assignee: assignee_from_choice(assignee, email),
        priority: filter_from_choice(priority),
        labels: Vec::new(),
        components: Vec::new(),
        fix_versions: Vec::new(),
        text: None,
        created_after: None,
        updated_after: None,
        extra_clauses: Vec::new(),
        order_by,
    }
}

/// What the builder prints once the query is composed.
pub fn generated_jql_message(jql: &str) -> (r: String)
    ensures
        r@ == "\nGenerated JQL:\n  "@ + jql@ + "\n"@,
{
    let mut s = String::new();
    push_str(&mut s, "\nGenerated JQL:\n  ");
    push_str(&mut s, jql);
    push_str(&mut s, "\n");
    s
}

/// The table printed when the built query is run: a note when nothing was
/// found; else a heading, a rule, one row per issue, and when the search
/// reported a total, a blank line and how many of how many are shown.
pub open spec fn builder_table_of(issues: Seq<Issue>, total: Option<u64>) -> Seq<Seq<char>> {
    if issues.len() == 0 {
        seq!["No issues found."@]
    } else {
        seq![
            padded("KEY"@, 12) + " "@ + padded("TYPE"@, 8) + " "@ + padded("STATUS"@, 20) + " SUMMARY"@,
            repeated('─', 82),
        ] + issues.map_values(|i: Issue| issue_row_of(i)) + match total {
            Some(t) => seq![Seq::empty(), "Showing "@ + decimal(issues.len()) + " of "@ + decimal(t as nat)],
            None => Seq::empty(),
        }
    }
}

/// The table printed when the built query is run.
pub fn builder_table(issues: &Vec<Issue>, total: Option<u64>) -> (r: Vec<String>)
    requires
        forall|k: int| 0 <= k < issues@.len() ==> row_ok(#[trigger] issues@[k]),
    ensures
        views(r@) == builder_table_of(issues@, total),
{
    let mut lines: Vec<String> = Vec::new();
    if issues.len() == 0 {
        let mut s = String::new();
        push_str(&mut s, "No issues found.");
        lines.push(s);
        assert(views(lines@) =~= builder_table_of(issues@, total));
        return lines;
    }
    let mut h = String::new();
    push_padded(&mut h, "KEY", 12);
    push_str(&mut h, " ");
    push_padded(&mut h, "TYPE", 8);
    push_str(&mut h, " ");
    push_padded(&mut h, "STATUS", 20);
    push_str(&mut h, " SUMMARY");
    lines.push(h);
    let mut rule = String::new();
    push_repeated(&mut rule, '─', 82);
    lines.push(rule);
    let ghost l0 = views(lines@);
    push_issue_rows(&mut lines, issues);
    let ghost l1 = views(lines@);
    match total {
        Some(t) => {
            lines.push(String::new());
            let mut s = String::new();
            push_str(&mut s, "Showing ");
            push_decimal(&mut s, issues.len() as u64);
            push_str(&mut s, " of ");
            push_decimal(&mut s, t);
            lines.push(s);
        },
        None => {},
    }
    assert(l0 =~= seq![
        padded("KEY"@, 12) + " "@ + padded("TYPE"@, 8) + " "@ + padded("STATUS"@, 20) + " SUMMARY"@,
        repeated('─', 82),
    ]);
    assert(views(lines@) =~= l1 + match total {
        Some(t) => seq![Seq::empty(), "Showing "@ + decimal(issues@.len()) + " of "@ + decimal(t as nat)],
        None => Seq::<Seq<char>>::empty(),
    });
    assert(views(lines@) =~= builder_table_of(issues@, total));
    lines
}

} // verus!

//! `jirac board`: listing agile boards and their issues.
use vstd::prelude::*;

use crate::model::Issue;
use crate::text::{decimal, padded, push_decimal, push_padded, push_padded_decimal, push_str};

verus! {

/// `jirac board` subcommands.
pub enum BoardCommand {
    /// List boards, optionally of one project and of one type.
    List { project: Option<String>, board_type: Option<String>, json: bool },
    /// Show one board.
    Get { id: u64, json: bool },
    /// List the issues on a board.
    Issues { id: u64, jql: Option<String>, max: Option<u32>, json: bool },
    /// List the backlog of a board.
    Backlog { id: u64, jql: Option<String>, max: Option<u32>, json: bool },
}

/// An agile board.
pub struct Board {
    pub id: u64,
    pub name: String,
    pub board_type: String,
    pub project_key: Option<String>,
    pub project_id: Option<u64>,
    pub self_url: String,
}

/// The line listing a board: id, type and project in columns, then the name.
pub open spec fn board_row_of(b: Board) -> Seq<char> {
    padded(decimal(b.id as nat), 8) + " "@ + padded(b.board_type@, 10) + " "@ + padded(
        match b.project_key {
            Some(p) => p@,
            None => "-"@,
        },
        10,
    ) + " "@ + b.name@
}

/// The line listing a board.
pub fn board_row(b: &Board) -> (r: String)
    ensures
        r@ == board_row_of(*b),
{
    let mut l = String::new();
    push_padded_decimal(&mut l, b.id, 8);
    push_str(&mut l, " ");
    push_padded(&mut l, b.board_type.as_str(), 10);
    push_str(&mut l, " ");
    match &b.project_key {
        Some(p) => push_padded(&mut l, p.as_str(), 10),
        None => push_padded(&mut l, "-", 10),
    }
    push_str(&mut l, " ");
    push_str(&mut l, b.name.as_str());
    l
}

/// The lines describing one board; the project and URL lines only when known.
pub open spec fn board_details_of(b: Board) -> Seq<Seq<char>> {
    let head = seq![
        "ID:           "@ + decimal(b.id as nat),
        "Name:         "@ + b.name@,
        "Type:         "@ + b.board_type@,
    ];
    let with_key = match b.project_key {
        Some(p) => head.push("Project key:  "@ + p@),
        None => head,
    };
    let with_id = match b.project_id {
        Some(i) => with_key.push("Project ID:   "@ + decimal(i as nat)),
        None => with_key,
    };
    if b.self_url@.len() > 0 {
        with_id.push("URL:          "@ + b.self_url@)
    } else {
        with_id
    }
}

/// The lines describing one board.
pub fn board_details(b: &Board) -> (r: Vec<String>)
    ensures
        crate::text::views(r@) == board_details_of(*b),
{
    let mut lines: Vec<String> = Vec::new();
    let mut a = String::new();
    push_str(&mut a, "ID:           ");
    push_decimal(&mut a, b.id);
    lines.push(a);
    let mut n = String::new();
    push_str(&mut n, "Name:         ");
    push_str(&mut n, b.name.as_str());
    lines.push(n);
    let mut t = String::new();
    push_str(&mut t, "Type:         ");
    push_str(&mut t, b.board_type.as_str());
    lines.push(t);
    let ghost head = seq![
        "ID:           "@ + decimal(b.id as nat),
        "Name:         "@ + b.name@,
        "Type:         "@ + b.board_type@,
    ];
    assert(crate::text::views(lines@) =~= head);
    match &b.project_key {
        Some(p) => {
            let mut l = String::new();
            push_str(&mut l, "Project key:  ");
            push_str(&mut l, p.as_str());
            let ghost before = crate::text::views(lines@);
            lines.push(l);
            assert(crate::text::views(lines@) =~= before.push("Project key:  "@ + p@));
        },
        None => {},
    }
    match b.project_id {
        Some(i) => {
            let mut l = String::new();
            push_str(&mut l, "Project ID:   ");
            push_decimal(&mut l, i);
            let ghost before = crate::text::views(lines@);
            lines.push(l);
            assert(crate::text::views(lines@) =~= before.push("Project ID:   "@ + decimal(i as nat)));
        },
        None => {},
    }
    if b.self_url.unicode_len() > 0 {
        let mut l = String::new();
        push_str(&mut l, "URL:          ");
        push_str(&mut l, b.self_url.as_str());
        let ghost before = crate::text::views(lines@);
        lines.push(l);
        assert(crate::text::views(lines@) =~= before.push("URL:          "@ + b.self_url@));
    }
    lines
}

/// What a board listing calls its issues: the backlog or the issues.
pub fn board_issues_label(backlog: bool) -> (r: &'static str)
    ensures
        r@ == if backlog {
            "backlog"@
        } else {
            "issues"@
        },
{
    if backlog {
        "backlog"
    } else {
        "issues"
    }
}

/// The line listing an issue of a board: key and status in columns, then the summary.
pub open spec fn board_issue_row_of(i: Issue) -> Seq<char> {
    padded(i.key@, 14) + " "@ + padded(i.status@, 14) + " "@ + i.summary@
}

/// The line listing an issue of a board.
pub fn board_issue_row(i: &Issue) -> (r: String)
    ensures
        r@ == board_issue_row_of(*i),
{
    let mut l = String::new();
    push_padded(&mut l, i.key.as_str(), 14);
    push_str(&mut l, " ");
    push_padded(&mut l, i.status.as_str(), 14);
    push_str(&mut l, " ");
    push_str(&mut l, i.summary.as_str());
    l
}

} // verus!

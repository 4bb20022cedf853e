//! `jirac issue link`: the table of link types and what adding or deleting a
//! link prints.
use vstd::prelude::*;

use crate::text::{padded, push_padded, push_str, views};

verus! {

/// A kind of link between issues: its id, name, and how each side reads.
pub struct LinkType {
    pub id: String,
    pub name: String,
    pub inward: String,
    pub outward: String,
}

/// The row of a link type.
pub open spec fn link_type_row(t: LinkType) -> Seq<char> {
    padded(t.id@, 10) + " "@ + padded(t.name@, 15) + " "@ + padded(t.inward@, 20) + " "@ + padded(t.outward@, 20)
}

/// `n` dashes.
pub open spec fn dashes(n: nat) -> Seq<char> {
    Seq::new(n, |i: int| '-')
}

/// The table of link types: a heading, a rule of dashes, a row per type.
pub open spec fn link_type_table_of(ts: Seq<LinkType>) -> Seq<Seq<char>> {
    seq![
        padded("ID"@, 10) + " "@ + padded("Name"@, 15) + " "@ + padded("Inward"@, 20) + " "@ + padded("Outward"@, 20),
        dashes(65),
    ] + ts.map_values(|t: LinkType| link_type_row(t))
}

/// The table of link types.
pub fn link_type_table(types: &Vec<LinkType>) -> (r: Vec<String>)
    ensures
        views(r@) == link_type_table_of(types@),
{
    let mut lines: Vec<String> = Vec::new();
    let mut h = String::new();
    push_padded(&mut h, "ID", 10);
    push_str(&mut h, " ");
    push_padded(&mut h, "Name", 15);
    push_str(&mut h, " ");
    push_padded(&mut h, "Inward", 20);
    push_str(&mut h, " ");
    push_padded(&mut h, "Outward", 20);
    lines.push(h);
    let mut rule = String::new();
    crate::issue_views::push_repeated(&mut rule, '-', 65);
    assert(crate::issue_views::repeated('-', 65) =~= dashes(65));
    lines.push(rule);
    let ghost l0 = views(lines@);
    let mut i: usize = 0;
    while i < types.len()
        invariant
            i <= types@.len(),
            views(lines@) == l0 + types@.take(i as int).map_values(|t: LinkType| link_type_row(t)),
        decreases types@.len() - i,
    {
        let t = &types[i];
        let mut row = String::new();
        push_padded(&mut row, t.id.as_str(), 10);
        push_str(&mut row, " ");
        push_padded(&mut row, t.name.as_str(), 15);
        push_str(&mut row, " ");
        push_padded(&mut row, t.inward.as_str(), 20);
        push_str(&mut row, " ");
        push_padded(&mut row, t.outward.as_str(), 20);
        let ghost before = views(lines@);
        lines.push(row);
        assert(views(lines@) =~= before.push(link_type_row(types@[i as int])));
        i = i + 1;
        assert(types@.take(i as int).map_values(|t: LinkType| link_type_row(t)) =~= types@.take(i - 1).map_values(
            |t: LinkType| link_type_row(t),
        ).push(link_type_row(types@[i - 1])));
    }
    assert(types@.take(i as int) =~= types@);
    assert(views(lines@) =~= link_type_table_of(types@));
    lines
}

/// What is printed once two issues are linked.
pub fn linked_message(outward: &str, inward: &str, link_type: &str) -> (r: String)
    ensures
        r@ == "✓ Linked "@ + outward@ + " to "@ + inward@ + " as '"@ + link_type@ + "'"@,
{
    let mut s = String::new();
    push_str(&mut s, "✓ Linked ");
    push_str(&mut s, outward);
    push_str(&mut s, " to ");
    push_str(&mut s, inward);
    push_str(&mut s, " as '");
    push_str(&mut s, link_type);
    push_str(&mut s, "'");
    s
}

/// The question asked before a link is deleted.
pub fn delete_link_question(id: &str) -> (r: String)
    ensures
        r@ == "Delete issue link "@ + id@ + "?"@,
{
    let mut s = String::new();
    push_str(&mut s, "Delete issue link ");
    push_str(&mut s, id);
    push_str(&mut s, "?");
    s
}

/// What is printed once a link is deleted.
pub fn deleted_link_message(id: &str) -> (r: String)
    ensures
        r@ == "✓ Deleted issue link "@ + id@,
{
    let mut s = String::new();
    push_str(&mut s, "✓ Deleted issue link ");
    push_str(&mut s, id);
    s
}

} // verus!

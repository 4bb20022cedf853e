//! `jirac plan`: listing Jira Plans.
use vstd::prelude::*;

use crate::model::{json_get, json_str, JsonValue, JsonView};
use crate::text::{chars_of, decimal, padded, parse_u64, parse_u64_chars, push_padded, push_padded_decimal, push_str};

verus! {

/// `jirac plan` subcommands.
pub enum PlanCommand {
    /// List the plans.
    List,
}

/// `Value::as_u64` of a JSON number held by its decimal rendering.
pub open spec fn json_u64(v: Option<JsonView>) -> Option<u64> {
    match v {
        Some(JsonView::Number(n)) => parse_u64(n),
        _ => None,
    }
}

/// The id of a plan (`0` when missing).
pub open spec fn plan_id(p: JsonView) -> u64 {
    match json_u64(json_get(p, "id"@)) {
        Some(n) => n,
        None => 0,
    }
}

/// The name of a plan: its `title`, else its `name`, when a text; `—` otherwise.
pub open spec fn plan_name(p: JsonView) -> Seq<char> {
    let member = match json_get(p, "title"@) {
        Some(t) => Some(t),
        None => json_get(p, "name"@),
    };
    match json_str(member) {
        Some(s) => s,
        None => "—"@,
    }
}

/// The status of a plan, or `—`.
pub open spec fn plan_status(p: JsonView) -> Seq<char> {
    match json_str(json_get(p, "status"@)) {
        Some(s) => s,
        None => "—"@,
    }
}

/// The line listing a plan: id and name in columns, then the status.
pub open spec fn plan_row_of(p: JsonView) -> Seq<char> {
    padded(decimal(plan_id(p) as nat), 8) + " "@ + padded(plan_name(p), 40) + " "@ + plan_status(p)
}

/// The heading of the plan listing.
pub open spec fn plan_heading() -> Seq<char> {
    padded("ID"@, 8) + " "@ + padded("NAME"@, 40) + " STATUS"@
}

pub fn member_u64(v: &JsonValue, key: &str) -> (r: Option<u64>)
    ensures
        r == json_u64(json_get(v.deep(), key@)),
{
    match v.get(key) {
        Some(JsonValue::Number(n)) => {
            let c = chars_of(n.as_str());
            parse_u64_chars(&c)
        },
        _ => None,
    }
}

/// The line listing a plan.
pub fn plan_row(p: &JsonValue) -> (r: String)
    ensures
        r@ == plan_row_of(p.deep()),
{
    let id: u64 = match member_u64(p, "id") {
        Some(n) => n,
        None => 0,
    };
    let member = match p.get("title") {
        Some(t) => Some(t),
        None => p.get("name"),
    };
    let name: &str = match member {
        Some(m) => match m.as_str() {
            Some(s) => s,
            None => "—",
        },
        None => "—",
    };
    let status: &str = match p.get("status") {
        Some(m) => match m.as_str() {
            Some(s) => s,
            None => "—",
        },
        None => "—",
    };
    let mut l = String::new();
    push_padded_decimal(&mut l, id, 8);
    push_str(&mut l, " ");
    push_padded(&mut l, name, 40);
    push_str(&mut l, " ");
    push_str(&mut l, status);
    l
}

/// The heading of the plan listing.
pub fn plan_heading_line() -> (r: String)
    ensures
        r@ == plan_heading(),
{
    let mut l = String::new();
    push_padded(&mut l, "ID", 8);
    push_str(&mut l, " ");
    push_padded(&mut l, "NAME", 40);
    push_str(&mut l, " STATUS");
    l
}

} // verus!

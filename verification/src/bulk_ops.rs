//! Transitions and bulk changes on the command line: which transition a
//! name or id picks, the menu of transitions and the id read back from it,
//! and what a bulk transition or update reports.
use vstd::prelude::*;

use crate::manifest::{indented, TransitionChoice};
use crate::text::{decimal, push_decimal, push_str, str_eq, strip_trailing_of, views};

verus! {

/// The position of the first transition whose id or name is `wanted`, exactly.
pub open spec fn transition_position(ts: Seq<TransitionChoice>, wanted: Seq<char>) -> Option<int>
    decreases ts.len(),
{
    if ts.len() == 0 {
        None
    } else {
        match transition_position(ts.drop_last(), wanted) {
            Some(i) => Some(i),
            None => if ts.last().id@ == wanted || ts.last().name@ == wanted {
                Some(ts.len() - 1)
            } else {
                None
            },
        }
    }
}

/// The id of the transition named or numbered `wanted`, or the error.
pub fn pick_transition(ts: &Vec<TransitionChoice>, wanted: &str) -> (r: Result<String, String>)
    ensures
        match transition_position(ts@, wanted@) {
            Some(i) => r matches Ok(id) && id@ == ts@[i].id@,
            None => r matches Err(m) && m@ == "Transition '"@ + wanted@ + "' not found"@,
        },
{
    let mut i: usize = 0;
    while i < ts.len()
        invariant
            i <= ts@.len(),
            transition_position(ts@.take(i as int), wanted@) is None,
        decreases ts@.len() - i,
    {
        assert(ts@.take(i + 1).drop_last() =~= ts@.take(i as int));
        if str_eq(ts[i].id.as_str(), wanted) || str_eq(ts[i].name.as_str(), wanted) {
            proof {
                lemma_position_extends(ts@, wanted@, i + 1);
            }
            let mut id = String::new();
            push_str(&mut id, ts[i].id.as_str());
            return Ok(id);
        }
        i = i + 1;
    }
    assert(ts@.take(i as int) =~= ts@);
    let mut m = String::new();
    push_str(&mut m, "Transition '");
    push_str(&mut m, wanted);
    push_str(&mut m, "' not found");
    Err(m)
}

proof fn lemma_position_extends(ts: Seq<TransitionChoice>, wanted: Seq<char>, n: int)
    requires
        0 < n <= ts.len(),
        transition_position(ts.take(n), wanted) is Some,
    ensures
        transition_position(ts, wanted) == transition_position(ts.take(n), wanted),
    decreases ts.len() - n,
{
    if n < ts.len() {
        assert(ts.take(n + 1).drop_last() =~= ts.take(n));
        lemma_position_extends(ts, wanted, n + 1);
    } else {
        assert(ts.take(n) =~= ts);
    }
}

/// How a transition is offered in the menu: its name, then its id in brackets.
pub open spec fn option_text(name: Seq<char>, id: Seq<char>) -> Seq<char> {
    name + " ["@ + id + "]"@
}

/// The menu of transitions.
pub fn transition_options(ts: &Vec<TransitionChoice>) -> (r: Vec<String>)
    ensures
        views(r@) == ts@.map_values(|t: TransitionChoice| option_text(t.name@, t.id@)),
{
    let mut out: Vec<String> = Vec::new();
    let mut i: usize = 0;
    while i < ts.len()
        invariant
            i <= ts@.len(),
            views(out@) == ts@.take(i as int).map_values(|t: TransitionChoice| option_text(t.name@, t.id@)),
        decreases ts@.len() - i,
    {
        let mut s = String::new();
        push_str(&mut s, ts[i].name.as_str());
        push_str(&mut s, " [");
        push_str(&mut s, ts[i].id.as_str());
        push_str(&mut s, "]");
        let ghost before = views(out@);
        out.push(s);
        assert(views(out@) =~= before.push(option_text(ts@[i as int].name@, ts@[i as int].id@)));
        i = i + 1;
        assert(ts@.take(i as int).map_values(|t: TransitionChoice| option_text(t.name@, t.id@)) =~= ts@.take(
            i - 1,
        ).map_values(|t: TransitionChoice| option_text(t.name@, t.id@)).push(
            option_text(ts@[i - 1].name@, ts@[i - 1].id@),
        ));
    }
    assert(ts@.take(i as int) =~= ts@);
    out
}

/// The text after the last `[` of `s`, or all of `s` when it has none.
pub open spec fn after_last_bracket(s: Seq<char>) -> Seq<char>
    decreases s.len(),
{
    if s.len() == 0 {
        s
    } else if s.last() == '[' {
        Seq::empty()
    } else {
        after_last_bracket(s.drop_last()).push(s.last())
    }
}

/// The id read back from a chosen menu entry: trailing `]` removed, then the
/// text after the last `[`.
pub open spec fn option_id_of(selected: Seq<char>) -> Seq<char> {
    after_last_bracket(strip_trailing_of(selected, ']'))
}

/// The id read back from a chosen menu entry.
pub fn option_id(selected: &str) -> (r: String)
    ensures
        r@ == option_id_of(selected@),
{
    let v = crate::text::chars_of(selected);
    let mut end: usize = v.len();
    assert(v@.take(end as int) =~= v@);
    while end > 0 && v[end - 1] == ']'
        invariant
            end <= v@.len(),
            v@ == selected@,
            strip_trailing_of(v@, ']') == strip_trailing_of(v@.take(end as int), ']'),
        decreases end,
    {
        assert(v@.take(end as int).drop_last() =~= v@.take(end - 1));
        end = end - 1;
    }
    let ghost t = v@.take(end as int);
    assert(strip_trailing_of(t, ']') == t);
    let mut start: usize = end;
    while start > 0 && v[start - 1] != '['
        invariant
            start <= end <= v@.len(),
            t == v@.take(end as int),
            after_last_bracket(t) == after_last_bracket(v@.take(start as int)) + v@.subrange(
                start as int,
                end as int,
            ),
        decreases start,
    {
        assert(v@.take(start as int).drop_last() =~= v@.take(start - 1));
        assert(v@.take(start as int).last() == v@[start - 1]);
        assert(v@.subrange(start - 1, end as int) =~= seq![v@[start - 1]] + v@.subrange(start as int, end as int));
        start = start - 1;
    }
    if start > 0 {
        assert(v@.take(start as int).last() == '[');
    } else {
        assert(v@.take(0) =~= Seq::<char>::empty());
    }
    let r = crate::text::string_of_range(&v, start, end);
    assert(r@ =~= option_id_of(selected@));
    r
}

/// A transition read back from its menu entry is the transition offered,
/// when its id holds no `[` and does not end with `]`.
pub proof fn law_option_round_trip(name: Seq<char>, id: Seq<char>)
    requires
        !id.contains('['),
        id.len() == 0 || id.last() != ']',
    ensures
        option_id_of(option_text(name, id)) == id,
{
    let s = option_text(name, id);
    let head = name + " ["@;
    reveal_strlit(" [");
    reveal_strlit("]");
    assert(head.last() == '[');
    assert(s =~= (head + id).push(']'));
    assert(s.drop_last() =~= head + id);
    assert((head + id).last() != ']') by {
        if id.len() > 0 {
            assert((head + id).last() == id.last());
        } else {
            assert(head + id =~= head);
        }
    }
    assert(strip_trailing_of(head + id, ']') == head + id);
    assert(strip_trailing_of(s, ']') == head + id);
    lemma_after_bracket(head, id);
}

proof fn lemma_after_bracket(head: Seq<char>, id: Seq<char>)
    requires
        head.len() > 0,
        head.last() == '[',
        !id.contains('['),
    ensures
        after_last_bracket(head + id) == id,
    decreases id.len(),
{
    if id.len() == 0 {
        assert(head + id =~= head);
    } else {
        let d = id.drop_last();
        assert((head + id).drop_last() =~= head + d);
        assert((head + id).last() == id.last());
        assert(!d.contains('[')) by {
            if d.contains('[') {
                let j = choose|j: int| 0 <= j < d.len() && d[j] == '[';
                assert(id[j] == '[');
            }
        }
        assert(id.last() != '[') by {
            assert(id[id.len() - 1] == id.last());
        }
        lemma_after_bracket(head, d);
        assert(d.push(id.last()) =~= id);
    }
}

/// The entry kept for an issue that a bulk change failed on.
pub open spec fn failure_entry_text(key: Seq<char>, error: Seq<char>) -> Seq<char> {
    key + ": "@ + error
}

/// The entry kept for an issue that a bulk change failed on.
pub fn failure_entry(key: &str, error: &str) -> (r: String)
    ensures
        r@ == failure_entry_text(key@, error@),
{
    let mut s = String::new();
    push_str(&mut s, key);
    push_str(&mut s, ": ");
    push_str(&mut s, error);
    s
}

/// What a bulk change did, for its report.
pub enum BulkChange {
    /// Every issue was moved through the transition named `to`.
    Transitioned { to: String },
    /// Every issue got the same field changes.
    Updated,
}

/// The first line of a bulk change's report.
pub open spec fn bulk_head(change: BulkChange, ok: nat, total: nat) -> Seq<char> {
    match change {
        BulkChange::Transitioned { to } => "✓ Transitioned "@ + decimal(ok) + "/"@ + decimal(total)
            + " issues to '"@ + to@ + "'"@,
        BulkChange::Updated => "✓ Updated "@ + decimal(ok) + "/"@ + decimal(total) + " issues"@,
    }
}

/// The report of a bulk change: the head line, then the failures, if any,
/// under a count.
pub open spec fn bulk_change_report(change: BulkChange, ok: nat, total: nat, failed: Seq<Seq<char>>) -> Seq<Seq<char>> {
    let head = seq![bulk_head(change, ok, total)];
    if failed.len() == 0 {
        head
    } else {
        head + seq!["✗ Failed ("@ + decimal(failed.len()) + "):"@] + failed.map_values(|f: Seq<char>| "  "@ + f)
    }
}

/// The report printed after a bulk transition or update.
pub fn bulk_change_lines(change: &BulkChange, ok: u64, total: usize, failed: &Vec<String>) -> (r: Vec<String>)
    ensures
        views(r@) == bulk_change_report(*change, ok as nat, total as nat, views(failed@)),
{
    let mut head = String::new();
    match change {
        BulkChange::Transitioned { to } => {
            push_str(&mut head, "✓ Transitioned ");
            push_decimal(&mut head, ok);
            push_str(&mut head, "/");
            push_decimal(&mut head, total as u64);
            push_str(&mut head, " issues to '");
            push_str(&mut head, to.as_str());
            push_str(&mut head, "'");
        },
        BulkChange::Updated => {
            push_str(&mut head, "✓ Updated ");
            push_decimal(&mut head, ok);
            push_str(&mut head, "/");
            push_decimal(&mut head, total as u64);
            push_str(&mut head, " issues");
        },
    }
    let mut lines: Vec<String> = Vec::new();
    lines.push(head);
    assert(views(lines@) =~= seq![bulk_head(*change, ok as nat, total as nat)]);
    if failed.len() > 0 {
        let mut f = String::new();
        push_str(&mut f, "✗ Failed (");
        push_decimal(&mut f, failed.len() as u64);
        push_str(&mut f, "):");
        let ghost before = views(lines@);
        lines.push(f);
        assert(views(lines@) =~= before + seq!["✗ Failed ("@ + decimal(views(failed@).len()) + "):"@]);
        indented(&mut lines, failed);
    }
    lines
}

/// The question asked before a bulk transition of `n` issues.
pub fn bulk_transition_question(n: usize, to: &str) -> (r: String)
    ensures
        r@ == "Transition all "@ + decimal(n as nat) + " issues to '"@ + to@ + "'?"@,
{
    let mut s = String::new();
    push_str(&mut s, "Transition all ");
    push_decimal(&mut s, n as u64);
    push_str(&mut s, " issues to '");
    push_str(&mut s, to);
    push_str(&mut s, "'?");
    s
}

/// The question asked before a bulk update of `n` issues.
pub fn bulk_update_question(n: usize) -> (r: String)
    ensures
        r@ == "Update "@ + decimal(n as nat) + " issues?"@,
{
    let mut s = String::new();
    push_str(&mut s, "Update ");
    push_decimal(&mut s, n as u64);
    push_str(&mut s, " issues?");
    s
}

/// A bulk update needs a field to change: it is refused when neither an
/// assignee nor a priority is given.
pub fn check_bulk_update(assignee: &Option<String>, priority: &Option<String>) -> (r: Result<(), String>)
    ensures
        r is Ok <==> (assignee is Some || priority is Some),
        r matches Err(m) ==> m@ == "Nothing to update. Use --assignee or --priority."@,
{
    if assignee.is_none() && priority.is_none() {
        let mut m = String::new();
        push_str(&mut m, "Nothing to update. Use --assignee or --priority.");
        return Err(m);
    }
    Ok(())
}

} // verus!

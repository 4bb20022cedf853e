//! Sprints and boards on the command line: which board a new sprint goes to,
//! which sprint a name or id means, and how a sprint is printed.
use vstd::prelude::*;

use crate::model::{json_get, json_str, JsonValue, JsonView, Sprint};
use crate::plan::{json_u64, member_u64};
use crate::text::{
    ascii_lowercase, ascii_lowercase_str, byte_len, chars_of, decimal, is_boundary, join,
    join_strings, parse_u64, parse_u64_chars, push_decimal, push_str, str_eq, trim, trim_str,
    views,
};
use crate::versions::{cut_to_bytes, first_ten_bytes};

verus! {

/// How a board is offered in a message: its name and id.
pub open spec fn board_text(b: (u64, Seq<char>)) -> Seq<char> {
    b.1 + " ("@ + decimal(b.0 as nat) + ")"@
}

/// The boards offered in a message, separated by commas.
pub open spec fn board_list(bs: Seq<(u64, Seq<char>)>) -> Seq<char> {
    join(bs.map_values(|b: (u64, Seq<char>)| board_text(b)), ", "@)
}

/// The views of boards given as id and name.
pub open spec fn board_views(bs: Seq<(u64, String)>) -> Seq<(u64, Seq<char>)> {
    bs.map_values(|b: (u64, String)| (b.0, b.1@))
}

/// The board a sprint of project `p` goes to: the one requested when the
/// project has it; else the project's only board; else an error listing them.
pub open spec fn board_choice(p: Seq<char>, bs: Seq<(u64, Seq<char>)>, requested: Option<u64>) -> Result<u64, Seq<char>> {
    if bs.len() == 0 {
        Err("No sprint-enabled boards found for project "@ + p)
    } else {
        match requested {
            Some(id) => if exists|i: int| 0 <= i < bs.len() && #[trigger] bs[i].0 == id {
                Ok(id)
            } else {
                Err(
                    "Board "@ + decimal(id as nat) + " is not available for project "@ + p
                        + ". Available boards: "@ + board_list(bs),
                )
            },
            None => if bs.len() == 1 {
                Ok(bs[0].0)
            } else {
                Err(
                    "Project "@ + p + " maps to multiple boards. Re-run with --board-id. Available boards: "@
                        + board_list(bs),
                )
            },
        }
    }
}

fn board_list_text(boards: &Vec<(u64, String)>) -> (r: String)
    ensures
        r@ == board_list(board_views(boards@)),
{
    let mut parts: Vec<String> = Vec::new();
    let ghost bv = board_views(boards@);
    let mut i: usize = 0;
    while i < boards.len()
        invariant
            i <= boards@.len(),
            bv == board_views(boards@),
            views(parts@) == bv.take(i as int).map_values(|b: (u64, Seq<char>)| board_text(b)),
        decreases boards@.len() - i,
    {
        let mut t = String::new();
        push_str(&mut t, boards[i].1.as_str());
        push_str(&mut t, " (");
        push_decimal(&mut t, boards[i].0);
        push_str(&mut t, ")");
        let ghost before = views(parts@);
        parts.push(t);
        assert(views(parts@) =~= before.push(board_text(bv[i as int])));
        i = i + 1;
        assert(bv.take(i as int).map_values(|b: (u64, Seq<char>)| board_text(b)) =~= bv.take(i - 1).map_values(
            |b: (u64, Seq<char>)| board_text(b),
        ).push(board_text(bv[i - 1])));
    }
    assert(bv.take(i as int) =~= bv);
    join_strings(&parts, ", ")
}

/// The board a new sprint of `project_key` goes to, among the project's
/// `boards` (id and name).
pub fn choose_board(project_key: &str, boards: &Vec<(u64, String)>, requested: Option<u64>) -> (r: Result<u64, String>)
    ensures
        match r {
            Ok(id) => board_choice(project_key@, board_views(boards@), requested) == Ok::<u64, Seq<char>>(id),
            Err(e) => board_choice(project_key@, board_views(boards@), requested) == Err::<u64, Seq<char>>(e@),
        },
{
    let ghost bv = board_views(boards@);
    if boards.len() == 0 {
        let mut m = String::new();
        push_str(&mut m, "No sprint-enabled boards found for project ");
        push_str(&mut m, project_key);
        return Err(m);
    }
    match requested {
        Some(id) => {
            let mut i: usize = 0;
            while i < boards.len()
                invariant
                    i <= boards@.len(),
                    bv == board_views(boards@),
                    boards@.len() > 0,
                    requested == Some(id),
                    forall|j: int| 0 <= j < i ==> bv[j].0 != id,
                decreases boards@.len() - i,
            {
                if boards[i].0 == id {
                    assert(bv[i as int].0 == id);
                    assert(bv.len() == boards@.len());
                    assert(exists|j: int| 0 <= j < bv.len() && #[trigger] bv[j].0 == id);
                    return Ok(id);
                }
                i = i + 1;
            }
            let mut m = String::new();
            push_str(&mut m, "Board ");
            push_decimal(&mut m, id);
            push_str(&mut m, " is not available for project ");
            push_str(&mut m, project_key);
            push_str(&mut m, ". Available boards: ");
            let l = board_list_text(boards);
            push_str(&mut m, l.as_str());
            Err(m)
        },
        None => {
            if boards.len() == 1 {
                return Ok(boards[0].0);
            }
            let mut m = String::new();
            push_str(&mut m, "Project ");
            push_str(&mut m, project_key);
            push_str(&mut m, " maps to multiple boards. Re-run with --board-id. Available boards: ");
            let l = board_list_text(boards);
            push_str(&mut m, l.as_str());
            Err(m)
        },
    }
}

/// The boards listed in a board search response: each item with a numeric
/// id, named by its `name` (`Unnamed board` when it has none).
pub open spec fn board_entries(items: Seq<JsonView>) -> Seq<(u64, Seq<char>)>
    decreases items.len(),
{
    if items.len() == 0 {
        Seq::empty()
    } else {
        let r = board_entries(items.drop_last());
        let b = items.last();
        match json_u64(json_get(b, "id"@)) {
            Some(id) => r.push(
                (
                    id,
                    match json_str(json_get(b, "name"@)) {
                        Some(n) => n,
                        None => "Unnamed board"@,
                    },
                ),
            ),
            None => r,
        }
    }
}

/// The items of the `values` array of a response, if it has one.
pub open spec fn values_of(v: JsonView) -> Option<Seq<JsonView>> {
    match json_get(v, "values"@) {
        Some(JsonView::Array(items)) => Some(items),
        _ => None,
    }
}

/// The boards of a board search response; none when it has no `values` array.
pub fn boards_of(response: &JsonValue) -> (r: Option<Vec<(u64, String)>>)
    ensures
        match r {
            Some(bs) => values_of(response.deep()) matches Some(items) && board_views(bs@) == board_entries(
                items,
            ),
            None => values_of(response.deep()) is None,
        },
{
    let items = match response.get("values") {
        Some(v) => match v.as_array() {
            Some(items) => items,
            None => return None,
        },
        None => return None,
    };
    let ghost deep_items = values_of(response.deep())->0;
    assert(deep_items.len() == items@.len());
    let mut out: Vec<(u64, String)> = Vec::new();
    let mut i: usize = 0;
    while i < items.len()
        invariant
            i <= items@.len(),
            deep_items.len() == items@.len(),
            forall|k: int| 0 <= k < items@.len() ==> deep_items[k] == (#[trigger] items@[k]).deep(),
            board_views(out@) == board_entries(deep_items.take(i as int)),
        decreases items@.len() - i,
    {
        assert(deep_items.take(i + 1).drop_last() =~= deep_items.take(i as int));
        assert(deep_items.take(i + 1).last() == items@[i as int].deep());
        match member_u64(&items[i], "id") {
            Some(id) => {
                let mut name = String::new();
                match items[i].get("name") {
                    Some(n) => match n.as_str() {
                        Some(t) => push_str(&mut name, t),
                        None => push_str(&mut name, "Unnamed board"),
                    },
                    None => push_str(&mut name, "Unnamed board"),
                }
                let ghost before = board_views(out@);
                out.push((id, name));
                assert(board_views(out@) =~= before.push((id, name@)));
            },
            None => {},
        }
        i = i + 1;
    }
    assert(deep_items.take(i as int) =~= deep_items);
    Some(out)
}

/// Whether two names are equal ignoring ASCII case (`eq_ignore_ascii_case`).
pub open spec fn same_name(a: Seq<char>, b: Seq<char>) -> bool {
    ascii_lowercase(a) == ascii_lowercase(b)
}

/// Whether two names are equal ignoring ASCII case.
pub fn eq_ignore_ascii_case(a: &str, b: &str) -> (r: bool)
    ensures
        r == same_name(a@, b@),
{
    let x = ascii_lowercase_str(a);
    let y = ascii_lowercase_str(b);
    str_eq(x.as_str(), y.as_str())
}

/// The position of the first sprint with id `id`.
pub open spec fn first_with_id(ss: Seq<Sprint>, id: u64) -> Option<int>
    decreases ss.len(),
{
    if ss.len() == 0 {
        None
    } else {
        match first_with_id(ss.drop_last(), id) {
            Some(i) => Some(i),
            None => if ss.last().id == id {
                Some(ss.len() - 1)
            } else {
                None
            },
        }
    }
}

/// The positions of the sprints named `name`, ignoring ASCII case.
pub open spec fn named(ss: Seq<Sprint>, name: Seq<char>) -> Seq<int>
    decreases ss.len(),
{
    if ss.len() == 0 {
        Seq::empty()
    } else {
        let r = named(ss.drop_last(), name);
        if same_name(ss.last().name@, name) {
            r.push(ss.len() - 1)
        } else {
            r
        }
    }
}

/// How a sprint is offered when a name is ambiguous.
pub open spec fn sprint_text(s: Sprint) -> Seq<char> {
    s.name@ + " (id:"@ + decimal(s.id as nat) + ", board:"@ + decimal(
        match s.board_id {
            Some(b) => b as nat,
            None => 0,
        },
    ) + ")"@
}

/// The sprint of project `p` that `wanted` names: by id when it is a number,
/// else the one sprint with that name ignoring ASCII case.
pub open spec fn sprint_choice(p: Seq<char>, ss: Seq<Sprint>, wanted: Seq<char>) -> Result<int, Seq<char>> {
    match parse_u64(trim(wanted)) {
        Some(id) => match first_with_id(ss, id) {
            Some(i) => Ok(i),
            None => Err("Sprint id "@ + decimal(id as nat) + " was not found in project "@ + p),
        },
        None => {
            let ms = named(ss, trim(wanted));
            if ms.len() == 0 {
                Err("Sprint '"@ + wanted + "' was not found on any sprint-enabled board for project "@ + p)
            } else if ms.len() == 1 {
                Ok(ms[0])
            } else {
                Err(
                    "Sprint '"@ + wanted + "' matched multiple sprints. Use a numeric sprint ID instead: "@
                        + join(ms.map_values(|i: int| sprint_text(ss[i])), ", "@),
                )
            }
        },
    }
}

proof fn lemma_named_bounds(ss: Seq<Sprint>, name: Seq<char>)
    ensures
        forall|j: int| 0 <= j < named(ss, name).len() ==> 0 <= #[trigger] named(ss, name)[j] < ss.len(),
    decreases ss.len(),
{
    if ss.len() > 0 {
        lemma_named_bounds(ss.drop_last(), name);
        let r = named(ss.drop_last(), name);
        assert forall|j: int| 0 <= j < named(ss, name).len() implies 0 <= #[trigger] named(ss, name)[j]
            < ss.len() by {
            if j < r.len() {
                assert(named(ss, name)[j] == r[j]);
            }
        }
    }
}

/// The position of the sprint that `wanted` names among the project's
/// sprints, or why there is none.
pub fn pick_sprint(project_key: &str, sprints: &Vec<Sprint>, wanted: &str) -> (r: Result<usize, String>)
    ensures
        match r {
            Ok(i) => sprint_choice(project_key@, sprints@, wanted@) == Ok::<int, Seq<char>>(i as int),
            Err(e) => sprint_choice(project_key@, sprints@, wanted@) == Err::<int, Seq<char>>(e@),
        },
{
    let t = trim_str(wanted);
    let tv = chars_of(t.as_str());
    match parse_u64_chars(&tv) {
        Some(id) => {
            let mut i: usize = 0;
            while i < sprints.len()
                invariant
                    i <= sprints@.len(),
                    parse_u64(trim(wanted@)) == Some(id),
                    first_with_id(sprints@.take(i as int), id) is None,
                decreases sprints@.len() - i,
            {
                assert(sprints@.take(i + 1).drop_last() =~= sprints@.take(i as int));
                if sprints[i].id == id {
                    proof {
                        lemma_first_with_id_prefix(sprints@, id, i + 1);
                    }
                    return Ok(i);
                }
                i = i + 1;
            }
            assert(sprints@.take(i as int) =~= sprints@);
            let mut m = String::new();
            push_str(&mut m, "Sprint id ");
            push_decimal(&mut m, id);
            push_str(&mut m, " was not found in project ");
            push_str(&mut m, project_key);
            Err(m)
        },
        None => {
            let mut ms: Vec<usize> = Vec::new();
            let mut i: usize = 0;
            while i < sprints.len()
                invariant
                    i <= sprints@.len(),
                    t@ == trim(wanted@),
                    parse_u64(trim(wanted@)) is None,
                    ms@.map_values(|k: usize| k as int) == named(sprints@.take(i as int), trim(wanted@)),
                decreases sprints@.len() - i,
            {
                assert(sprints@.take(i + 1).drop_last() =~= sprints@.take(i as int));
                assert(sprints@.take(i + 1).last() == sprints@[i as int]);
                let ghost before = ms@.map_values(|k: usize| k as int);
                if eq_ignore_ascii_case(sprints[i].name.as_str(), t.as_str()) {
                    ms.push(i);
                    assert(ms@.map_values(|k: usize| k as int) =~= before.push(i as int));
                }
                i = i + 1;
            }
            assert(sprints@.take(i as int) =~= sprints@);
            let ghost m = named(sprints@, trim(wanted@));
            proof {
                lemma_named_bounds(sprints@, trim(wanted@));
            }
            if ms.len() == 0 {
                let mut e = String::new();
                push_str(&mut e, "Sprint '");
                push_str(&mut e, wanted);
                push_str(&mut e, "' was not found on any sprint-enabled board for project ");
                push_str(&mut e, project_key);
                return Err(e);
            }
            if ms.len() == 1 {
                assert(ms@.map_values(|k: usize| k as int)[0] == ms@[0] as int);
                return Ok(ms[0]);
            }
            let mut parts: Vec<String> = Vec::new();
            let mut j: usize = 0;
            while j < ms.len()
                invariant
                    j <= ms@.len(),
                    m == ms@.map_values(|k: usize| k as int),
                    forall|q: int| 0 <= q < m.len() ==> 0 <= #[trigger] m[q] < sprints@.len(),
                    views(parts@) == m.take(j as int).map_values(|q: int| sprint_text(sprints@[q])),
                decreases ms@.len() - j,
            {
                let k = ms[j];
                assert(m[j as int] == k as int);
                let sp = &sprints[k];
                let mut line = String::new();
                push_str(&mut line, sp.name.as_str());
                push_str(&mut line, " (id:");
                push_decimal(&mut line, sp.id);
                push_str(&mut line, ", board:");
                push_decimal(
                    &mut line,
                    match sp.board_id {
                        Some(b) => b,
                        None => 0,
                    },
                );
                push_str(&mut line, ")");
                let ghost before = views(parts@);
                parts.push(line);
                assert(views(parts@) =~= before.push(sprint_text(sprints@[k as int])));
                j = j + 1;
                assert(m.take(j as int).map_values(|q: int| sprint_text(sprints@[q])) =~= m.take(j - 1).map_values(
                    |q: int| sprint_text(sprints@[q]),
                ).push(sprint_text(sprints@[m[j - 1]])));
            }
            assert(m.take(j as int) =~= m);
            let mut e = String::new();
            push_str(&mut e, "Sprint '");
            push_str(&mut e, wanted);
            push_str(&mut e, "' matched multiple sprints. Use a numeric sprint ID instead: ");
            let l = join_strings(&parts, ", ");
            push_str(&mut e, l.as_str());
            Err(e)
        },
    }
}

proof fn lemma_first_with_id_prefix(ss: Seq<Sprint>, id: u64, n: int)
    requires
        0 < n <= ss.len(),
        first_with_id(ss.take(n - 1), id) is None,
        ss[n - 1].id == id,
    ensures
        first_with_id(ss, id) == Some(n - 1),
    decreases ss.len() - n,
{
    assert(ss.take(n).drop_last() =~= ss.take(n - 1));
    assert(first_with_id(ss.take(n), id) == Some(n - 1));
    lemma_first_with_id_extend(ss, id, n);
}

proof fn lemma_first_with_id_extend(ss: Seq<Sprint>, id: u64, n: int)
    requires
        0 <= n <= ss.len(),
        first_with_id(ss.take(n), id) is Some,
    ensures
        first_with_id(ss, id) == first_with_id(ss.take(n), id),
    decreases ss.len() - n,
{
    if n < ss.len() {
        assert(ss.take(n + 1).drop_last() =~= ss.take(n));
        lemma_first_with_id_extend(ss, id, n + 1);
    } else {
        assert(ss.take(n) =~= ss);
    }
}

/// A sprint found on a board while looking a sprint up by name: its id, the
/// board's id, and its name.
pub open spec fn match_view(m: (u64, u64, String)) -> (u64, u64, Seq<char>) {
    (m.0, m.1, m.2@)
}

/// The sprints of a board's sprint listing (`items`) named `wanted`, ignoring
/// ASCII case; items without a text name or a numeric id are skipped.
pub open spec fn board_matches(board_id: u64, items: Seq<JsonView>, wanted: Seq<char>) -> Seq<(u64, u64, Seq<char>)>
    decreases items.len(),
{
    if items.len() == 0 {
        Seq::empty()
    } else {
        let r = board_matches(board_id, items.drop_last(), wanted);
        let it = items.last();
        match json_str(json_get(it, "name"@)) {
            Some(n) => if same_name(n, wanted) {
                match json_u64(json_get(it, "id"@)) {
                    Some(id) => r.push((id, board_id, n)),
                    None => r,
                }
            } else {
                r
            },
            None => r,
        }
    }
}

/// The sprints of one board's sprint listing named `wanted`; none when the
/// listing has no `values` array.
pub fn sprints_named_on_board(board_id: u64, listing: &JsonValue, wanted: &str) -> (r: Vec<(u64, u64, String)>)
    ensures
        r@.map_values(|m: (u64, u64, String)| match_view(m)) == match values_of(listing.deep()) {
            Some(items) => board_matches(board_id, items, wanted@),
            None => Seq::empty(),
        },
{
    let mut out: Vec<(u64, u64, String)> = Vec::new();
    let items = match listing.get("values") {
        Some(v) => match v.as_array() {
            Some(items) => items,
            None => {
                assert(out@.map_values(|m: (u64, u64, String)| match_view(m)) =~= Seq::empty());
                return out;
            },
        },
        None => {
            assert(out@.map_values(|m: (u64, u64, String)| match_view(m)) =~= Seq::empty());
            return out;
        },
    };
    let ghost deep_items = values_of(listing.deep())->0;
    let mut i: usize = 0;
    while i < items.len()
        invariant
            i <= items@.len(),
            deep_items.len() == items@.len(),
            forall|k: int| 0 <= k < items@.len() ==> deep_items[k] == (#[trigger] items@[k]).deep(),
            out@.map_values(|m: (u64, u64, String)| match_view(m)) == board_matches(
                board_id,
                deep_items.take(i as int),
                wanted@,
            ),
        decreases items@.len() - i,
    {
        assert(deep_items.take(i + 1).drop_last() =~= deep_items.take(i as int));
        assert(deep_items.take(i + 1).last() == items@[i as int].deep());
        match items[i].get("name") {
            Some(n) => match n.as_str() {
                Some(name) => {
                    if eq_ignore_ascii_case(name, wanted) {
                        match member_u64(&items[i], "id") {
                            Some(id) => {
                                let mut nm = String::new();
                                push_str(&mut nm, name);
                                let ghost before = out@.map_values(|m: (u64, u64, String)| match_view(m));
                                out.push((id, board_id, nm));
                                assert(out@.map_values(|m: (u64, u64, String)| match_view(m)) =~= before.push(
                                    (id, board_id, name@),
                                ));
                            },
                            None => {},
                        }
                    }
                },
                None => {},
            },
            None => {},
        }
        i = i + 1;
    }
    assert(deep_items.take(i as int) =~= deep_items);
    out
}

/// How a sprint found on a board is offered when a name is ambiguous.
pub open spec fn match_text(m: (u64, u64, Seq<char>)) -> Seq<char> {
    m.2 + " (id:"@ + decimal(m.0 as nat) + ", board:"@ + decimal(m.1 as nat) + ")"@
}

/// The id of the one sprint named `wanted` among those found on the
/// project's boards, or why there is not exactly one.
pub open spec fn single_match(p: Seq<char>, wanted: Seq<char>, ms: Seq<(u64, u64, Seq<char>)>) -> Result<u64, Seq<char>> {
    if ms.len() == 0 {
        Err("Sprint '"@ + wanted + "' was not found on any sprint-enabled board for project "@ + p)
    } else if ms.len() == 1 {
        Ok(ms[0].0)
    } else {
        Err(
            "Sprint '"@ + wanted + "' matched multiple sprints. Use a numeric sprint ID instead: "@ + join(
                ms.map_values(|m: (u64, u64, Seq<char>)| match_text(m)),
                ", "@,
            ),
        )
    }
}

/// The id of the one sprint named `wanted` among the `matches` found on the
/// project's boards.
pub fn single_sprint_id(project_key: &str, wanted: &str, matches: &Vec<(u64, u64, String)>) -> (r: Result<u64, String>)
    ensures
        match r {
            Ok(id) => single_match(
                project_key@,
                wanted@,
                matches@.map_values(|m: (u64, u64, String)| match_view(m)),
            ) == Ok::<u64, Seq<char>>(id),
            Err(e) => single_match(
                project_key@,
                wanted@,
                matches@.map_values(|m: (u64, u64, String)| match_view(m)),
            ) == Err::<u64, Seq<char>>(e@),
        },
{
    let ghost mv = matches@.map_values(|m: (u64, u64, String)| match_view(m));
    if matches.len() == 0 {
        let mut e = String::new();
        push_str(&mut e, "Sprint '");
        push_str(&mut e, wanted);
        push_str(&mut e, "' was not found on any sprint-enabled board for project ");
        push_str(&mut e, project_key);
        return Err(e);
    }
    if matches.len() == 1 {
        return Ok(matches[0].0);
    }
    let mut parts: Vec<String> = Vec::new();
    let mut j: usize = 0;
    while j < matches.len()
        invariant
            j <= matches@.len(),
            mv == matches@.map_values(|m: (u64, u64, String)| match_view(m)),
            views(parts@) == mv.take(j as int).map_values(|m: (u64, u64, Seq<char>)| match_text(m)),
        decreases matches@.len() - j,
    {
        let mut line = String::new();
        push_str(&mut line, matches[j].2.as_str());
        push_str(&mut line, " (id:");
        push_decimal(&mut line, matches[j].0);
        push_str(&mut line, ", board:");
        push_decimal(&mut line, matches[j].1);
        push_str(&mut line, ")");
        let ghost before = views(parts@);
        parts.push(line);
        assert(views(parts@) =~= before.push(match_text(mv[j as int])));
        j = j + 1;
        assert(mv.take(j as int).map_values(|m: (u64, u64, Seq<char>)| match_text(m)) =~= mv.take(j - 1).map_values(
            |m: (u64, u64, Seq<char>)| match_text(m),
        ).push(match_text(mv[j - 1])));
    }
    assert(mv.take(j as int) =~= mv);
    let mut e = String::new();
    push_str(&mut e, "Sprint '");
    push_str(&mut e, wanted);
    push_str(&mut e, "' matched multiple sprints. Use a numeric sprint ID instead: ");
    let l = join_strings(&parts, ", ");
    push_str(&mut e, l.as_str());
    Err(e)
}

/// A field of an issue type, as far as finding the sprint field goes: id,
/// name, and the `custom` type of its schema when it has one.
pub struct FieldMeta {
    pub id: String,
    pub name: String,
    pub custom: Option<String>,
}

/// Whether a field holds the sprint: named `Sprint` ignoring ASCII case, or of
/// a custom type that mentions `gh-sprint`.
pub open spec fn is_sprint_field(f: FieldMeta) -> bool {
    same_name(f.name@, "Sprint"@) || match f.custom {
        Some(c) => crate::text::contains(c@, "gh-sprint"@),
        None => false,
    }
}

/// The position of the first sprint field among `fields`.
pub fn find_sprint_field(fields: &Vec<FieldMeta>) -> (r: Option<usize>)
    ensures
        match r {
            Some(i) => i < fields@.len() && is_sprint_field(fields@[i as int]) && forall|j: int|
                0 <= j < i ==> !is_sprint_field(#[trigger] fields@[j]),
            None => forall|j: int| 0 <= j < fields@.len() ==> !is_sprint_field(#[trigger] fields@[j]),
        },
{
    let mut i: usize = 0;
    while i < fields.len()
        invariant
            i <= fields@.len(),
            forall|j: int| 0 <= j < i ==> !is_sprint_field(#[trigger] fields@[j]),
        decreases fields@.len() - i,
    {
        let f = &fields[i];
        let custom = match &f.custom {
            Some(c) => crate::text::str_contains(c.as_str(), "gh-sprint"),
            None => false,
        };
        if eq_ignore_ascii_case(f.name.as_str(), "Sprint") || custom {
            return Some(i);
        }
        i = i + 1;
    }
    None
}

/// The value that puts an issue in sprint `id`: `[{"id": id}]`.
pub fn sprint_value(id: u64) -> (r: JsonValue)
    ensures
        r.deep() == JsonView::Array(seq![JsonView::Object(seq![("id"@, JsonView::Number(decimal(id as nat)))])]),
{
    let mut n = String::new();
    push_decimal(&mut n, id);
    let mut k = String::new();
    push_str(&mut k, "id");
    let ghost entry = ("id"@, JsonView::Number(decimal(id as nat)));
    let ghost kv = k@;
    let ghost nv = n@;
    let entries = vec![(k, JsonValue::Number(n))];
    assert(entries@[0].0@ == kv);
    assert(entries@[0].1.deep() == JsonView::Number(nv));
    let obj = JsonValue::Object(entries);
    assert(obj.deep()->Object_0 =~= seq![entry]);
    let ghost ov = obj.deep();
    let r = JsonValue::Array(vec![obj]);
    assert(r.deep()->Array_0 =~= seq![ov]);
    r
}

/// A date cut to its first ten bytes, when present.
pub open spec fn dates_ok(s: Sprint) -> bool {
    crate::versions::short_date_ok(s.start_date) && crate::versions::short_date_ok(s.end_date)
        && crate::versions::short_date_ok(s.complete_date)
}

/// The first line describing a sprint.
pub open spec fn sprint_head(s: Sprint, bullet: bool) -> Seq<char> {
    (if bullet {
        "  •"@
    } else {
        "  "@
    }) + " "@ + s.name@ + " [id:"@ + decimal(s.id as nat) + " | "@ + s.state@ + match s.board_id {
        Some(b) => " | board "@ + decimal(b as nat),
        None => Seq::empty(),
    } + "]"@
}

/// The goal line of a sprint, when the goal is not blank.
pub open spec fn goal_lines(g: Option<String>) -> Seq<Seq<char>> {
    match g {
        Some(g) => if trim(g@).len() > 0 {
            seq!["    goal: "@ + trim(g@)]
        } else {
            Seq::empty()
        },
        None => Seq::empty(),
    }
}

/// A date line, when there is a date: `label` and the date cut to the day.
pub open spec fn date_lines(label: Seq<char>, d: Option<String>) -> Seq<Seq<char>> {
    match d {
        Some(d) => seq![label + crate::versions::short10(d@)],
        None => Seq::empty(),
    }
}

/// The lines describing a sprint: name, id, state and board, then its goal
/// when not blank and its dates cut to the day.
pub open spec fn sprint_lines_of(s: Sprint, bullet: bool) -> Seq<Seq<char>> {
    let head = sprint_head(s, bullet);
    seq![head] + goal_lines(s.goal) + date_lines("    start: "@, s.start_date) + date_lines(
        "    end:   "@,
        s.end_date,
    ) + date_lines("    done:  "@, s.complete_date)
}

fn push_line(lines: &mut Vec<String>, a: &str, b: &str)
    ensures
        views(final(lines)@) == views(old(lines)@).push(a@ + b@),
{
    let mut l = String::new();
    push_str(&mut l, a);
    push_str(&mut l, b);
    lines.push(l);
    assert(views(lines@) =~= views(old(lines)@).push(a@ + b@));
}

/// The lines describing a sprint.
pub fn sprint_lines(s: &Sprint, bullet: bool) -> (r: Vec<String>)
    requires
        dates_ok(*s),
    ensures
        views(r@) == sprint_lines_of(*s, bullet),
{
    let mut head = String::new();
    push_str(&mut head, if bullet { "  •" } else { "  " });
    push_str(&mut head, " ");
    push_str(&mut head, s.name.as_str());
    push_str(&mut head, " [id:");
    push_decimal(&mut head, s.id);
    push_str(&mut head, " | ");
    push_str(&mut head, s.state.as_str());
    match s.board_id {
        Some(b) => {
            push_str(&mut head, " | board ");
            push_decimal(&mut head, b);
        },
        None => {},
    }
    push_str(&mut head, "]");
    assert(head@ =~= sprint_head(*s, bullet));
    let ghost hv = head@;
    let mut lines: Vec<String> = vec![head];
    assert(views(lines@) =~= seq![hv]);
    let ghost l0 = views(lines@);
    match &s.goal {
        Some(g) => {
            let t = trim_str(g.as_str());
            if t.unicode_len() > 0 {
                push_line(&mut lines, "    goal: ", t.as_str());
            }
        },
        None => {},
    }
    let ghost l1 = views(lines@);
    match &s.start_date {
        Some(d) => {
            let c = first_ten_bytes(d.as_str());
            push_line(&mut lines, "    start: ", c.as_str());
        },
        None => {},
    }
    let ghost l2 = views(lines@);
    match &s.end_date {
        Some(d) => {
            let c = first_ten_bytes(d.as_str());
            push_line(&mut lines, "    end:   ", c.as_str());
        },
        None => {},
    }
    let ghost l3 = views(lines@);
    match &s.complete_date {
        Some(d) => {
            let c = first_ten_bytes(d.as_str());
            push_line(&mut lines, "    done:  ", c.as_str());
        },
        None => {},
    }
    assert(l1 =~= l0 + goal_lines(s.goal));
    assert(l2 =~= l1 + date_lines("    start: "@, s.start_date));
    assert(l3 =~= l2 + date_lines("    end:   "@, s.end_date));
    assert(views(lines@) =~= l3 + date_lines("    done:  "@, s.complete_date));
    assert(views(lines@) =~= sprint_lines_of(*s, bullet));
    lines
}

} // verus!

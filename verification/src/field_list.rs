//! `jirac issue fields`: which issue type is meant, which fields are listed
//! and in what order, and the table printed.
use vstd::prelude::*;

use crate::issue_input::{truncatable, truncate, truncated};
use crate::issue_views::{push_repeated, repeated};
use crate::text::{decimal, lowercase, padded, push_decimal, push_padded, push_str, str_eq, to_lowercase, views};
use crate::versions::{is_permutation, key_placed_before, key_view, stable_order};

verus! {

/// A field that can be set on an issue of some type.
pub struct FieldInfo {
    pub id: String,
    pub name: String,
    pub field_type: String,
    pub required: bool,
}

/// A field as the contracts see it: id, name, type, and whether it is required.
pub open spec fn field_view(f: FieldInfo) -> (Seq<char>, Seq<char>, Seq<char>, bool) {
    (f.id@, f.name@, f.field_type@, f.required)
}

/// The views of fields.
pub open spec fn field_views(fs: Seq<FieldInfo>) -> Seq<(Seq<char>, Seq<char>, Seq<char>, bool)> {
    fs.map_values(|f: FieldInfo| field_view(f))
}

/// The position of the first issue type whose name equals `wanted` once both
/// are lower-cased.
pub open spec fn type_position(names: Seq<Seq<char>>, wanted: Seq<char>) -> Option<int>
    decreases names.len(),
{
    if names.len() == 0 {
        None
    } else {
        match type_position(names.drop_last(), wanted) {
            Some(i) => Some(i),
            None => if lowercase(names.last()) == lowercase(wanted) {
                Some(names.len() - 1)
            } else {
                None
            },
        }
    }
}

proof fn lemma_type_position_extends(names: Seq<Seq<char>>, wanted: Seq<char>, n: int)
    requires
        0 < n <= names.len(),
        type_position(names.take(n), wanted) is Some,
    ensures
        type_position(names, wanted) == type_position(names.take(n), wanted),
    decreases names.len() - n,
{
    if n < names.len() {
        assert(names.take(n + 1).drop_last() =~= names.take(n));
        lemma_type_position_extends(names, wanted, n + 1);
    } else {
        assert(names.take(n) =~= names);
    }
}

/// The position of the issue type named `wanted` in any case, or the error
/// naming the project.
pub fn find_issue_type(names: &Vec<String>, wanted: &str, project: &str) -> (r: Result<usize, String>)
    ensures
        match type_position(views(names@), wanted@) {
            Some(i) => r == Ok::<usize, String>(i as usize),
            None => r matches Err(m) && m@ == "Issue type '"@ + wanted@ + "' not found in "@ + project@,
        },
{
    let w = to_lowercase(wanted);
    let ghost ns = views(names@);
    let mut i: usize = 0;
    while i < names.len()
        invariant
            i <= names@.len(),
            ns == views(names@),
            w@ == lowercase(wanted@),
            type_position(ns.take(i as int), wanted@) is None,
        decreases names@.len() - i,
    {
        assert(ns.take(i + 1).drop_last() =~= ns.take(i as int));
        assert(ns.take(i + 1).last() == names@[i as int]@);
        let l = to_lowercase(names[i].as_str());
        if str_eq(l.as_str(), w.as_str()) {
            proof {
                lemma_type_position_extends(ns, wanted@, i + 1);
            }
            return Ok(i);
        }
        i = i + 1;
    }
    assert(ns.take(i as int) =~= ns);
    let mut m = String::new();
    push_str(&mut m, "Issue type '");
    push_str(&mut m, wanted);
    push_str(&mut m, "' not found in ");
    push_str(&mut m, project);
    Err(m)
}

/// The fields listed: all of them, or only the required ones.
pub open spec fn listed(fs: Seq<(Seq<char>, Seq<char>, Seq<char>, bool)>, required_only: bool) -> Seq<
    (Seq<char>, Seq<char>, Seq<char>, bool),
>
    decreases fs.len(),
{
    if fs.len() == 0 {
        Seq::empty()
    } else {
        let r = listed(fs.drop_last(), required_only);
        if !required_only || fs.last().3 {
            r.push(fs.last())
        } else {
            r
        }
    }
}

/// The ordering key of a field: required ones first, then by name.
pub open spec fn field_key(f: (Seq<char>, Seq<char>, Seq<char>, bool)) -> (u8, Seq<char>, Seq<char>) {
    (
        if f.3 {
            0u8
        } else {
            1u8
        },
        f.1,
        Seq::empty(),
    )
}

/// `after` is `before` sorted stably, required fields first, then by name.
pub open spec fn fields_sorted(
    before: Seq<(Seq<char>, Seq<char>, Seq<char>, bool)>,
    after: Seq<(Seq<char>, Seq<char>, Seq<char>, bool)>,
) -> bool {
    exists|p: Seq<int>|
        {
            &&& is_permutation(p, before.len())
            &&& after.len() == before.len()
            &&& forall|k: int| 0 <= k < after.len() ==> after[k] == before[#[trigger] p[k]]
            &&& forall|a: int, b: int|
                0 <= a < b < p.len() ==> key_placed_before(
                    before.map_values(|f: (Seq<char>, Seq<char>, Seq<char>, bool)| field_key(f)),
                    #[trigger] p[a],
                    #[trigger] p[b],
                )
        }
}

fn copy_field(f: &FieldInfo) -> (r: FieldInfo)
    ensures
        field_view(r) == field_view(*f),
{
    let mut id = String::new();
    push_str(&mut id, f.id.as_str());
    let mut name = String::new();
    push_str(&mut name, f.name.as_str());
    let mut field_type = String::new();
    push_str(&mut field_type, f.field_type.as_str());
    FieldInfo { id, name, field_type, required: f.required }
}

/// The fields listed, required ones first, then by name; fields with the same
/// standing and name keep their order.
pub fn sorted_fields(fields: &Vec<FieldInfo>, required_only: bool) -> (r: Vec<FieldInfo>)
    ensures
        fields_sorted(listed(field_views(fields@), required_only), field_views(r@)),
{
    let ghost all = field_views(fields@);
    let mut kept: Vec<FieldInfo> = Vec::new();
    let mut i: usize = 0;
    while i < fields.len()
        invariant
            i <= fields@.len(),
            all == field_views(fields@),
            field_views(kept@) == listed(all.take(i as int), required_only),
        decreases fields@.len() - i,
    {
        assert(all.take(i + 1).drop_last() =~= all.take(i as int));
        assert(all.take(i + 1).last() == field_view(fields@[i as int]));
        if !required_only || fields[i].required {
            let ghost before = field_views(kept@);
            kept.push(copy_field(&fields[i]));
            assert(field_views(kept@) =~= before.push(field_view(fields@[i as int])));
        }
        i = i + 1;
    }
    assert(all.take(i as int) =~= all);
    let ghost kv = field_views(kept@);
    let mut keys: Vec<(u8, String, String)> = Vec::new();
    let mut k: usize = 0;
    while k < kept.len()
        invariant
            k <= kept@.len(),
            kv == field_views(kept@),
            keys@.len() == k,
            forall|j: int| 0 <= j < k ==> key_view(#[trigger] keys@[j]) == field_key(kv[j]),
        decreases kept@.len() - k,
    {
        let mut name = String::new();
        push_str(&mut name, kept[k].name.as_str());
        let key: (u8, String, String) = (if kept[k].required { 0u8 } else { 1u8 }, name, String::new());
        keys.push(key);
        assert(key_view(keys@[k as int]) == field_key(kv[k as int]));
        k = k + 1;
    }
    let ghost kk = kv.map_values(|f: (Seq<char>, Seq<char>, Seq<char>, bool)| field_key(f));
    assert(keys@.map_values(|q: (u8, String, String)| key_view(q)) =~= kk);
    let p = stable_order(&keys);
    let ghost pi = p@.map_values(|q: usize| q as int);
    let mut out: Vec<FieldInfo> = Vec::new();
    let mut j: usize = 0;
    while j < p.len()
        invariant
            j <= p@.len(),
            p@.len() == kept@.len(),
            kv == field_views(kept@),
            pi == p@.map_values(|q: usize| q as int),
            is_permutation(pi, kv.len()),
            out@.len() == j,
            forall|t: int| 0 <= t < j ==> field_view(#[trigger] out@[t]) == kv[pi[t]],
        decreases p@.len() - j,
    {
        assert(pi[j as int] == p@[j as int] as int);
        let f = copy_field(&kept[p[j]]);
        out.push(f);
        j = j + 1;
    }
    proof {
        let ov = field_views(out@);
        assert forall|t: int| 0 <= t < ov.len() implies ov[t] == kv[#[trigger] pi[t]] by {
            assert(ov[t] == field_view(out@[t]));
        }
        assert forall|a: int, b: int| 0 <= a < b < pi.len() implies key_placed_before(kk, #[trigger] pi[a], #[trigger] pi[b]) by {
            assert(pi[a] == p@[a] as int && pi[b] == p@[b] as int);
        }
        assert(fields_sorted(kv, ov));
    }
    out
}

/// The cells of a field's row can be cut to their widths.
pub open spec fn field_row_ok(f: (Seq<char>, Seq<char>, Seq<char>, bool)) -> bool {
    truncatable(f.1, 29) && truncatable(f.0, 19) && truncatable(f.2, 11)
}

/// The row of a field in the table.
pub open spec fn field_row_of(f: (Seq<char>, Seq<char>, Seq<char>, bool)) -> Seq<char> {
    padded(truncated(f.1, 29), 30) + " "@ + padded(truncated(f.0, 19), 20) + " "@ + padded(truncated(f.2, 11), 12)
        + " "@ + if f.3 {
        "✓"@
    } else {
        Seq::empty()
    }
}

/// The table of fields for an issue type of a project: a title with the
/// count, a heading, a rule and a row per field.
pub open spec fn field_table_of(project: Seq<char>, issue_type: Seq<char>, fs: Seq<(Seq<char>, Seq<char>, Seq<char>, bool)>) -> Seq<Seq<char>> {
    seq![
        "\nFields for "@ + project + " / "@ + issue_type + " ("@ + decimal(fs.len()) + " total):\n"@,
        padded("NAME"@, 30) + " "@ + padded("ID"@, 20) + " "@ + padded("TYPE"@, 12) + " REQUIRED"@,
        repeated('─', 72),
    ] + fs.map_values(|f: (Seq<char>, Seq<char>, Seq<char>, bool)| field_row_of(f))
}

/// The row of a field in the table.
pub fn field_row(f: &FieldInfo) -> (r: String)
    requires
        field_row_ok(field_view(*f)),
    ensures
        r@ == field_row_of(field_view(*f)),
{
    let mut s = String::new();
    let n = truncate(f.name.as_str(), 29);
    push_padded(&mut s, n.as_str(), 30);
    push_str(&mut s, " ");
    let id = truncate(f.id.as_str(), 19);
    push_padded(&mut s, id.as_str(), 20);
    push_str(&mut s, " ");
    let t = truncate(f.field_type.as_str(), 11);
    push_padded(&mut s, t.as_str(), 12);
    push_str(&mut s, " ");
    if f.required {
        push_str(&mut s, "✓");
    }
    proof {
        reveal_strlit("");
    }
    s
}

/// The table of fields for an issue type of a project.
pub fn field_table(project: &str, issue_type: &str, fields: &Vec<FieldInfo>) -> (r: Vec<String>)
    requires
        forall|k: int| 0 <= k < fields@.len() ==> field_row_ok(#[trigger] field_view(fields@[k])),
    ensures
        views(r@) == field_table_of(project@, issue_type@, field_views(fields@)),
{
    let ghost fv = field_views(fields@);
    let mut lines: Vec<String> = Vec::new();
    let mut title = String::new();
    push_str(&mut title, "\nFields for ");
    push_str(&mut title, project);
    push_str(&mut title, " / ");
    push_str(&mut title, issue_type);
    push_str(&mut title, " (");
    push_decimal(&mut title, fields.len() as u64);
    push_str(&mut title, " total):\n");
    lines.push(title);
    let mut h = String::new();
    push_padded(&mut h, "NAME", 30);
    push_str(&mut h, " ");
    push_padded(&mut h, "ID", 20);
    push_str(&mut h, " ");
    push_padded(&mut h, "TYPE", 12);
    push_str(&mut h, " REQUIRED");
    lines.push(h);
    let mut rule = String::new();
    push_repeated(&mut rule, '─', 72);
    lines.push(rule);
    let ghost l0 = views(lines@);
    let mut k: usize = 0;
    while k < fields.len()
        invariant
            k <= fields@.len(),
            fv == field_views(fields@),
            forall|q: int| 0 <= q < fields@.len() ==> field_row_ok(#[trigger] field_view(fields@[q])),
            views(lines@) == l0 + fv.take(k as int).map_values(
                |f: (Seq<char>, Seq<char>, Seq<char>, bool)| field_row_of(f),
            ),
        decreases fields@.len() - k,
    {
        let row = field_row(&fields[k]);
        let ghost before = views(lines@);
        lines.push(row);
        assert(views(lines@) =~= before.push(field_row_of(fv[k as int])));
        k = k + 1;
        assert(fv.take(k as int).map_values(|f: (Seq<char>, Seq<char>, Seq<char>, bool)| field_row_of(f))
            =~= fv.take(k - 1).map_values(|f: (Seq<char>, Seq<char>, Seq<char>, bool)| field_row_of(f)).push(
            field_row_of(fv[k - 1]),
        ));
    }
    assert(fv.take(k as int) =~= fv);
    assert(views(lines@) =~= field_table_of(project@, issue_type@, fv));
    lines
}

} // verus!

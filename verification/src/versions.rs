//! Fix versions of an issue and of its project: reading them from issue fields,
//! ordering them, and the lines and queries of a version's backlog preview.
use vstd::prelude::*;

use crate::jql::{escape_jql, escaped};
use crate::model::{json_get, json_str, opt_view, Issue, JsonValue, JsonView, ProjectVersion};
use crate::text::{
    byte_len, byte_prefix, chars_of, decimal, lemma_text_less_order, less_chars, text_less, is_boundary, lowercase, non_empty, push_decimal,
    push_str, str_eq, string_of, string_of_range, to_lowercase, trim, trim_str, trimmed, views,
};

verus! {

/// The string values of member `key` of the items, in order; items without
/// such a string are skipped.
pub open spec fn string_members(items: Seq<JsonView>, key: Seq<char>) -> Seq<Seq<char>>
    decreases items.len(),
{
    if items.len() == 0 {
        Seq::empty()
    } else {
        let rest = string_members(items.drop_last(), key);
        match json_str(json_get(items.last(), key)) {
            Some(s) => rest.push(s),
            None => rest,
        }
    }
}

/// The fix-version names of an issue's `fields`: the `name` of each entry of
/// `fixVersions`, trimmed, blank ones dropped.
pub open spec fn fix_version_names(fields: JsonView) -> Seq<Seq<char>> {
    match json_get(fields, "fixVersions"@) {
        Some(JsonView::Array(items)) => non_empty(trimmed(string_members(items, "name"@))),
        _ => Seq::empty(),
    }
}

/// The fix-version names of an issue, from its raw `fields` object.
pub fn extract_fix_versions(fields: &JsonValue) -> (r: Vec<String>)
    ensures
        views(r@) == fix_version_names(fields.deep()),
{
    let mut names: Vec<String> = Vec::new();
    match fields.get("fixVersions") {
        Some(list) => match list.as_array() {
            Some(items) => {
                let ghost ds = list.deep()->Array_0;
                assert(ds.len() == items@.len());
                let mut i: usize = 0;
                while i < items.len()
                    invariant
                        *list == JsonValue::Array(*items),
                        ds == list.deep()->Array_0,
                        ds.len() == items@.len(),
                        i <= items@.len(),
                        views(names@) == string_members(ds.take(i as int), "name"@),
                    decreases items@.len() - i,
                {
                    assert(ds[i as int] == items@[i as int].deep());
                    assert(ds.take(i + 1).drop_last() =~= ds.take(i as int));
                    assert(ds.take(i + 1).last() == items@[i as int].deep());
                    match items[i].get("name") {
                        Some(n) => match n.as_str() {
                            Some(s) => {
                                let mut t = String::new();
                                push_str(&mut t, s);
                                names.push(t);
                                assert(views(names@) =~= views(names@).drop_last().push(s@));
                            },
                            None => {},
                        },
                        None => {},
                    }
                    i = i + 1;
                }
                assert(ds.take(i as int) =~= ds);
            },
            None => {
                return Vec::new();
            },
        },
        None => {
            return Vec::new();
        },
    }
    crate::text::keep_trimmed(names)
}

/// Where a version sorts: unreleased first, then released, then archived.
pub open spec fn version_bucket(v: ProjectVersion) -> u8 {
    if v.archived {
        2
    } else if v.released {
        1
    } else {
        0
    }
}

/// The date a version sorts by: its release date, else its start date, else empty.
pub open spec fn version_date(v: ProjectVersion) -> Seq<char> {
    match v.release_date {
        Some(d) => d@,
        None => match v.start_date {
            Some(d) => d@,
            None => Seq::empty(),
        },
    }
}

/// The key versions are ordered by: bucket, date, then lower-cased name.
pub open spec fn sort_key_of(v: ProjectVersion) -> (u8, Seq<char>, Seq<char>) {
    (version_bucket(v), version_date(v), lowercase(v.name@))
}

/// The ordering key of a version.
pub fn version_sort_key(version: &ProjectVersion) -> (r: (u8, String, String))
    ensures
        (r.0, r.1@, r.2@) == sort_key_of(*version),
{
    let bucket: u8 = if version.archived {
        2
    } else if version.released {
        1
    } else {
        0
    };
    let mut date = String::new();
    match &version.release_date {
        Some(d) => push_str(&mut date, d.as_str()),
        None => match &version.start_date {
            Some(d) => push_str(&mut date, d.as_str()),
            None => {},
        },
    }
    (bucket, date, to_lowercase(version.name.as_str()))
}

/// `r` is `s` cut to its first `n` bytes (`&s[..n.min(s.len())]`).
pub open spec fn cut_to_bytes(s: Seq<char>, n: nat, r: Seq<char>) -> bool {
    &&& byte_len(s) <= n ==> r == s
    &&& byte_len(s) > n ==> exists|k: int| 0 <= k <= s.len() && byte_len(#[trigger] s.take(k)) == n && r == s.take(k)
}

/// A date of which the first ten bytes can be cut off.
pub open spec fn short_date_ok(d: Option<String>) -> bool {
    match d {
        Some(s) => byte_len(s@) <= 10 || is_boundary(s@, 10),
        None => true,
    }
}

/// The first ten bytes of `s` (all of it when shorter), when they end on a
/// character boundary.
pub open spec fn short10(s: Seq<char>) -> Seq<char> {
    if byte_len(s) <= 10 {
        s
    } else {
        s.take(choose|k: int| 0 <= k <= s.len() && byte_len(#[trigger] s.take(k)) == 10)
    }
}

/// A cut to ten bytes is `short10`.
pub proof fn lemma_short10(s: Seq<char>, r: Seq<char>)
    requires
        cut_to_bytes(s, 10, r),
        byte_len(s) <= 10 || is_boundary(s, 10),
    ensures
        r == short10(s),
{
    if byte_len(s) > 10 {
        let k1 = choose|k: int| 0 <= k <= s.len() && byte_len(#[trigger] s.take(k)) == 10 && r == s.take(k);
        let k2 = choose|k: int| 0 <= k <= s.len() && byte_len(#[trigger] s.take(k)) == 10;
        if k1 < k2 {
            crate::text::lemma_byte_len_grows(s, k1, k2);
        } else if k2 < k1 {
            crate::text::lemma_byte_len_grows(s, k2, k1);
        }
    }
}

/// The first ten bytes of a date (all of it when shorter).
pub fn first_ten_bytes(d: &str) -> (r: String)
    requires
        byte_len(d@) <= 10 || is_boundary(d@, 10),
    ensures
        cut_to_bytes(d@, 10, r@),
        r@ == short10(d@),
{
    let r = first_ten_bytes_cut(d);
    proof {
        lemma_short10(d@, r@);
    }
    r
}

fn first_ten_bytes_cut(d: &str) -> (r: String)
    requires
        byte_len(d@) <= 10 || is_boundary(d@, 10),
    ensures
        cut_to_bytes(d@, 10, r@),
{
    let v = chars_of(d);
    let (k, _) = crate::text::prefix_within(&v, 10);
    if k == v.len() {
        assert(v@.take(k as int) =~= v@);
        let mut out = String::new();
        push_str(&mut out, d);
        out
    } else {
        proof {
            crate::text::lemma_byte_len_monotone(v@, k + 1, v@.len() as int);
            assert(v@.take(v@.len() as int) =~= v@);
        }
        match byte_prefix(d, 10) {
            Some(p) => p,
            None => {
                assert(false);
                String::new()
            },
        }
    }
}

/// The release-state word of a version.
pub open spec fn state_word(v: ProjectVersion) -> Seq<char> {
    if v.archived {
        "archived"@
    } else if v.released {
        "released"@
    } else {
        "unreleased"@
    }
}

/// The badges of a version: its release state, then ` • release ` and the
/// first ten bytes of its release date when it has one.
pub fn version_status_badges(version: &ProjectVersion) -> (r: String)
    requires
        short_date_ok(version.release_date),
    ensures
        match version.release_date {
            Some(d) => exists|short: Seq<char>| cut_to_bytes(d@, 10, short)
                && r@ == state_word(*version) + " • release "@ + short,
            None => r@ == state_word(*version),
        },
{
    let mut out = String::new();
    if version.archived {
        push_str(&mut out, "archived");
    } else if version.released {
        push_str(&mut out, "released");
    } else {
        push_str(&mut out, "unreleased");
    }
    match &version.release_date {
        Some(d) => {
            let v = chars_of(d.as_str());
            let (k, _) = crate::text::prefix_within(&v, 10);
            push_str(&mut out, " • release ");
            if k == v.len() {
                assert(v@.take(k as int) =~= v@);
                push_str(&mut out, d.as_str());
                assert(cut_to_bytes(d@, 10, d@));
            } else {
                proof {
                    crate::text::lemma_byte_len_monotone(v@, k + 1, v@.len() as int);
                    assert(v@.take(v@.len() as int) =~= v@);
                }
                match byte_prefix(d.as_str(), 10) {
                    Some(p) => {
                        push_str(&mut out, p.as_str());
                        assert(cut_to_bytes(d@, 10, p@));
                    },
                    None => {
                        assert(false);
                    },
                }
            }
        },
        None => {},
    }
    out
}

/// Key `a` comes strictly before key `b`: by bucket, then date, then name, each
/// compared as `str` orders text.
pub open spec fn key_less(a: (u8, Seq<char>, Seq<char>), b: (u8, Seq<char>, Seq<char>)) -> bool {
    ||| a.0 < b.0
    ||| a.0 == b.0 && text_less(a.1, b.1)
    ||| a.0 == b.0 && a.1 == b.1 && text_less(a.2, b.2)
}

/// The order of keys is a strict total order.
pub proof fn lemma_key_order(a: (u8, Seq<char>, Seq<char>), b: (u8, Seq<char>, Seq<char>), c: (u8, Seq<char>, Seq<char>))
    ensures
        !key_less(a, a),
        a != b ==> (key_less(a, b) || key_less(b, a)),
        !(key_less(a, b) && key_less(b, a)),
        key_less(a, b) && key_less(b, c) ==> key_less(a, c),
{
    lemma_text_less_order(a.1, b.1, c.1);
    lemma_text_less_order(a.2, b.2, c.2);
    lemma_text_less_order(b.1, a.1, c.1);
    lemma_text_less_order(b.2, a.2, c.2);
}

/// In a stable sort by key, the version at position `i` of `vs` goes before the
/// one at position `j`.
pub open spec fn placed_before(vs: Seq<ProjectVersion>, i: int, j: int) -> bool {
    ||| key_less(sort_key_of(vs[i]), sort_key_of(vs[j]))
    ||| sort_key_of(vs[i]) == sort_key_of(vs[j]) && i < j
}

/// `p` lists each position below `n` once.
pub open spec fn is_permutation(p: Seq<int>, n: nat) -> bool {
    &&& p.len() == n
    &&& forall|k: int| 0 <= k < p.len() ==> 0 <= #[trigger] p[k] < n
    &&& forall|a: int, b: int| 0 <= a < b < p.len() ==> p[a] != p[b]
}

/// `after` is `before` sorted stably by key.
pub open spec fn stably_sorted(before: Seq<ProjectVersion>, after: Seq<ProjectVersion>) -> bool {
    exists|p: Seq<int>| {
        &&& is_permutation(p, before.len())
        &&& after.len() == before.len()
        &&& forall|k: int| 0 <= k < after.len() ==> after[k] == before[#[trigger] p[k]]
        &&& forall|a: int, b: int| 0 <= a < b < p.len() ==> placed_before(before, #[trigger] p[a], #[trigger] p[b])
    }
}

/// Whether key `a` comes strictly before key `b`.
pub fn key_less_exec(a: &(u8, String, String), b: &(u8, String, String)) -> (r: bool)
    ensures
        r == key_less((a.0, a.1@, a.2@), (b.0, b.1@, b.2@)),
{
    if a.0 != b.0 {
        return a.0 < b.0;
    }
    let a1 = chars_of(a.1.as_str());
    let b1 = chars_of(b.1.as_str());
    if less_chars(&a1, &b1) {
        return true;
    }
    if !str_eq(a.1.as_str(), b.1.as_str()) {
        return false;
    }
    let a2 = chars_of(a.2.as_str());
    let b2 = chars_of(b.2.as_str());
    less_chars(&a2, &b2)
}

/// Orders versions for display: unreleased, then released, then archived; within
/// each, by release (or start) date, then by lower-cased name. Versions with the
/// same key keep their order.
pub fn sort_project_versions(versions: &mut Vec<ProjectVersion>)
    ensures
        stably_sorted(old(versions)@, final(versions)@),
{
    let ghost orig = old(versions)@;
    let mut items: Vec<ProjectVersion> = Vec::new();
    std::mem::swap(&mut items, versions);
    assert(items@ == orig);
    let n = items.len();
    let mut out: Vec<ProjectVersion> = Vec::new();
    let mut keys: Vec<(u8, String, String)> = Vec::new();
    let ghost mut pos: Seq<int> = Seq::empty();
    let mut i: usize = 0;
    while i < n
        invariant
            n == orig.len(),
            i <= n,
            items@ == orig.skip(i as int),
            out@.len() == i,
            keys@.len() == i,
            pos.len() == i,
            forall|k: int| 0 <= k < i ==> 0 <= #[trigger] pos[k] < i,
            forall|a: int, b: int| 0 <= a < b < i ==> pos[a] != pos[b],
            forall|k: int| 0 <= k < i ==> out@[k] == orig[#[trigger] pos[k]],
            forall|k: int| 0 <= k < i ==> (#[trigger] keys@[k].0, keys@[k].1@, keys@[k].2@) == sort_key_of(out@[k]),
            forall|a: int, b: int| 0 <= a < b < i ==> placed_before(orig, #[trigger] pos[a], #[trigger] pos[b]),
        decreases n - i,
    {
        let item = items.remove(0);
        assert(item == orig[i as int]);
        assert(items@ =~= orig.skip(i + 1));
        let key = version_sort_key(&item);
        let ghost ki = sort_key_of(item);
        let mut q: usize = 0;
        while q < out.len() && !key_less_exec(&key, &keys[q])
            invariant
                q <= out@.len(),
                out@.len() == keys@.len(),
                (key.0, key.1@, key.2@) == ki,
                forall|k: int| 0 <= k < keys@.len() ==> (#[trigger] keys@[k].0, keys@[k].1@, keys@[k].2@) == sort_key_of(out@[k]),
                forall|a: int| 0 <= a < q ==> !key_less(ki, sort_key_of(#[trigger] out@[a])),
            decreases out@.len() - q,
        {
            q = q + 1;
        }
        proof {
            assert forall|a: int| 0 <= a < q implies placed_before(orig, #[trigger] pos[a], i as int) by {
                lemma_key_order(sort_key_of(out@[a]), ki, ki);
                assert(sort_key_of(orig[pos[a]]) == sort_key_of(out@[a]));
            }
            if q < out@.len() {
                assert(key_less(ki, sort_key_of(out@[q as int])));
                assert forall|a: int| q <= a < i implies placed_before(orig, i as int, #[trigger] pos[a]) by {
                    if a > q {
                        assert(placed_before(orig, pos[q as int], pos[a]));
                        lemma_key_order(ki, sort_key_of(orig[pos[q as int]]), sort_key_of(orig[pos[a]]));
                    }
                }
            }
        }
        let ghost old_pos = pos;
        let ghost old_out = out@;
        let ghost old_keys = keys@;
        out.insert(q, item);
        keys.insert(q, key);
        proof {
            pos = old_pos.insert(q as int, i as int);
            assert forall|k: int| 0 <= k < i + 1 implies out@[k] == orig[#[trigger] pos[k]] by {
                if k < q {
                    assert(out@[k] == old_out[k]);
                } else if k > q {
                    assert(out@[k] == old_out[k - 1]);
                }
            }
            assert forall|k: int| 0 <= k < i + 1 implies (#[trigger] keys@[k].0, keys@[k].1@, keys@[k].2@) == sort_key_of(out@[k]) by {
                if k < q {
                    assert(keys@[k] == old_keys[k]);
                    assert(out@[k] == old_out[k]);
                } else if k > q {
                    assert(keys@[k] == old_keys[k - 1]);
                    assert(out@[k] == old_out[k - 1]);
                }
            }
            assert forall|k: int| 0 <= k < i + 1 implies 0 <= #[trigger] pos[k] < i + 1 by {
                if k < q {
                    assert(pos[k] == old_pos[k]);
                } else if k > q {
                    assert(pos[k] == old_pos[k - 1]);
                }
            }
            assert forall|a: int, b: int| 0 <= a < b < i + 1 implies pos[a] != pos[b] by {
                if a < q && b < q {
                    assert(pos[a] == old_pos[a] && pos[b] == old_pos[b]);
                } else if a < q && b == q {
                    assert(pos[a] == old_pos[a]);
                } else if a < q {
                    assert(pos[a] == old_pos[a] && pos[b] == old_pos[b - 1]);
                } else if a == q {
                    assert(pos[b] == old_pos[b - 1]);
                } else {
                    assert(pos[a] == old_pos[a - 1] && pos[b] == old_pos[b - 1]);
                }
            }
            assert forall|a: int, b: int| 0 <= a < b < i + 1 implies placed_before(orig, #[trigger] pos[a], #[trigger] pos[b]) by {
                if a < q && b < q {
                    assert(pos[a] == old_pos[a] && pos[b] == old_pos[b]);
                } else if a < q && b == q {
                    assert(pos[a] == old_pos[a]);
                } else if a < q {
                    assert(pos[a] == old_pos[a] && pos[b] == old_pos[b - 1]);
                } else if a == q {
                    assert(pos[b] == old_pos[b - 1]);
                } else {
                    assert(pos[a] == old_pos[a - 1] && pos[b] == old_pos[b - 1]);
                }
            }
        }
        i = i + 1;
    }
    *versions = out;
    assert(is_permutation(pos, orig.len()));
}

/// The view of an ordering key.
pub open spec fn key_view(k: (u8, String, String)) -> (u8, Seq<char>, Seq<char>) {
    (k.0, k.1@, k.2@)
}

/// In a stable sort by the keys `ks`, position `i` goes before position `j`.
pub open spec fn key_placed_before(ks: Seq<(u8, Seq<char>, Seq<char>)>, i: int, j: int) -> bool {
    ||| key_less(ks[i], ks[j])
    ||| ks[i] == ks[j] && i < j
}

/// The order in which a stable sort by `keys` places the positions of
/// `keys`: each position once, and each before the next.
pub fn stable_order(keys: &Vec<(u8, String, String)>) -> (p: Vec<usize>)
    ensures
        is_permutation(p@.map_values(|k: usize| k as int), keys@.len()),
        forall|a: int, b: int|
            0 <= a < b < p@.len() ==> key_placed_before(
                keys@.map_values(|k: (u8, String, String)| key_view(k)),
                #[trigger] p@[a] as int,
                #[trigger] p@[b] as int,
            ),
{
    let ghost ks = keys@.map_values(|k: (u8, String, String)| key_view(k));
    let n = keys.len();
    let mut pos: Vec<usize> = Vec::new();
    let mut i: usize = 0;
    while i < n
        invariant
            n == keys@.len(),
            ks == keys@.map_values(|k: (u8, String, String)| key_view(k)),
            i <= n,
            pos@.len() == i,
            forall|k: int| 0 <= k < i ==> 0 <= #[trigger] pos@[k] < i,
            forall|a: int, b: int| 0 <= a < b < i ==> pos@[a] != pos@[b],
            forall|a: int, b: int| 0 <= a < b < i ==> key_placed_before(ks, #[trigger] pos@[a] as int, #[trigger] pos@[b] as int),
        decreases n - i,
    {
        let ghost ki = ks[i as int];
        assert(key_view(keys@[i as int]) == ki);
        let mut q: usize = 0;
        while q < pos.len() && !key_less_exec(&keys[i], &keys[pos[q]])
            invariant
                q <= pos@.len(),
                pos@.len() == i,
                i < n,
                n == keys@.len(),
                ks == keys@.map_values(|k: (u8, String, String)| key_view(k)),
                ki == ks[i as int],
                forall|k: int| 0 <= k < i ==> 0 <= #[trigger] pos@[k] < i,
                forall|a: int| 0 <= a < q ==> !key_less(ki, #[trigger] ks[pos@[a] as int]),
            decreases pos@.len() - q,
        {
            assert(key_view(keys@[pos@[q as int] as int]) == ks[pos@[q as int] as int]);
            q = q + 1;
        }
        proof {
            assert forall|a: int| 0 <= a < q implies key_placed_before(ks, #[trigger] pos@[a] as int, i as int) by {
                lemma_key_order(ks[pos@[a] as int], ki, ki);
            }
            if q < pos@.len() {
                assert(key_view(keys@[pos@[q as int] as int]) == ks[pos@[q as int] as int]);
                assert(key_less(ki, ks[pos@[q as int] as int]));
                assert forall|a: int| q <= a < i implies key_placed_before(ks, i as int, #[trigger] pos@[a] as int) by {
                    if a > q {
                        assert(key_placed_before(ks, pos@[q as int] as int, pos@[a] as int));
                        lemma_key_order(ki, ks[pos@[q as int] as int], ks[pos@[a] as int]);
                    }
                }
            }
        }
        let ghost old_pos = pos@;
        pos.insert(q, i);
        proof {
            assert forall|k: int| 0 <= k < i + 1 implies 0 <= #[trigger] pos@[k] < i + 1 by {
                if k < q {
                    assert(pos@[k] == old_pos[k]);
                } else if k > q {
                    assert(pos@[k] == old_pos[k - 1]);
                }
            }
            assert forall|a: int, b: int| 0 <= a < b < i + 1 implies pos@[a] != pos@[b] by {
                if a < q && b < q {
                    assert(pos@[a] == old_pos[a] && pos@[b] == old_pos[b]);
                } else if a < q && b == q {
                    assert(pos@[a] == old_pos[a]);
                } else if a < q {
                    assert(pos@[a] == old_pos[a] && pos@[b] == old_pos[b - 1]);
                } else if a == q {
                    assert(pos@[b] == old_pos[b - 1]);
                } else {
                    assert(pos@[a] == old_pos[a - 1] && pos@[b] == old_pos[b - 1]);
                }
            }
            assert forall|a: int, b: int| 0 <= a < b < i + 1 implies key_placed_before(ks, #[trigger] pos@[a] as int, #[trigger] pos@[b] as int) by {
                if a < q && b < q {
                    assert(pos@[a] == old_pos[a] && pos@[b] == old_pos[b]);
                } else if a < q && b == q {
                    assert(pos@[a] == old_pos[a]);
                } else if a < q {
                    assert(pos@[a] == old_pos[a] && pos@[b] == old_pos[b - 1]);
                } else if a == q {
                    assert(pos@[b] == old_pos[b - 1]);
                } else {
                    assert(pos@[a] == old_pos[a - 1] && pos@[b] == old_pos[b - 1]);
                }
            }
        }
        i = i + 1;
    }
    proof {
        let pi = pos@.map_values(|k: usize| k as int);
        assert forall|k: int| 0 <= k < pi.len() implies 0 <= #[trigger] pi[k] < keys@.len() by {
            assert(pi[k] == pos@[k] as int);
        }
        assert forall|a: int, b: int| 0 <= a < b < pi.len() implies pi[a] != pi[b] by {
            assert(pi[a] == pos@[a] as int && pi[b] == pos@[b] as int);
        }
    }
    pos
}

/// What a version's backlog preview holds: the version, how many of its issues
/// are open, and the first of them.
pub struct VersionBacklogPreview {
    pub version: ProjectVersion,
    pub total_open: u64,
    pub issues: Vec<Issue>,
}

impl VersionBacklogPreview {
    /// A preview from a search's answer: the open count is the total the search
    /// reported, or the number of issues returned when it reported none.
    pub fn from_search(version: ProjectVersion, total: Option<u64>, issues: Vec<Issue>) -> (r: VersionBacklogPreview)
        ensures
            r.version == version,
            r.issues == issues,
            r.total_open == match total {
                Some(t) => t as int,
                None => issues@.len() as int,
            },
    {
        let count = issues.len();
        let total_open: u64 = match total {
            Some(t) => t,
            None => count as u64,
        };
        VersionBacklogPreview { version, total_open, issues }
    }
}

/// The query of a version's open backlog, newest first.
pub open spec fn backlog_query(project: Seq<char>, version: Seq<char>) -> Seq<char> {
    "project = \""@ + escaped(project) + "\" AND fixVersion = \""@ + escaped(version)
        + "\" AND statusCategory != Done ORDER BY updated DESC"@
}

/// The query of a version's open backlog.
pub fn version_backlog_jql(project_key: &str, version_name: &str) -> (r: String)
    ensures
        r@ == backlog_query(project_key@, version_name@),
{
    let mut q = String::new();
    push_str(&mut q, "project = \"");
    let p = escape_jql(project_key);
    push_str(&mut q, p.as_str());
    push_str(&mut q, "\" AND fixVersion = \"");
    let v = escape_jql(version_name);
    push_str(&mut q, v.as_str());
    push_str(&mut q, "\" AND statusCategory != Done ORDER BY updated DESC");
    q
}

/// The project of an issue: the part of its key before the first `-`, or
/// `fallback` when the key has none.
pub open spec fn key_project(key: Seq<char>, fallback: Seq<char>) -> Seq<char> {
    if exists|i: int| 0 <= i < key.len() && key[i] == '-' {
        let i = choose|i: int| 0 <= i < key.len() && key[i] == '-' && forall|j: int| 0 <= j < i ==> key[j] != '-';
        key.take(i)
    } else {
        fallback
    }
}

/// The project of an issue, from its key (`PROJ-12` gives `PROJ`).
pub fn issue_project_key(key: &str, fallback: &str) -> (r: String)
    ensures
        r@ == key_project(key@, fallback@),
{
    let v = chars_of(key);
    let mut i: usize = 0;
    while i < v.len() && v[i] != '-'
        invariant
            v@ == key@,
            i <= v@.len(),
            forall|j: int| 0 <= j < i ==> v@[j] != '-',
        decreases v@.len() - i,
    {
        i = i + 1;
    }
    if i < v.len() {
        proof {
            let w = choose|w: int| 0 <= w < key@.len() && key@[w] == '-' && forall|j: int| 0 <= j < w ==> key@[j] != '-';
            assert(exists|w: int| 0 <= w < key@.len() && key@[w] == '-' && forall|j: int| 0 <= j < w ==> key@[j] != '-') by {
                assert(0 <= i < key@.len() && key@[i as int] == '-');
            }
            if w < i {
                assert(v@[w] != '-');
            }
            if w > i {
                assert(key@[i as int] != '-');
            }
            assert(w == i);
        }
        let r = string_of_range(&v, 0, i);
        assert(v@.subrange(0, i as int) =~= key@.take(i as int));
        r
    } else {
        let mut r = String::new();
        push_str(&mut r, fallback);
        r
    }
}

/// For each fix-version name, in order, the position of the first project
/// version with that name; names with no such version are skipped.
pub open spec fn preview_positions(names: Seq<Seq<char>>, versions: Seq<Seq<char>>) -> Seq<int>
    decreases names.len(),
{
    if names.len() == 0 {
        Seq::empty()
    } else {
        let rest = preview_positions(names.drop_last(), versions);
        match first_position(versions, names.last()) {
            Some(p) => rest.push(p),
            None => rest,
        }
    }
}

/// The position of the first `t` in `s`.
pub open spec fn first_position(s: Seq<Seq<char>>, t: Seq<char>) -> Option<int> {
    if s.contains(t) {
        Some(choose|p: int| 0 <= p < s.len() && s[p] == t && forall|q: int| 0 <= q < p ==> s[q] != t)
    } else {
        None
    }
}

/// The names of the versions.
pub open spec fn version_names(vs: Seq<ProjectVersion>) -> Seq<Seq<char>> {
    vs.map_values(|v: ProjectVersion| v.name@)
}

/// The project versions whose backlog an issue's insight previews: for each of
/// the issue's fix versions, the first project version of that name.
pub fn preview_targets(fix_versions: &Vec<String>, project_versions: &Vec<ProjectVersion>) -> (r: Vec<usize>)
    ensures
        r@.map_values(|p: usize| p as int) == preview_positions(views(fix_versions@), version_names(project_versions@)),
{
    let ghost names = version_names(project_versions@);
    let mut out: Vec<usize> = Vec::new();
    let mut i: usize = 0;
    while i < fix_versions.len()
        invariant
            i <= fix_versions@.len(),
            names == version_names(project_versions@),
            out@.map_values(|p: usize| p as int) == preview_positions(views(fix_versions@).take(i as int), names),
        decreases fix_versions@.len() - i,
    {
        let ghost fv = views(fix_versions@);
        assert(fv.take(i + 1).drop_last() =~= fv.take(i as int));
        assert(fv.take(i + 1).last() == fix_versions@[i as int]@);
        let name = fix_versions[i].as_str();
        let mut j: usize = 0;
        while j < project_versions.len() && !str_eq(project_versions[j].name.as_str(), name)
            invariant
                j <= project_versions@.len(),
                names == version_names(project_versions@),
                forall|q: int| 0 <= q < j ==> names[q] != name@,
            decreases project_versions@.len() - j,
        {
            j = j + 1;
        }
        if j < project_versions.len() {
            proof {
                assert(names[j as int] == name@);
                assert(names.contains(name@));
                let p = choose|p: int| 0 <= p < names.len() && names[p] == name@ && forall|q: int| 0 <= q < p ==> names[q] != name@;
                assert(exists|p: int| 0 <= p < names.len() && names[p] == name@ && forall|q: int| 0 <= q < p ==> names[q] != name@) by {
                    assert(0 <= j < names.len() && names[j as int] == name@);
                }
                if p < j {
                    assert(names[p] != name@);
                }
                if p > j {
                    assert(names[j as int] != name@);
                }
                assert(first_position(names, name@) == Some(j as int));
            }
            out.push(j);
            assert(out@.map_values(|p: usize| p as int) =~= preview_positions(fv.take(i as int), names).push(j as int));
        } else {
            proof {
                assert forall|q: int| 0 <= q < names.len() implies names[q] != name@ by {}
                assert(!names.contains(name@));
            }
        }
        i = i + 1;
    }
    assert(views(fix_versions@).take(i as int) =~= views(fix_versions@));
    out
}

/// The lines of a backlog preview showing at most `limit` issues: a header with
/// the open count, then either a note that nothing is open or one line per
/// issue shown, and a count of the open issues not shown.
pub open spec fn preview_lines_of(p: VersionBacklogPreview, limit: nat) -> Seq<Seq<char>> {
    let header = p.version.name@ + " — "@ + decimal(p.total_open as nat) + " open issue(s)"@;
    if p.issues@.len() == 0 {
        seq![header, "  ✓ No open backlog items"@]
    } else {
        let shown = p.issues@.take(if limit < p.issues@.len() { limit as int } else { p.issues@.len() as int });
        let lines = seq![header] + shown.map_values(|i: Issue| "  - "@ + i.key@ + " ["@ + i.status@ + "] "@ + i.summary@);
        if p.total_open > p.issues@.len() {
            lines.push("  … "@ + decimal((p.total_open - p.issues@.len()) as nat) + " more"@)
        } else {
            lines
        }
    }
}

/// The lines of a backlog preview showing at most `limit` issues.
pub fn backlog_preview_lines(preview: &VersionBacklogPreview, limit: usize) -> (r: Vec<String>)
    ensures
        views(r@) == preview_lines_of(*preview, limit as nat),
{
    let mut lines: Vec<String> = Vec::new();
    let mut header = String::new();
    push_str(&mut header, preview.version.name.as_str());
    push_str(&mut header, " — ");
    push_decimal(&mut header, preview.total_open);
    push_str(&mut header, " open issue(s)");
    lines.push(header);
    let n = preview.issues.len();
    if n == 0 {
        let mut l = String::new();
        push_str(&mut l, "  ✓ No open backlog items");
        lines.push(l);
        assert(views(lines@) =~= preview_lines_of(*preview, limit as nat));
        return lines;
    }
    let shown: usize = if limit < n {
        limit
    } else {
        n
    };
    let ghost items = preview.issues@.take(shown as int).map_values(
        |i: Issue| "  - "@ + i.key@ + " ["@ + i.status@ + "] "@ + i.summary@,
    );
    let mut k: usize = 0;
    while k < shown
        invariant
            shown <= n == preview.issues@.len(),
            k <= shown,
            lines@.len() == k + 1,
            lines@[0]@ == preview.version.name@ + " — "@ + decimal(preview.total_open as nat) + " open issue(s)"@,
            forall|j: int| 0 <= j < k ==> #[trigger] lines@[j + 1]@ == items[j],
            items == preview.issues@.take(shown as int).map_values(
                |i: Issue| "  - "@ + i.key@ + " ["@ + i.status@ + "] "@ + i.summary@,
            ),
        decreases shown - k,
    {
        let issue = &preview.issues[k];
        let mut l = String::new();
        push_str(&mut l, "  - ");
        push_str(&mut l, issue.key.as_str());
        push_str(&mut l, " [");
        push_str(&mut l, issue.status.as_str());
        push_str(&mut l, "] ");
        push_str(&mut l, issue.summary.as_str());
        lines.push(l);
        k = k + 1;
    }
    let ghost base = seq![lines@[0]@] + items;
    assert(views(lines@) =~= base) by {
        assert forall|j: int| 1 <= j < lines@.len() implies #[trigger] views(lines@)[j] == base[j] by {
            assert(lines@[(j - 1) + 1]@ == items[j - 1]);
        }
    }
    if preview.total_open > n as u64 {
        let mut l = String::new();
        push_str(&mut l, "  … ");
        push_decimal(&mut l, preview.total_open - n as u64);
        push_str(&mut l, " more");
        lines.push(l);
    }
    assert(views(lines@) =~= preview_lines_of(*preview, limit as nat));
    lines
}

} // verus!

//! Release-version comparison and the update notices shown by the CLI and TUI.
use std::cmp::Ordering;
use vstd::prelude::*;

use crate::text::{
    chars_of, parse_u64, parse_u64_chars, push_str, skip_leading, split_chars, split_on,
    string_of_range, strip_leading, trim, trim_str, views, Separator, sep_pred,
};

verus! {

/// The version of this program, compared against the latest published release.
pub const CURRENT_VERSION: &'static str = "1.0.0";

/// A newer published release.
pub struct UpdateNotice {
    /// The release's version, without a leading `v`.
    pub latest: String,
    /// The release page.
    pub url: String,
}

/// A version tag trimmed and stripped of its leading `v`s.
pub open spec fn normalized_version(raw: Seq<char>) -> Seq<char> {
    strip_leading(trim(raw), 'v')
}

/// The numeric components of a version: the dot-separated pieces of the
/// normalized tag, each read as a `u64`, 0 where a piece is not a number.
pub open spec fn version_parts(raw: Seq<char>) -> Seq<u64> {
    split_on(normalized_version(raw), |c: char| c == '.').map_values(
        |p: Seq<char>|
            match parse_u64(p) {
                Some(n) => n,
                None => 0u64,
            },
    )
}

/// Lexicographic comparison of two sequences of numbers (the order of `Vec<u64>`):
/// -1, 0 or 1 as `a` is before, equal to or after `b`.
pub open spec fn lex_rank(a: Seq<u64>, b: Seq<u64>) -> int
    decreases a.len(),
{
    if a.len() == 0 {
        if b.len() == 0 {
            0
        } else {
            -1
        }
    } else if b.len() == 0 {
        1
    } else if a[0] < b[0] {
        -1
    } else if a[0] > b[0] {
        1
    } else {
        lex_rank(a.drop_first(), b.drop_first())
    }
}

/// The `Ordering` of a comparison result.
pub open spec fn ordering_of(c: int) -> Ordering {
    if c < 0 {
        Ordering::Less
    } else if c == 0 {
        Ordering::Equal
    } else {
        Ordering::Greater
    }
}

/// How version `a` compares with version `b`.
pub open spec fn version_order(a: Seq<char>, b: Seq<char>) -> Ordering {
    ordering_of(lex_rank(version_parts(a), version_parts(b)))
}

/// `raw` trimmed, without its leading `v`s.
pub fn normalize_version(raw: &str) -> (r: String)
    ensures
        r@ == normalized_version(raw@),
{
    let t = trim_str(raw);
    let v = chars_of(t.as_str());
    let i = skip_leading(&v, 'v');
    string_of_range(&v, i, v.len())
}

/// The numeric components of a version tag.
pub fn parse_version(input: &str) -> (r: Vec<u64>)
    ensures
        r@ == version_parts(input@),
{
    let norm = normalize_version(input);
    let v = chars_of(norm.as_str());
    let pieces = split_chars(&v, &Separator::Char('.'));
    assert(sep_pred(Separator::Char('.')) =~= (|c: char| c == '.'));
    let ghost parts = split_on(norm@, |c: char| c == '.');
    let mut out: Vec<u64> = Vec::new();
    let mut i: usize = 0;
    while i < pieces.len()
        invariant
            views(pieces@) == parts,
            parts == split_on(normalized_version(input@), |c: char| c == '.'),
            i <= pieces@.len(),
            out@.len() == i,
            forall|k: int|
                0 <= k < i ==> #[trigger] out@[k] == version_parts(input@)[k],
        decreases pieces@.len() - i,
    {
        let pv = chars_of(pieces[i].as_str());
        assert(views(pieces@)[i as int] == pieces@[i as int]@);
        let n: u64 = match parse_u64_chars(&pv) {
            Some(n) => n,
            None => 0,
        };
        out.push(n);
        i = i + 1;
    }
    assert(out@ =~= version_parts(input@));
    out
}

/// Lexicographic comparison of two number sequences: -1, 0 or 1.
pub fn compare_parts(a: &Vec<u64>, b: &Vec<u64>) -> (r: i8)
    ensures
        r == lex_rank(a@, b@),
{
    let mut i: usize = 0;
    assert(a@.skip(0) =~= a@);
    assert(b@.skip(0) =~= b@);
    while i < a.len() && i < b.len()
        invariant
            i <= a@.len(),
            i <= b@.len(),
            lex_rank(a@, b@) == lex_rank(a@.skip(i as int), b@.skip(i as int)),
        decreases a@.len() - i,
    {
        assert(a@.skip(i as int)[0] == a@[i as int]);
        assert(b@.skip(i as int)[0] == b@[i as int]);
        if a[i] < b[i] {
            return -1;
        }
        if a[i] > b[i] {
            return 1;
        }
        assert(a@.skip(i as int).drop_first() =~= a@.skip(i + 1));
        assert(b@.skip(i as int).drop_first() =~= b@.skip(i + 1));
        i = i + 1;
    }
    if i < a.len() {
        1
    } else if i < b.len() {
        -1
    } else {
        0
    }
}

/// How version `a` compares with version `b`, component by component.
pub fn compare_versions(a: &str, b: &str) -> (r: Ordering)
    ensures
        r == version_order(a@, b@),
{
    let a_parts = parse_version(a);
    let b_parts = parse_version(b);
    let c = compare_parts(&a_parts, &b_parts);
    if c < 0 {
        Ordering::Less
    } else if c == 0 {
        Ordering::Equal
    } else {
        Ordering::Greater
    }
}

/// Whether version `latest` is newer than version `current`.
pub fn is_newer(latest: &str, current: &str) -> (r: bool)
    ensures
        r == (version_order(latest@, current@) == Ordering::Greater),
{
    match compare_versions(latest, current) {
        Ordering::Greater => true,
        _ => false,
    }
}

/// The one-line notice printed by the CLI.
pub open spec fn cli_text(notice: UpdateNotice) -> Seq<char> {
    "update available: jirac "@ + CURRENT_VERSION@ + " -> "@ + notice.latest@ + " ("@
        + notice.url@ + ")"@
}

/// The one-line notice shown in the TUI status bar.
pub open spec fn tui_text(notice: UpdateNotice) -> Seq<char> {
    "Update available: jirac "@ + CURRENT_VERSION@ + " \u{2192} "@ + notice.latest@
        + "  (release: "@ + notice.url@ + ")"@
}

/// The update notice printed by the CLI.
pub fn cli_message(notice: &UpdateNotice) -> (r: String)
    ensures
        r@ == cli_text(*notice),
{
    let mut s = String::from_str("update available: jirac ");
    push_str(&mut s, CURRENT_VERSION);
    push_str(&mut s, " -> ");
    push_str(&mut s, notice.latest.as_str());
    push_str(&mut s, " (");
    push_str(&mut s, notice.url.as_str());
    push_str(&mut s, ")");
    s
}

/// The update notice shown in the TUI.
pub fn tui_message(notice: &UpdateNotice) -> (r: String)
    ensures
        r@ == tui_text(*notice),
{
    let mut s = String::from_str("Update available: jirac ");
    push_str(&mut s, CURRENT_VERSION);
    push_str(&mut s, " \u{2192} ");
    push_str(&mut s, notice.latest.as_str());
    push_str(&mut s, "  (release: ");
    push_str(&mut s, notice.url.as_str());
    push_str(&mut s, ")");
    s
}

/// The notice for a published release with tag `tag_name` and page `html_url`:
/// present exactly when the release is newer than this program.
pub fn update_notice_for_release(tag_name: &str, html_url: &str) -> (r: Option<UpdateNotice>)
    ensures
        r is Some <==> version_order(normalized_version(tag_name@), CURRENT_VERSION@)
            == Ordering::Greater,
        r matches Some(n) ==> n.latest@ == normalized_version(tag_name@) && n.url@ == html_url@,
{
    let latest = normalize_version(tag_name);
    if is_newer(latest.as_str(), CURRENT_VERSION) {
        Some(UpdateNotice { latest, url: String::from_str(html_url) })
    } else {
        None
    }
}


proof fn lemma_lex_rank_flip(a: Seq<u64>, b: Seq<u64>)
    ensures
        lex_rank(a, b) == -lex_rank(b, a),
        -1 <= lex_rank(a, b) <= 1,
    decreases a.len(),
{
    if a.len() > 0 && b.len() > 0 && a[0] == b[0] {
        lemma_lex_rank_flip(a.drop_first(), b.drop_first());
    }
}

proof fn lemma_lex_rank_refl(a: Seq<u64>)
    ensures
        lex_rank(a, a) == 0,
    decreases a.len(),
{
    if a.len() > 0 {
        lemma_lex_rank_refl(a.drop_first());
    }
}

proof fn lemma_lex_rank_trans(a: Seq<u64>, b: Seq<u64>, c: Seq<u64>)
    requires
        lex_rank(a, b) > 0,
        lex_rank(b, c) > 0,
    ensures
        lex_rank(a, c) > 0,
    decreases a.len(),
{
    if a.len() > 0 && b.len() > 0 && c.len() > 0 && a[0] == b[0] && b[0] == c[0] {
        lemma_lex_rank_trans(a.drop_first(), b.drop_first(), c.drop_first());
    }
}

/// Comparing versions is antisymmetric: `a` is newer than `b` exactly when
/// `b` is older than `a`, and they are equal in either order alike.
pub proof fn law_version_order_antisymmetric(a: Seq<char>, b: Seq<char>)
    ensures
        (version_order(a, b) == Ordering::Greater) == (version_order(b, a) == Ordering::Less),
        (version_order(a, b) == Ordering::Equal) == (version_order(b, a) == Ordering::Equal),
{
    lemma_lex_rank_flip(version_parts(a), version_parts(b));
}

/// Every version compares equal to itself, so no version is newer than itself.
pub proof fn law_version_order_reflexive(a: Seq<char>)
    ensures
        version_order(a, a) == Ordering::Equal,
{
    lemma_lex_rank_refl(version_parts(a));
}

/// "Newer than" is transitive.
pub proof fn law_version_newer_transitive(a: Seq<char>, b: Seq<char>, c: Seq<char>)
    requires
        version_order(a, b) == Ordering::Greater,
        version_order(b, c) == Ordering::Greater,
    ensures
        version_order(a, c) == Ordering::Greater,
{
    lemma_lex_rank_flip(version_parts(a), version_parts(b));
    lemma_lex_rank_flip(version_parts(b), version_parts(c));
    lemma_lex_rank_flip(version_parts(a), version_parts(c));
    lemma_lex_rank_trans(version_parts(a), version_parts(b), version_parts(c));
}

} // verus!

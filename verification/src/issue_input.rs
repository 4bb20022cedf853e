//! Reading the values given to `jirac issue` commands: optional texts, lists,
//! sprint states, render formats, issue keys and dates.
use vstd::prelude::*;

use crate::datetime::{iso_date, parse_date, ymd_date, DateTimeError};
use crate::jql::{escape_jql, escaped};
use crate::model::{json_get, json_str, opt_view, JsonValue, JsonView};
use crate::text::{
    byte_len, byte_prefix, is_boundary, lemma_byte_len_monotone, prefix_within, string_of,
    ascii_lowercase, ascii_lowercase_str, chars_of, join, keep_trimmed, non_empty, push_char,
    push_str, sep_pred, split_chars, split_non_empty, split_on, str_eq, trim, trim_bounds,
    trim_str, trimmed, views, Separator,
};

verus! {

/// An optional text, trimmed; blank counts as absent.
pub open spec fn optional_text(value: Option<Seq<char>>) -> Option<Seq<char>> {
    match value {
        Some(v) => if trim(v).len() == 0 {
            None
        } else {
            Some(trim(v))
        },
        None => None,
    }
}

/// The view of an optional `&str`.
pub open spec fn opt_str(value: Option<&str>) -> Option<Seq<char>> {
    match value {
        Some(v) => Some(v@),
        None => None,
    }
}

/// An optional text, trimmed, or nothing when it is absent or blank.
pub fn normalize_optional_text(value: Option<&str>) -> (r: Option<String>)
    ensures
        opt_view(r) == optional_text(opt_str(value)),
{
    match value {
        Some(v) => {
            let t = trim_str(v);
            if t.unicode_len() == 0 {
                None
            } else {
                Some(t)
            }
        },
        None => None,
    }
}

/// The comma-separated items of `s`, trimmed, blank ones dropped.
pub open spec fn csv_items(s: Seq<char>) -> Seq<Seq<char>> {
    non_empty(trimmed(split_on(s, sep_pred(Separator::Char(',')))))
}

/// The items of an optional comma-separated list: none when the list is absent or blank.
pub fn parse_csv(input: Option<&str>) -> (r: Vec<String>)
    ensures
        views(r@) == match input {
            Some(s) => if trim(s@).len() == 0 {
                Seq::empty()
            } else {
                csv_items(s@)
            },
            None => Seq::<Seq<char>>::empty(),
        },
{
    match input {
        Some(s) => {
            let v = chars_of(s);
            let (a, b) = trim_bounds(&v);
            if a == b {
                let r: Vec<String> = Vec::new();
                assert(views(r@) =~= Seq::<Seq<char>>::empty());
                return r;
            }
            let pieces = split_chars(&v, &Separator::Char(','));
            keep_trimmed(pieces)
        },
        None => {
            let r: Vec<String> = Vec::new();
            assert(views(r@) =~= Seq::<Seq<char>>::empty());
            r
        },
    }
}

/// `value` written for the inside of a JQL string literal.
pub fn escape_jql_literal(value: &str) -> (r: String)
    ensures
        r@ == escaped(value@),
{
    escape_jql(value)
}

/// The sprint states a listing accepts.
pub open spec fn sprint_state(s: Seq<char>) -> bool {
    s == "active"@ || s == "future"@ || s == "closed"@
}

/// The first of `states` that is not a sprint state, if any.
pub open spec fn first_unsupported(states: Seq<Seq<char>>) -> Option<Seq<char>>
    decreases states.len(),
{
    if states.len() == 0 {
        None
    } else if !sprint_state(states[0]) {
        Some(states[0])
    } else {
        first_unsupported(states.drop_first())
    }
}

/// The error for a state that is not a sprint state.
pub open spec fn unsupported_state_text(state: Seq<char>) -> Seq<char> {
    "Unsupported sprint state '"@ + state
        + "'. Use a comma-separated subset of: active,future,closed"@
}

/// The error for an empty list of states.
pub open spec fn no_state_text() -> Seq<char> {
    "At least one sprint state is required"@
}

/// The sprint states of a comma-separated list: every item must be `active`,
/// `future` or `closed`, and at least one must be given.
pub fn parse_sprint_states(value: &str) -> (r: Result<Vec<String>, String>)
    ensures
        match first_unsupported(csv_items(value@)) {
            Some(bad) => r matches Err(m) && m@ == unsupported_state_text(bad),
            None => if csv_items(value@).len() == 0 {
                r matches Err(m) && m@ == no_state_text()
            } else {
                r matches Ok(v) && views(v@) == csv_items(value@)
            },
        },
{
    let v = chars_of(value);
    let pieces = split_chars(&v, &Separator::Char(','));
    let states = keep_trimmed(pieces);
    let ghost st = views(states@);
    let mut i: usize = 0;
    assert(st.skip(0) =~= st);
    while i < states.len()
        invariant
            i <= states@.len(),
            st == views(states@),
            st == csv_items(value@),
            first_unsupported(st) == first_unsupported(st.skip(i as int)),
        decreases states@.len() - i,
    {
        let s = states[i].as_str();
        assert(st.skip(i as int)[0] == s@);
        if !(str_eq(s, "active") || str_eq(s, "future") || str_eq(s, "closed")) {
            let mut m = String::new();
            push_str(&mut m, "Unsupported sprint state '");
            push_str(&mut m, s);
            push_str(&mut m, "'. Use a comma-separated subset of: active,future,closed");
            return Err(m);
        }
        assert(st.skip(i as int).drop_first() =~= st.skip(i + 1));
        i = i + 1;
    }
    assert(st.skip(i as int) =~= Seq::<Seq<char>>::empty());
    if states.len() == 0 {
        let mut m = String::new();
        push_str(&mut m, "At least one sprint state is required");
        return Err(m);
    }
    Ok(states)
}

/// The canonical name of an input format, if `value` (trimmed, ASCII letters
/// lower-cased) names one.
pub open spec fn render_format_of(value: Seq<char>) -> Option<Seq<char>> {
    let v = ascii_lowercase(trim(value));
    if v == "markdown"@ || v == "md"@ {
        Some("markdown"@)
    } else if v == "text"@ || v == "txt"@ {
        Some("text"@)
    } else if v == "adf"@ || v == "json"@ {
        Some("adf"@)
    } else {
        None
    }
}

/// The canonical name of an output format, if `value` names one.
pub open spec fn render_output_of(value: Seq<char>) -> Option<Seq<char>> {
    let v = ascii_lowercase(trim(value));
    if v == "adf"@ || v == "json"@ {
        Some("adf"@)
    } else if v == "text"@ || v == "txt"@ {
        Some("text"@)
    } else {
        None
    }
}

/// The input format of `jirac issue render`: `markdown`/`md`, `text`/`txt` or
/// `adf`/`json`, in any ASCII case.
pub fn normalize_render_format(value: &str) -> (r: Result<&'static str, String>)
    ensures
        match render_format_of(value@) {
            Some(f) => r matches Ok(x) && x@ == f,
            None => r matches Err(m) && m@ == "Unsupported input format '"@ + ascii_lowercase(trim(value@))
                + "'. Use one of: markdown, text, adf"@,
        },
{
    let t = trim_str(value);
    let v = ascii_lowercase_str(t.as_str());
    let s = v.as_str();
    if str_eq(s, "markdown") || str_eq(s, "md") {
        Ok("markdown")
    } else if str_eq(s, "text") || str_eq(s, "txt") {
        Ok("text")
    } else if str_eq(s, "adf") || str_eq(s, "json") {
        Ok("adf")
    } else {
        let mut m = String::new();
        push_str(&mut m, "Unsupported input format '");
        push_str(&mut m, s);
        push_str(&mut m, "'. Use one of: markdown, text, adf");
        Err(m)
    }
}

/// The output format of `jirac issue render`: `adf`/`json` or `text`/`txt`, in
/// any ASCII case.
pub fn normalize_render_output(value: &str) -> (r: Result<&'static str, String>)
    ensures
        match render_output_of(value@) {
            Some(f) => r matches Ok(x) && x@ == f,
            None => r matches Err(m) && m@ == "Unsupported output format '"@ + ascii_lowercase(trim(value@))
                + "'. Use one of: adf, text"@,
        },
{
    let t = trim_str(value);
    let v = ascii_lowercase_str(t.as_str());
    let s = v.as_str();
    if str_eq(s, "adf") || str_eq(s, "json") {
        Ok("adf")
    } else if str_eq(s, "text") || str_eq(s, "txt") {
        Ok("text")
    } else {
        let mut m = String::new();
        push_str(&mut m, "Unsupported output format '");
        push_str(&mut m, s);
        push_str(&mut m, "'. Use one of: adf, text");
        Err(m)
    }
}

/// The error for a date that is not `YYYY-MM-DD`; `label` says which date.
pub open spec fn invalid_ymd_text(label: Seq<char>, value: Seq<char>) -> Seq<char> {
    "Invalid "@ + label + " '"@ + value + "'. Expected format: YYYY-MM-DD"@
}

/// The content of a result whose both sides are strings.
pub open spec fn text_result(r: Result<String, String>) -> Result<Seq<char>, Seq<char>> {
    match r {
        Ok(s) => Ok(s@),
        Err(e) => Err(e@),
    }
}

/// A date checked to be `YYYY-MM-DD`: the trimmed text, or the error naming `label`.
pub open spec fn validated_ymd(label: Seq<char>, value: Seq<char>) -> Result<Seq<char>, Seq<char>> {
    match ymd_date(trim(value)) {
        Some(_) => Ok(trim(value)),
        None => Err(invalid_ymd_text(label, trim(value))),
    }
}

/// A `YYYY-MM-DD` date as the midnight-UTC timestamp the sprint API takes, or the error.
pub open spec fn midnight_stamp(value: Seq<char>) -> Result<Seq<char>, Seq<char>> {
    match ymd_date(trim(value)) {
        Some(n) => Ok(iso_date(n as int) + "T00:00:00.000Z"@),
        None => Err("Invalid sprint date '"@ + trim(value) + "'. Expected format: YYYY-MM-DD"@),
    }
}

/// A `YYYY-MM-DD` date, trimmed, checked to denote a day.
pub fn validate_ymd_date(value: &str, label: &str) -> (r: Result<String, String>)
    ensures
        text_result(r) == validated_ymd(label@, value@),
{
    match parse_date(value) {
        Ok(_) => Ok(trim_str(value)),
        Err(_) => {
            let t = trim_str(value);
            let mut m = String::new();
            push_str(&mut m, "Invalid ");
            push_str(&mut m, label);
            push_str(&mut m, " '");
            push_str(&mut m, t.as_str());
            push_str(&mut m, "'. Expected format: YYYY-MM-DD");
            Err(m)
        },
    }
}

/// A `YYYY-MM-DD` date as the midnight-UTC timestamp the sprint API takes.
pub fn ymd_to_jira_datetime(value: &str) -> (r: Result<String, String>)
    ensures
        text_result(r) == midnight_stamp(value@),
{
    match parse_date(value) {
        Ok(d) => {
            let n = d.day_number();
            assert(n as int == d.number());
            let mut s = d.to_iso_string();
            push_str(&mut s, "T00:00:00.000Z");
            Ok(s)
        },
        Err(_) => {
            let t = trim_str(value);
            let mut m = String::new();
            push_str(&mut m, "Invalid sprint date '");
            push_str(&mut m, t.as_str());
            push_str(&mut m, "'. Expected format: YYYY-MM-DD");
            Err(m)
        },
    }
}

/// `n - 1`, or `0` when `n` is `0`.
pub open spec fn minus_one(n: nat) -> nat {
    if n == 0 {
        0
    } else {
        (n - 1) as nat
    }
}

/// `s` cut to fit `max` bytes: unchanged when it fits, otherwise its first
/// `max - 1` bytes followed by `…`.
pub open spec fn truncated(s: Seq<char>, max: nat) -> Seq<char> {
    if byte_len(s) <= max {
        s
    } else {
        crate::text::bytes_prefix(s, minus_one(max) as int).push('…')
    }
}

/// A text fits the truncation of `max` bytes: it is short enough, or its cut
/// falls between two characters.
pub open spec fn truncatable(s: Seq<char>, max: nat) -> bool {
    byte_len(s) <= max || is_boundary(s, minus_one(max) as int)
}

/// `s` cut to fit `max_len` bytes of UTF-8: unchanged when it fits, otherwise
/// its first `max_len - 1` bytes followed by `…`. The cut must fall between
/// two characters.
pub fn truncate(s: &str, max_len: usize) -> (r: String)
    requires
        byte_len(s@) <= max_len || is_boundary(s@, minus_one(max_len as nat) as int),
    ensures
        byte_len(s@) <= max_len ==> r@ == s@,
        byte_len(s@) > max_len ==> exists|k: int|
            0 <= k <= s@.len() && byte_len(#[trigger] s@.take(k)) == minus_one(max_len as nat)
                && r@ == s@.take(k).push('…'),
        r@ == truncated(s@, max_len as nat),
{
    let r = truncate_cut(s, max_len);
    proof {
        if byte_len(s@) > max_len {
            let k = choose|k: int|
                0 <= k <= s@.len() && byte_len(#[trigger] s@.take(k)) == minus_one(max_len as nat)
                    && r@ == s@.take(k).push('…');
            crate::text::lemma_bytes_prefix(s@, minus_one(max_len as nat) as int, k);
        }
    }
    r
}

fn truncate_cut(s: &str, max_len: usize) -> (r: String)
    requires
        byte_len(s@) <= max_len || is_boundary(s@, minus_one(max_len as nat) as int),
    ensures
        byte_len(s@) <= max_len ==> r@ == s@,
        byte_len(s@) > max_len ==> exists|k: int|
            0 <= k <= s@.len() && byte_len(#[trigger] s@.take(k)) == minus_one(max_len as nat)
                && r@ == s@.take(k).push('…'),
{
    let v = chars_of(s);
    let (k, _used) = prefix_within(&v, max_len);
    if k == v.len() {
        assert(v@.take(k as int) =~= v@);
        return string_of(&v);
    }
    proof {
        lemma_byte_len_monotone(v@, k + 1, v@.len() as int);
        assert(v@.take(v@.len() as int) =~= v@);
    }
    let cut: usize = if max_len == 0 {
        0
    } else {
        max_len - 1
    };
    match byte_prefix(s, cut) {
        Some(p) => {
            let mut out = p;
            crate::text::push_char(&mut out, '…');
            out
        },
        None => {
            assert(false);
            String::new()
        },
    }
}

/// The label of an allowed value of a field: its `value` member when it has
/// one (a text), else its `name` member (a text).
pub open spec fn allowed_label(v: JsonView) -> Option<Seq<char>> {
    match json_get(v, "value"@) {
        Some(x) => json_str(Some(x)),
        None => json_str(json_get(v, "name"@)),
    }
}

/// The labels of the allowed values that have one, in order.
pub open spec fn allowed_labels(items: Seq<JsonView>) -> Seq<Seq<char>>
    decreases items.len(),
{
    if items.len() == 0 {
        Seq::empty()
    } else {
        match allowed_label(items.last()) {
            Some(l) => allowed_labels(items.drop_last()).push(l),
            None => allowed_labels(items.drop_last()),
        }
    }
}

/// The content of a slice of JSON values.
pub open spec fn deep_all(items: Seq<JsonValue>) -> Seq<JsonView> {
    items.map_values(|v: JsonValue| v.deep())
}

/// The choices offered for a field with allowed values; none when the field
/// lists none.
pub fn select_options(allowed: Option<&[JsonValue]>) -> (r: Vec<String>)
    ensures
        views(r@) == match allowed {
            Some(items) => allowed_labels(deep_all(items@)),
            None => Seq::<Seq<char>>::empty(),
        },
{
    let mut out: Vec<String> = Vec::new();
    match allowed {
        Some(items) => {
            let ghost ds = deep_all(items@);
            let mut i: usize = 0;
            while i < items.len()
                invariant
                    i <= items@.len(),
                    ds == deep_all(items@),
                    views(out@) == allowed_labels(ds.take(i as int)),
                decreases items@.len() - i,
            {
                assert(ds.take(i + 1).drop_last() =~= ds.take(i as int));
                assert(ds.take(i + 1).last() == items@[i as int].deep());
                let v = &items[i];
                let label: Option<&str> = match v.get("value") {
                    Some(x) => x.as_str(),
                    None => match v.get("name") {
                        Some(x) => x.as_str(),
                        None => None,
                    },
                };
                match label {
                    Some(l) => {
                        let mut t = String::new();
                        push_str(&mut t, l);
                        out.push(t);
                        assert(views(out@) =~= views(out@).drop_last().push(l@));
                    },
                    None => {},
                }
                i = i + 1;
            }
            assert(ds.take(i as int) =~= ds);
        },
        None => {
            assert(views(out@) =~= Seq::<Seq<char>>::empty());
        },
    }
    out
}

/// The pieces of every raw argument split at commas and whitespace, in order.
pub open spec fn key_pieces(raw: Seq<Seq<char>>) -> Seq<Seq<char>>
    decreases raw.len(),
{
    if raw.len() == 0 {
        Seq::empty()
    } else {
        key_pieces(raw.drop_last()) + non_empty(
            split_on(raw.last(), sep_pred(Separator::CommaOrWhitespace)),
        )
    }
}

/// `s` with every repeated text dropped, first occurrences kept in order.
pub open spec fn dedup(s: Seq<Seq<char>>) -> Seq<Seq<char>>
    decreases s.len(),
{
    if s.len() == 0 {
        Seq::empty()
    } else if dedup(s.drop_last()).contains(s.last()) {
        dedup(s.drop_last())
    } else {
        dedup(s.drop_last()).push(s.last())
    }
}

/// No text occurs twice in `s`.
pub open spec fn distinct(s: Seq<Seq<char>>) -> bool {
    forall|i: int, j: int| 0 <= i < j < s.len() ==> s[i] != s[j]
}

/// Whether `v` holds a string equal to `t`.
fn holds(v: &Vec<String>, t: &str) -> (r: bool)
    ensures
        r == views(v@).contains(t@),
{
    let mut i: usize = 0;
    while i < v.len()
        invariant
            i <= v@.len(),
            forall|k: int| 0 <= k < i ==> v@[k]@ != t@,
        decreases v@.len() - i,
    {
        if str_eq(v[i].as_str(), t) {
            assert(views(v@)[i as int] == t@);
            return true;
        }
        i = i + 1;
    }
    assert forall|k: int| 0 <= k < views(v@).len() implies views(v@)[k] != t@ by {
        assert(views(v@)[k] == v@[k]@);
    }
    false
}

/// Issue keys given as arguments that may each hold several keys separated by
/// commas or whitespace: every key once, in the order first given.
pub fn normalize_issue_keys(raw_keys: Vec<String>) -> (r: Vec<String>)
    ensures
        views(r@) == dedup(key_pieces(views(raw_keys@))),
{
    let mut out: Vec<String> = Vec::new();
    let ghost raws = views(raw_keys@);
    let mut i: usize = 0;
    while i < raw_keys.len()
        invariant
            i <= raw_keys@.len(),
            raws == views(raw_keys@),
            views(out@) == dedup(key_pieces(raws.take(i as int))),
        decreases raw_keys@.len() - i,
    {
        let pieces = split_non_empty(raw_keys[i].as_str(), &Separator::CommaOrWhitespace);
        let ghost ps = views(pieces@);
        let ghost before = key_pieces(raws.take(i as int));
        assert(raws.take(i + 1).drop_last() =~= raws.take(i as int));
        assert(key_pieces(raws.take(i + 1)) == before + ps);
        let mut j: usize = 0;
        assert(before + ps.take(0) =~= before);
        while j < pieces.len()
            invariant
                j <= pieces@.len(),
                ps == views(pieces@),
                views(out@) == dedup(before + ps.take(j as int)),
            decreases pieces@.len() - j,
        {
            let p = pieces[j].as_str();
            assert((before + ps.take(j + 1)).drop_last() =~= before + ps.take(j as int));
            assert((before + ps.take(j + 1)).last() == p@);
            if !holds(&out, p) {
                out.push(pieces[j].clone());
                assert(views(out@) =~= views(out@).drop_last().push(p@));
            }
            j = j + 1;
        }
        assert(before + ps.take(j as int) =~= before + ps);
        i = i + 1;
    }
    assert(raws.take(i as int) =~= raws);
    out
}

/// Keys come out once each: the result of `normalize_issue_keys` holds no
/// duplicates, and holds exactly the keys found in the arguments.
pub proof fn law_issue_keys_distinct(s: Seq<Seq<char>>)
    ensures
        distinct(dedup(s)),
        forall|t: Seq<char>| dedup(s).contains(t) <==> s.contains(t),
    decreases s.len(),
{
    if s.len() > 0 {
        law_issue_keys_distinct(s.drop_last());
        let d = dedup(s.drop_last());
        assert forall|t: Seq<char>| dedup(s).contains(t) <==> s.contains(t) by {
            if s.contains(t) && t != s.last() {
                let k = choose|k: int| 0 <= k < s.len() && s[k] == t;
                assert(s.drop_last()[k] == t);
            }
            if s.drop_last().contains(t) {
                let k = choose|k: int| 0 <= k < s.drop_last().len() && s.drop_last()[k] == t;
                assert(s[k] == t);
            }
            if !d.contains(s.last()) {
                assert(d.push(s.last())[d.len() as int] == s.last());
                if d.push(s.last()).contains(t) {
                    let k = choose|k: int| 0 <= k < d.push(s.last()).len() && d.push(s.last())[k] == t;
                    if k < d.len() {
                        assert(d[k] == t);
                    }
                }
                if d.contains(t) {
                    let k = choose|k: int| 0 <= k < d.len() && d[k] == t;
                    assert(d.push(s.last())[k] == t);
                }
            }
            assert(s[s.len() - 1] == s.last());
        }
        if !d.contains(s.last()) {
            assert forall|i: int, j: int| 0 <= i < j < d.push(s.last()).len() implies d.push(s.last())[i] != d.push(s.last())[j] by {
                if j == d.len() {
                    assert(d[i] == d.push(s.last())[i]);
                }
            }
        }
    }
}

} // verus!

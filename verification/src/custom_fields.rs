//! Custom fields when creating an issue: which required fields are asked
//! for, how each is asked, how a typed answer is split, and how `--field`
//! flags are read.
use vstd::prelude::*;

use crate::text::{
    chars_of, push_str, split_chars, split_non_empty, split_on, str_eq, string_of_range, trim, trim_str,
    views, words, Separator,
};

verus! {

/// The fields the command line sets with its own flags; they are never asked
/// for as custom fields.
pub open spec fn standard_ids() -> Seq<Seq<char>> {
    seq![
        "summary"@,
        "description"@,
        "issuetype"@,
        "project"@,
        "assignee"@,
        "reporter"@,
        "priority"@,
        "status"@,
        "created"@,
        "updated"@,
        "comment"@,
        "attachment"@,
        "labels"@,
        "fixVersions"@,
        "versions"@,
        "components"@,
    ]
}

/// Whether field `id` is set by the command line's own flags.
pub fn is_standard_field(id: &str) -> (r: bool)
    ensures
        r == standard_ids().contains(id@),
{
    let ids: Vec<&str> = vec![
        "summary",
        "description",
        "issuetype",
        "project",
        "assignee",
        "reporter",
        "priority",
        "status",
        "created",
        "updated",
        "comment",
        "attachment",
        "labels",
        "fixVersions",
        "versions",
        "components",
    ];
    assert(ids@.map_values(|s: &str| s@) =~= standard_ids());
    let mut i: usize = 0;
    while i < ids.len()
        invariant
            i <= ids@.len(),
            ids@.map_values(|s: &str| s@) == standard_ids(),
            forall|k: int| 0 <= k < i ==> standard_ids()[k] != id@,
        decreases ids@.len() - i,
    {
        assert(standard_ids()[i as int] == ids@[i as int]@);
        if str_eq(ids[i], id) {
            return true;
        }
        i = i + 1;
    }
    false
}

/// A field of an issue type, as far as creating an issue goes.
pub struct CreateField {
    pub id: String,
    pub name: String,
    pub required: bool,
    pub kind: FieldKind,
}

/// What a field holds, as it decides how the field is asked for.
#[derive(Clone, Copy, Debug, PartialEq, Eq, Structural)]
pub enum FieldKind {
    Text,
    Url,
    Number,
    DateTime,
    Select,
    MultiSelect,
    User,
    UserArray,
    Labels,
    /// Check boxes, cascading selects and unknown kinds: never asked for.
    Other,
}

/// The positions of the fields asked for when creating an issue: the
/// required ones the command line does not set itself, in order.
pub open spec fn asked_positions(fs: Seq<CreateField>) -> Seq<int>
    decreases fs.len(),
{
    if fs.len() == 0 {
        Seq::empty()
    } else {
        let r = asked_positions(fs.drop_last());
        let f = fs.last();
        if f.required && !standard_ids().contains(f.id@) {
            r.push(fs.len() - 1)
        } else {
            r
        }
    }
}

/// The positions of the fields asked for when creating an issue.
pub fn fields_to_ask(fields: &Vec<CreateField>) -> (r: Vec<usize>)
    ensures
        r@.map_values(|i: usize| i as int) == asked_positions(fields@),
{
    let mut out: Vec<usize> = Vec::new();
    let mut i: usize = 0;
    while i < fields.len()
        invariant
            i <= fields@.len(),
            out@.map_values(|i: usize| i as int) == asked_positions(fields@.take(i as int)),
        decreases fields@.len() - i,
    {
        assert(fields@.take(i + 1).drop_last() =~= fields@.take(i as int));
        assert(fields@.take(i + 1).last() == fields@[i as int]);
        let ghost before = out@.map_values(|i: usize| i as int);
        if fields[i].required && !is_standard_field(fields[i].id.as_str()) {
            out.push(i);
            assert(out@.map_values(|i: usize| i as int) =~= before.push(i as int));
        }
        i = i + 1;
    }
    assert(fields@.take(i as int) =~= fields@);
    out
}

/// How a field is asked for.
#[derive(Clone, Copy, Debug, PartialEq, Eq, Structural)]
pub enum PromptStyle {
    /// A line of text.
    Text,
    /// One of the allowed values.
    Select,
    /// Some of the allowed values.
    MultiSelect,
}

/// How a field of kind `kind` named `name` is asked for, and the prompt;
/// none for kinds never asked for. `has_options` says whether the field
/// lists its allowed values.
pub open spec fn prompt_of(kind: FieldKind, name: Seq<char>, has_options: bool) -> Option<(PromptStyle, Seq<char>)> {
    match kind {
        FieldKind::Text | FieldKind::Url => Some((PromptStyle::Text, name + ":"@)),
        FieldKind::Number => Some((PromptStyle::Text, name + " (number):"@)),
        FieldKind::DateTime => Some((PromptStyle::Text, name + " (YYYY-MM-DD):"@)),
        FieldKind::Select => if has_options {
            Some((PromptStyle::Select, name + ":"@))
        } else {
            Some((PromptStyle::Text, name + ":"@))
        },
        FieldKind::MultiSelect => if has_options {
            Some((PromptStyle::MultiSelect, name + ":"@))
        } else {
            Some((PromptStyle::Text, name + " (comma-separated):"@))
        },
        FieldKind::User | FieldKind::UserArray => Some((PromptStyle::Text, name + " (email):"@)),
        FieldKind::Labels => Some((PromptStyle::Text, name + " (space-separated labels):"@)),
        FieldKind::Other => None,
    }
}

/// How a field is asked for, and the prompt.
pub fn field_prompt(kind: FieldKind, name: &str, has_options: bool) -> (r: Option<(PromptStyle, String)>)
    ensures
        match r {
            Some((st, p)) => prompt_of(kind, name@, has_options) == Some((st, p@)),
            None => prompt_of(kind, name@, has_options) is None,
        },
{
    let (style, suffix) = match kind {
        FieldKind::Text | FieldKind::Url => (PromptStyle::Text, ":"),
        FieldKind::Number => (PromptStyle::Text, " (number):"),
        FieldKind::DateTime => (PromptStyle::Text, " (YYYY-MM-DD):"),
        FieldKind::Select => if has_options {
            (PromptStyle::Select, ":")
        } else {
            (PromptStyle::Text, ":")
        },
        FieldKind::MultiSelect => if has_options {
            (PromptStyle::MultiSelect, ":")
        } else {
            (PromptStyle::Text, " (comma-separated):")
        },
        FieldKind::User | FieldKind::UserArray => (PromptStyle::Text, " (email):"),
        FieldKind::Labels => (PromptStyle::Text, " (space-separated labels):"),
        FieldKind::Other => return None,
    };
    let mut p = String::new();
    push_str(&mut p, name);
    push_str(&mut p, suffix);
    Some((style, p))
}

/// The pieces of a comma-separated answer, each trimmed; empty pieces stay.
pub open spec fn comma_items(raw: Seq<char>) -> Seq<Seq<char>> {
    split_on(raw, |c: char| c == ',').map_values(|p: Seq<char>| trim(p))
}

/// Splits a comma-separated answer into trimmed pieces.
pub fn split_comma_answer(raw: &str) -> (r: Vec<String>)
    ensures
        views(r@) == comma_items(raw@),
{
    let pieces = split_chars(&chars_of(raw), &Separator::Char(','));
    let ghost ps = views(pieces@);
    assert(ps == split_on(raw@, crate::text::sep_pred(Separator::Char(','))));
    assert(crate::text::sep_pred(Separator::Char(',')) =~= (|c: char| c == ','));
    let mut out: Vec<String> = Vec::new();
    let mut i: usize = 0;
    while i < pieces.len()
        invariant
            i <= pieces@.len(),
            ps == views(pieces@),
            views(out@) == ps.take(i as int).map_values(|p: Seq<char>| trim(p)),
        decreases pieces@.len() - i,
    {
        let t = trim_str(pieces[i].as_str());
        let ghost before = views(out@);
        out.push(t);
        assert(views(out@) =~= before.push(trim(ps[i as int])));
        i = i + 1;
        assert(ps.take(i as int).map_values(|p: Seq<char>| trim(p)) =~= ps.take(i - 1).map_values(
            |p: Seq<char>| trim(p),
        ).push(trim(ps[i - 1])));
    }
    assert(ps.take(i as int) =~= ps);
    out
}

/// Splits a labels answer at whitespace.
pub fn split_labels_answer(raw: &str) -> (r: Vec<String>)
    ensures
        views(r@) == words(raw@),
{
    let r = split_non_empty(raw, &Separator::Whitespace);
    assert(crate::text::sep_pred(Separator::Whitespace) =~= (|c: char| crate::text::is_ws(c)));
    r
}

/// The key and value of a `--field key=value` flag, split at the first `=`,
/// or the error when there is none.
pub open spec fn field_flag_of(kv: Seq<char>) -> Result<(Seq<char>, Seq<char>), Seq<char>> {
    if exists|i: int| 0 <= i < kv.len() && kv[i] == '=' {
        let i = choose|i: int| 0 <= i < kv.len() && kv[i] == '=' && forall|j: int| 0 <= j < i ==> kv[j] != '=';
        Ok((kv.take(i), kv.skip(i + 1)))
    } else {
        Err("Invalid --field format '"@ + kv + "': expected key=value"@)
    }
}

/// Splits a `--field key=value` flag. What the value becomes (JSON when it
/// parses as JSON, else text) is decided by the caller, which parses it.
pub fn split_field_flag(kv: &str) -> (r: Result<(String, String), String>)
    ensures
        match r {
            Ok((k, v)) => field_flag_of(kv@) == Ok::<(Seq<char>, Seq<char>), Seq<char>>((k@, v@)),
            Err(e) => field_flag_of(kv@) == Err::<(Seq<char>, Seq<char>), Seq<char>>(e@),
        },
{
    let v = chars_of(kv);
    let mut i: usize = 0;
    while i < v.len()
        invariant
            i <= v@.len(),
            v@ == kv@,
            forall|j: int| 0 <= j < i ==> v@[j] != '=',
        decreases v@.len() - i,
    {
        if v[i] == '=' {
            let key = string_of_range(&v, 0, i);
            let value = string_of_range(&v, i + 1, v.len());
            proof {
                let w = choose|w: int| 0 <= w < kv@.len() && kv@[w] == '=' && forall|j: int| 0 <= j < w ==> kv@[j] != '=';
                assert(w == i) by {
                    if w < i {
                        assert(v@[w] != '=');
                    }
                    if w > i {
                        assert(kv@[i as int] == '=');
                    }
                }
                assert(key@ =~= kv@.take(i as int));
                assert(value@ =~= kv@.skip(i + 1));
            }
            return Ok((key, value));
        }
        i = i + 1;
    }
    let mut e = String::new();
    push_str(&mut e, "Invalid --field format '");
    push_str(&mut e, kv);
    push_str(&mut e, "': expected key=value");
    Err(e)
}

/// The `--field` flags split into key and value, in order, or the error of
/// the first flag without `=`.
pub open spec fn field_flags_of(flags: Seq<Seq<char>>) -> Result<Seq<(Seq<char>, Seq<char>)>, Seq<char>>
    decreases flags.len(),
{
    if flags.len() == 0 {
        Ok(Seq::empty())
    } else {
        match field_flags_of(flags.drop_last()) {
            Err(e) => Err(e),
            Ok(done) => match field_flag_of(flags.last()) {
                Ok(kv) => Ok(done.push(kv)),
                Err(e) => Err(e),
            },
        }
    }
}

/// Splits every `--field key=value` flag; the first flag without `=` is an
/// error. What each value becomes (JSON when it parses as JSON, else text)
/// is decided by the caller, which parses it.
pub fn parse_field_flags(flags: &Vec<String>) -> (r: Result<Vec<(String, String)>, String>)
    ensures
        match r {
            Ok(kvs) => field_flags_of(views(flags@)) == Ok::<Seq<(Seq<char>, Seq<char>)>, Seq<char>>(
                kvs@.map_values(|kv: (String, String)| (kv.0@, kv.1@)),
            ),
            Err(e) => field_flags_of(views(flags@)) == Err::<Seq<(Seq<char>, Seq<char>)>, Seq<char>>(e@),
        },
{
    let mut out: Vec<(String, String)> = Vec::new();
    let mut i: usize = 0;
    assert(views(flags@).take(0) =~= Seq::<Seq<char>>::empty());
    assert(out@.map_values(|kv: (String, String)| (kv.0@, kv.1@)) =~= Seq::<(Seq<char>, Seq<char>)>::empty());
    while i < flags.len()
        invariant
            i <= flags@.len(),
            field_flags_of(views(flags@).take(i as int)) == Ok::<Seq<(Seq<char>, Seq<char>)>, Seq<char>>(
                out@.map_values(|kv: (String, String)| (kv.0@, kv.1@)),
            ),
        decreases flags@.len() - i,
    {
        assert(views(flags@).take(i + 1).drop_last() =~= views(flags@).take(i as int));
        assert(views(flags@).take(i + 1).last() == flags@[i as int]@);
        match split_field_flag(flags[i].as_str()) {
            Ok(kv) => {
                let ghost before = out@.map_values(|kv: (String, String)| (kv.0@, kv.1@));
                out.push(kv);
                assert(out@.map_values(|kv: (String, String)| (kv.0@, kv.1@)) =~= before.push((kv.0@, kv.1@)));
            },
            Err(e) => {
                proof {
                    lemma_flags_error_stays(views(flags@), i as int + 1);
                }
                return Err(e);
            },
        }
        i = i + 1;
    }
    assert(views(flags@).take(i as int) =~= views(flags@));
    Ok(out)
}

proof fn lemma_flags_error_stays(flags: Seq<Seq<char>>, n: int)
    requires
        0 < n <= flags.len(),
        field_flags_of(flags.take(n)) is Err,
    ensures
        field_flags_of(flags) == field_flags_of(flags.take(n)),
    decreases flags.len() - n,
{
    if n < flags.len() {
        assert(flags.take(n + 1).drop_last() =~= flags.take(n));
        lemma_flags_error_stays(flags, n + 1);
    } else {
        assert(flags.take(n) =~= flags);
    }
}

} // verus!

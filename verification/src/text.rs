//! Character-level text helpers shared by the command-line and TUI logic.
//!
//! Every string is modelled by its sequence of `char`s (the view `@` of `str`
//! and `String`), and each helper states its result over that sequence.
use vstd::prelude::*;

verus! {

/// Unicode `White_Space` property, the set of characters `char::is_whitespace` accepts.
pub open spec fn is_ws(c: char) -> bool {
    ||| ('\u{9}' <= c && c <= '\u{d}')
    ||| c == ' '
    ||| c == '\u{85}'
    ||| c == '\u{a0}'
    ||| c == '\u{1680}'
    ||| ('\u{2000}' <= c && c <= '\u{200a}')
    ||| c == '\u{2028}'
    ||| c == '\u{2029}'
    ||| c == '\u{202f}'
    ||| c == '\u{205f}'
    ||| c == '\u{3000}'
}

/// Whether `c` is a whitespace character.
pub fn is_whitespace(c: char) -> (r: bool)
    ensures
        r == is_ws(c),
{
    ('\u{9}' <= c && c <= '\u{d}') || c == ' ' || c == '\u{85}' || c == '\u{a0}' || c
        == '\u{1680}' || ('\u{2000}' <= c && c <= '\u{200a}') || c == '\u{2028}' || c
        == '\u{2029}' || c == '\u{202f}' || c == '\u{205f}' || c == '\u{3000}'
}

/// `s` without its leading whitespace.
pub open spec fn trim_start(s: Seq<char>) -> Seq<char>
    decreases s.len(),
{
    if s.len() > 0 && is_ws(s[0]) {
        trim_start(s.drop_first())
    } else {
        s
    }
}

/// `s` without its trailing whitespace.
pub open spec fn trim_end(s: Seq<char>) -> Seq<char>
    decreases s.len(),
{
    if s.len() > 0 && is_ws(s.last()) {
        trim_end(s.drop_last())
    } else {
        s
    }
}

/// `s` without leading and trailing whitespace (`str::trim`).
pub open spec fn trim(s: Seq<char>) -> Seq<char> {
    trim_end(trim_start(s))
}

/// A text that starts and ends with a non-whitespace character is its own trim.
pub proof fn lemma_trim_kept(s: Seq<char>)
    requires
        s.len() > 0,
        !is_ws(s[0]),
        !is_ws(s.last()),
    ensures
        trim(s) == s,
        trim(s).len() > 0,
{
    assert(trim_start(s) == s);
}

proof fn lemma_trim_start_head(s: Seq<char>)
    ensures
        trim_start(s).len() > 0 ==> !is_ws(trim_start(s)[0]),
    decreases s.len(),
{
    if s.len() > 0 && is_ws(s[0]) {
        lemma_trim_start_head(s.drop_first());
    }
}

proof fn lemma_trim_end_prefix(s: Seq<char>)
    ensures
        trim_end(s).len() <= s.len(),
        trim_end(s) == s.take(trim_end(s).len() as int),
        trim_end(s).len() > 0 ==> !is_ws(trim_end(s).last()),
    decreases s.len(),
{
    if s.len() > 0 && is_ws(s.last()) {
        lemma_trim_end_prefix(s.drop_last());
        let t = trim_end(s.drop_last());
        assert(s.drop_last().take(t.len() as int) =~= s.take(t.len() as int));
    } else {
        assert(s.take(s.len() as int) =~= s);
    }
}

/// Trimming a trimmed text changes nothing.
pub proof fn lemma_trim_idempotent(s: Seq<char>)
    ensures
        trim(trim(s)) == trim(s),
{
    let u = trim_start(s);
    let t = trim(s);
    lemma_trim_start_head(s);
    lemma_trim_end_prefix(u);
    if t.len() > 0 {
        assert(t[0] == u[0]);
        lemma_trim_kept(t);
    } else {
        assert(t =~= Seq::<char>::empty());
    }
}

/// `String::push`: appends one character at the end.
#[verifier::external_body]
pub fn push_char(s: &mut String, c: char)
    ensures
        final(s)@ == old(s)@.push(c),
{
    s.push(c);
}

/// The characters of `s`, in order.
pub fn chars_of(s: &str) -> (v: Vec<char>)
    ensures
        v@ == s@,
{
    let n = s.unicode_len();
    let mut v: Vec<char> = Vec::new();
    let mut i: usize = 0;
    while i < n
        invariant
            n == s@.len(),
            i <= n,
            v@ == s@.take(i as int),
        decreases n - i,
    {
        let c = s.get_char(i);
        v.push(c);
        i = i + 1;
        assert(v@ =~= s@.take(i as int));
    }
    assert(v@ =~= s@);
    v
}

/// A string made of the characters `v[from..to]`.
pub fn string_of_range(v: &Vec<char>, from: usize, to: usize) -> (s: String)
    requires
        from <= to <= v@.len(),
    ensures
        s@ == v@.subrange(from as int, to as int),
{
    let mut s = String::new();
    let mut i: usize = from;
    while i < to
        invariant
            from <= i <= to <= v@.len(),
            s@ == v@.subrange(from as int, i as int),
        decreases to - i,
    {
        push_char(&mut s, v[i]);
        i = i + 1;
        assert(s@ =~= v@.subrange(from as int, i as int));
    }
    s
}

/// A string made of the characters of `v`.
pub fn string_of(v: &Vec<char>) -> (s: String)
    ensures
        s@ == v@,
{
    let s = string_of_range(v, 0, v.len());
    assert(v@.subrange(0, v@.len() as int) =~= v@);
    s
}

/// Index of the first character of `v[from..]` that is not whitespace (or `v.len()`).
fn skip_ws_forward(v: &Vec<char>, from: usize) -> (i: usize)
    requires
        from <= v@.len(),
    ensures
        from <= i <= v@.len(),
        trim_start(v@.skip(from as int)) == v@.skip(i as int),
{
    let mut i = from;
    while i < v.len() && is_whitespace(v[i])
        invariant
            from <= i <= v@.len(),
            trim_start(v@.skip(from as int)) == trim_start(v@.skip(i as int)),
        decreases v@.len() - i,
    {
        assert(v@.skip(i as int).drop_first() =~= v@.skip(i + 1));
        i = i + 1;
    }
    i
}

/// Length of `v[..to]` once its trailing whitespace is removed.
fn skip_ws_backward(v: &Vec<char>, from: usize, to: usize) -> (j: usize)
    requires
        from <= to <= v@.len(),
    ensures
        from <= j <= to,
        trim_end(v@.subrange(from as int, to as int)) == v@.subrange(from as int, j as int),
{
    let mut j = to;
    while j > from && is_whitespace(v[j - 1])
        invariant
            from <= j <= to <= v@.len(),
            trim_end(v@.subrange(from as int, to as int)) == trim_end(
                v@.subrange(from as int, j as int),
            ),
        decreases j - from,
    {
        assert(v@.subrange(from as int, j as int).drop_last() =~= v@.subrange(
            from as int,
            j - 1,
        ));
        j = j - 1;
    }
    j
}

/// Bounds `(a, b)` such that `v[a..b]` is `v` with surrounding whitespace removed.
pub fn trim_bounds(v: &Vec<char>) -> (r: (usize, usize))
    ensures
        r.0 <= r.1 <= v@.len(),
        trim(v@) == v@.subrange(r.0 as int, r.1 as int),
{
    let a = skip_ws_forward(v, 0);
    assert(v@.skip(0) =~= v@);
    let b = skip_ws_backward(v, a, v.len());
    assert(v@.skip(a as int) =~= v@.subrange(a as int, v@.len() as int));
    (a, b)
}

/// `str::trim`: `s` without leading and trailing whitespace.
pub fn trim_str(s: &str) -> (r: String)
    ensures
        r@ == trim(s@),
{
    let v = chars_of(s);
    let (a, b) = trim_bounds(&v);
    string_of_range(&v, a, b)
}


/// `needle` occurs in `hay` starting at index `i`.
pub open spec fn occurs_at(hay: Seq<char>, needle: Seq<char>, i: int) -> bool {
    0 <= i && i + needle.len() <= hay.len() && hay.subrange(i, i + needle.len()) == needle
}

/// `needle` occurs somewhere in `hay` (`str::contains`).
pub open spec fn contains(hay: Seq<char>, needle: Seq<char>) -> bool {
    exists|i: int| occurs_at(hay, needle, i)
}

/// `hay` begins with `prefix` (`str::starts_with`).
pub open spec fn starts_with(hay: Seq<char>, prefix: Seq<char>) -> bool {
    prefix.len() <= hay.len() && hay.take(prefix.len() as int) == prefix
}

/// `hay` ends with `suffix` (`str::ends_with`).
pub open spec fn ends_with(hay: Seq<char>, suffix: Seq<char>) -> bool {
    suffix.len() <= hay.len() && hay.skip(hay.len() - suffix.len()) == suffix
}

/// Whether `needle` occurs in `hay` at index `i`.
pub fn matches_at(hay: &Vec<char>, needle: &Vec<char>, i: usize) -> (r: bool)
    ensures
        r == occurs_at(hay@, needle@, i as int),
{
    if i > hay.len() || needle.len() > hay.len() - i {
        return false;
    }
    let n = needle.len();
    let mut k: usize = 0;
    while k < n
        invariant
            n == needle@.len(),
            hay@.len() == hay.len(),
            i + n <= hay@.len(),
            k <= n,
            forall|j: int| 0 <= j < k ==> hay@[i + j] == needle@[j],
        decreases n - k,
    {
        if hay[i + k] != needle[k] {
            assert(hay@.subrange(i as int, i + n)[k as int] != needle@[k as int]);
            return false;
        }
        k = k + 1;
    }
    assert(hay@.subrange(i as int, i + n) =~= needle@);
    true
}

/// Whether `needle` occurs somewhere in `hay`.
pub fn contains_chars(hay: &Vec<char>, needle: &Vec<char>) -> (r: bool)
    ensures
        r == contains(hay@, needle@),
{
    let mut i: usize = 0;
    loop
        invariant
            i <= hay@.len(),
            forall|j: int| 0 <= j < i ==> !occurs_at(hay@, needle@, j),
        decreases hay@.len() - i,
    {
        if matches_at(hay, needle, i) {
            return true;
        }
        if i == hay.len() {
            assert forall|j: int| !occurs_at(hay@, needle@, j) by {
                if 0 <= j && j + needle@.len() <= hay@.len() && j != i {
                    assert(j < i);
                }
            }
            return false;
        }
        i = i + 1;
    }
}

/// Whether `hay` begins with `prefix`.
pub fn starts_with_chars(hay: &Vec<char>, prefix: &Vec<char>) -> (r: bool)
    ensures
        r == starts_with(hay@, prefix@),
{
    let r = matches_at(hay, prefix, 0);
    assert(hay@.take(prefix@.len() as int) =~= hay@.subrange(0, prefix@.len() as int));
    r
}

/// Whether `hay` ends with `suffix`.
pub fn ends_with_chars(hay: &Vec<char>, suffix: &Vec<char>) -> (r: bool)
    ensures
        r == ends_with(hay@, suffix@),
{
    if suffix.len() > hay.len() {
        return false;
    }
    let r = matches_at(hay, suffix, hay.len() - suffix.len());
    assert(hay@.skip(hay@.len() - suffix@.len()) =~= hay@.subrange(
        hay@.len() - suffix@.len(),
        hay@.len() as int,
    ));
    r
}

/// Whether two strings hold the same characters.
pub fn str_eq(a: &str, b: &str) -> (r: bool)
    ensures
        r == (a@ == b@),
{
    let x = chars_of(a);
    let y = chars_of(b);
    if x.len() != y.len() {
        return false;
    }
    let mut i: usize = 0;
    while i < x.len()
        invariant
            x@ == a@,
            y@ == b@,
            x@.len() == y@.len(),
            i <= x@.len(),
            forall|k: int| 0 <= k < i ==> x@[k] == y@[k],
        decreases x@.len() - i,
    {
        if x[i] != y[i] {
            return false;
        }
        i = i + 1;
    }
    assert(x@ =~= y@);
    true
}

/// `str::contains` over two strings.
pub fn str_contains(hay: &str, needle: &str) -> (r: bool)
    ensures
        r == contains(hay@, needle@),
{
    let h = chars_of(hay);
    let n = chars_of(needle);
    contains_chars(&h, &n)
}

/// The decimal value of an ASCII digit.
pub open spec fn digit_value(c: char) -> nat {
    (c as int - '0' as int) as nat
}

/// The ASCII digit for `d < 10`.
pub open spec fn digit_char(d: nat) -> char {
    (d + '0' as nat) as char
}

/// Decimal rendering of `n` without sign or leading zeros (`u64::to_string`).
pub open spec fn decimal(n: nat) -> Seq<char>
    decreases n,
{
    if n < 10 {
        seq![digit_char(n)]
    } else {
        decimal(n / 10).push(digit_char(n % 10))
    }
}

/// `10` to the power `d`.
pub open spec fn ten_pow(d: nat) -> nat
    decreases d,
{
    if d == 0 {
        1
    } else {
        10 * ten_pow((d - 1) as nat)
    }
}

/// A number below `10^d` has at most `d` digits.
pub proof fn lemma_decimal_len(n: nat, d: nat)
    requires
        d >= 1,
        n < ten_pow(d),
    ensures
        decimal(n).len() <= d,
    decreases n,
{
    if n >= 10 {
        if d == 1 {
            assert(ten_pow(1) == 10 * ten_pow(0));
        }
        let t = ten_pow((d - 1) as nat);
        assert(n / 10 < t) by (nonlinear_arith)
            requires
                n < 10 * t,
        ;
        lemma_decimal_len(n / 10, (d - 1) as nat);
    }
}

/// Appends the decimal rendering of `n` to `s`.
pub fn push_decimal(s: &mut String, n: u64)
    ensures
        final(s)@ == old(s)@ + decimal(n as nat),
    decreases n,
{
    if n >= 10 {
        push_decimal(s, n / 10);
    }
    let d: u64 = n % 10;
    let c: char = if d == 0 {
        '0'
    } else if d == 1 {
        '1'
    } else if d == 2 {
        '2'
    } else if d == 3 {
        '3'
    } else if d == 4 {
        '4'
    } else if d == 5 {
        '5'
    } else if d == 6 {
        '6'
    } else if d == 7 {
        '7'
    } else if d == 8 {
        '8'
    } else {
        '9'
    };
    assert(c == digit_char(d as nat));
    push_char(s, c);
}

/// Appends all of `t` to `s`.
pub fn push_str(s: &mut String, t: &str)
    ensures
        final(s)@ == old(s)@ + t@,
{
    s.append(t);
}


/// `n` spaces.
pub open spec fn spaces(n: nat) -> Seq<char> {
    Seq::new(n, |i: int| ' ')
}

/// `s` padded on the right with spaces to at least `w` characters (`{:<w}`).
pub open spec fn padded(s: Seq<char>, w: nat) -> Seq<char> {
    if s.len() >= w {
        s
    } else {
        s + spaces((w - s.len()) as nat)
    }
}

/// Appends `t` padded on the right to at least `w` characters.
pub fn push_padded(s: &mut String, t: &str, w: usize)
    ensures
        final(s)@ == old(s)@ + padded(t@, w as nat),
{
    push_str(s, t);
    let n = t.unicode_len();
    if n < w {
        let ghost base = s@;
        let mut k: usize = n;
        while k < w
            invariant
                n <= k <= w,
                n == t@.len(),
                s@ == base + spaces((k - n) as nat),
            decreases w - k,
        {
            push_char(s, ' ');
            k = k + 1;
            assert(s@ =~= base + spaces((k - n) as nat));
        }
        assert(old(s)@ + t@ + spaces((w - n) as nat) =~= old(s)@ + padded(t@, w as nat));
    } else {
        assert(old(s)@ + t@ =~= old(s)@ + padded(t@, w as nat));
    }
}

/// The decimal rendering of `n` padded on the right to at least `w` characters.
pub fn push_padded_decimal(s: &mut String, n: u64, w: usize)
    ensures
        final(s)@ == old(s)@ + padded(decimal(n as nat), w as nat),
{
    let mut d = String::new();
    push_decimal(&mut d, n);
    assert(d@ =~= decimal(n as nat));
    push_padded(s, d.as_str(), w);
}

/// The character views of a sequence of strings.
pub open spec fn views(v: Seq<String>) -> Seq<Seq<char>> {
    v.map_values(|x: String| x@)
}

/// The pieces of `s` between separator characters, empty pieces included
/// (`str::split` with a character predicate).
pub open spec fn split_on(s: Seq<char>, sep: spec_fn(char) -> bool) -> Seq<Seq<char>>
    decreases s.len(),
{
    if s.len() == 0 {
        seq![Seq::<char>::empty()]
    } else {
        let p = split_on(s.drop_last(), sep);
        if sep(s.last()) {
            p.push(Seq::<char>::empty())
        } else {
            p.update(p.len() - 1, p.last().push(s.last()))
        }
    }
}

/// The pieces of `s` that are not empty, in order.
pub open spec fn non_empty(ps: Seq<Seq<char>>) -> Seq<Seq<char>>
    decreases ps.len(),
{
    if ps.len() == 0 {
        Seq::empty()
    } else if ps.last().len() == 0 {
        non_empty(ps.drop_last())
    } else {
        non_empty(ps.drop_last()).push(ps.last())
    }
}

/// The words of `s` (`str::split_whitespace`).
pub open spec fn words(s: Seq<char>) -> Seq<Seq<char>> {
    non_empty(split_on(s, |c: char| is_ws(c)))
}

/// The separators the library splits on.
pub enum Separator {
    /// One given character.
    Char(char),
    /// Any whitespace character.
    Whitespace,
    /// A comma or any whitespace character.
    CommaOrWhitespace,
}

/// The character predicate of a separator.
pub open spec fn sep_pred(sep: Separator) -> spec_fn(char) -> bool {
    match sep {
        Separator::Char(d) => |c: char| c == d,
        Separator::Whitespace => |c: char| is_ws(c),
        Separator::CommaOrWhitespace => |c: char| c == ',' || is_ws(c),
    }
}

/// Whether `c` separates pieces under `sep`.
pub fn is_separator(sep: &Separator, c: char) -> (r: bool)
    ensures
        r == sep_pred(*sep)(c),
{
    match sep {
        Separator::Char(d) => c == *d,
        Separator::Whitespace => is_whitespace(c),
        Separator::CommaOrWhitespace => c == ',' || is_whitespace(c),
    }
}

pub proof fn lemma_split_on_nonempty(s: Seq<char>, sep: spec_fn(char) -> bool)
    ensures
        split_on(s, sep).len() >= 1,
    decreases s.len(),
{
    if s.len() > 0 {
        lemma_split_on_nonempty(s.drop_last(), sep);
    }
}

proof fn lemma_split_has_two(s: Seq<char>, sep: spec_fn(char) -> bool, k: int)
    requires
        0 <= k < s.len(),
        sep(s[k]),
    ensures
        split_on(s, sep).len() >= 2,
    decreases s.len(),
{
    lemma_split_on_nonempty(s.drop_last(), sep);
    if k < s.len() - 1 {
        lemma_split_has_two(s.drop_last(), sep, k);
    }
}

proof fn lemma_split_no_sep(s: Seq<char>, sep: spec_fn(char) -> bool)
    requires
        forall|k: int| 0 <= k < s.len() ==> !sep(#[trigger] s[k]),
    ensures
        split_on(s, sep) == seq![s],
    decreases s.len(),
{
    if s.len() > 0 {
        lemma_split_no_sep(s.drop_last(), sep);
        assert(s.drop_last().push(s.last()) =~= s);
    } else {
        assert(s =~= Seq::<char>::empty());
    }
}

/// Splitting a text at a separator character splits the two sides apart.
proof fn lemma_split_at_sep(a: Seq<char>, x: char, b: Seq<char>, sep: spec_fn(char) -> bool)
    requires
        sep(x),
    ensures
        split_on(a.push(x) + b, sep) == split_on(a, sep) + split_on(b, sep),
    decreases b.len(),
{
    let s = a.push(x) + b;
    if b.len() == 0 {
        assert(s =~= a.push(x));
        assert(a.push(x).drop_last() =~= a);
        assert(split_on(a.push(x), sep) == split_on(a, sep).push(Seq::<char>::empty()));
        assert(split_on(b, sep) == seq![Seq::<char>::empty()]);
        assert(split_on(a, sep).push(Seq::<char>::empty()) =~= split_on(a, sep) + seq![Seq::<char>::empty()]);
    } else {
        let bd = b.drop_last();
        lemma_split_at_sep(a, x, bd, sep);
        assert(s.drop_last() =~= a.push(x) + bd);
        assert(s.last() == b.last());
        let pa = split_on(a, sep);
        let pb = split_on(bd, sep);
        lemma_split_on_nonempty(bd, sep);
        let p = split_on(s.drop_last(), sep);
        assert(p == pa + pb);
        if sep(b.last()) {
            assert(split_on(s, sep) == p.push(Seq::<char>::empty()));
            assert(split_on(b, sep) == pb.push(Seq::<char>::empty()));
            assert((pa + pb).push(Seq::<char>::empty()) =~= pa + pb.push(Seq::<char>::empty()));
        } else {
            assert(split_on(s, sep) == p.update(p.len() - 1, p.last().push(s.last())));
            assert(split_on(b, sep) == pb.update(pb.len() - 1, pb.last().push(b.last())));
            assert(p.last() == pb.last());
            assert((pa + pb).update(p.len() - 1, pb.last().push(b.last())) =~= pa + pb.update(
                pb.len() - 1,
                pb.last().push(b.last()),
            ));
        }
    }
}

/// No piece of a split holds a separator character.
pub proof fn lemma_split_pieces_clean(s: Seq<char>, sep: spec_fn(char) -> bool)
    ensures
        forall|i: int, k: int|
            0 <= i < split_on(s, sep).len() && 0 <= k < split_on(s, sep)[i].len() ==> !sep(
                #[trigger] split_on(s, sep)[i][k],
            ),
    decreases s.len(),
{
    if s.len() > 0 {
        lemma_split_pieces_clean(s.drop_last(), sep);
        lemma_split_on_nonempty(s.drop_last(), sep);
        let p = split_on(s.drop_last(), sep);
        let q = split_on(s, sep);
        assert forall|i: int, k: int| 0 <= i < q.len() && 0 <= k < q[i].len() implies !sep(
            #[trigger] q[i][k],
        ) by {
            if sep(s.last()) {
                if i < p.len() {
                    assert(q[i] == p[i]);
                }
            } else {
                if i < p.len() - 1 {
                    assert(q[i] == p[i]);
                } else {
                    assert(q[i] == p.last().push(s.last()));
                    if k < p.last().len() {
                        assert(q[i][k] == p[p.len() - 1][k]);
                    }
                }
            }
        }
    }
}

/// The pieces `non_empty` keeps are non-empty pieces of what it is given.
pub proof fn lemma_non_empty_pieces(ps: Seq<Seq<char>>)
    ensures
        forall|i: int|
            0 <= i < non_empty(ps).len() ==> #[trigger] non_empty(ps)[i].len() > 0 && exists|j: int|
                0 <= j < ps.len() && ps[j] == non_empty(ps)[i],
    decreases ps.len(),
{
    if ps.len() > 0 {
        lemma_non_empty_pieces(ps.drop_last());
        let d = ps.drop_last();
        let q = non_empty(ps);
        assert forall|i: int| 0 <= i < q.len() implies #[trigger] q[i].len() > 0 && exists|j: int|
            0 <= j < ps.len() && ps[j] == q[i] by {
            if ps.last().len() == 0 || i < non_empty(d).len() {
                let j = choose|j: int| 0 <= j < d.len() && d[j] == non_empty(d)[i];
                assert(ps[j] == q[i]);
            } else {
                assert(ps[ps.len() - 1] == q[i]);
            }
        }
    }
}

/// Pieces that are all non-empty are all kept.
proof fn lemma_non_empty_keeps(ps: Seq<Seq<char>>)
    requires
        forall|i: int| 0 <= i < ps.len() ==> #[trigger] ps[i].len() > 0,
    ensures
        non_empty(ps) == ps,
    decreases ps.len(),
{
    if ps.len() > 0 {
        lemma_non_empty_keeps(ps.drop_last());
        assert(ps.drop_last().push(ps.last()) =~= ps);
    } else {
        assert(ps =~= Seq::<Seq<char>>::empty());
    }
}

/// Non-empty pieces free of whitespace, joined with single spaces, split back
/// into the same words.
pub proof fn lemma_words_of_join(w: Seq<Seq<char>>)
    requires
        w.len() > 0,
        forall|i: int| 0 <= i < w.len() ==> #[trigger] w[i].len() > 0,
        forall|i: int, k: int| 0 <= i < w.len() && 0 <= k < w[i].len() ==> !is_ws(#[trigger] w[i][k]),
    ensures
        words(join(w, " "@)) == w,
{
    lemma_split_of_join(w);
    lemma_non_empty_keeps(w);
}

proof fn lemma_split_of_join(w: Seq<Seq<char>>)
    requires
        w.len() > 0,
        forall|i: int, k: int| 0 <= i < w.len() && 0 <= k < w[i].len() ==> !is_ws(#[trigger] w[i][k]),
    ensures
        split_on(join(w, " "@), |c: char| is_ws(c)) == w,
    decreases w.len(),
{
    let sep = |c: char| is_ws(c);
    if w.len() == 1 {
        assert forall|k: int| 0 <= k < w[0].len() implies !sep(#[trigger] w[0][k]) by {
            assert(!is_ws(w[0][k]));
        }
        lemma_split_no_sep(w[0], sep);
        assert(seq![w[0]] =~= w);
    } else {
        let d = w.drop_last();
        assert forall|i: int, k: int| 0 <= i < d.len() && 0 <= k < d[i].len() implies !is_ws(
            #[trigger] d[i][k],
        ) by {
            assert(d[i] == w[i]);
        }
        lemma_split_of_join(d);
        let last = w.last();
        assert forall|k: int| 0 <= k < last.len() implies !sep(#[trigger] last[k]) by {
            assert(last == w[w.len() - 1]);
            assert(!is_ws(w[w.len() - 1][k]));
        }
        lemma_split_no_sep(last, sep);
        reveal_strlit(" ");
        assert(join(d, " "@) + " "@ + last =~= join(d, " "@).push(' ') + last);
        lemma_split_at_sep(join(d, " "@), ' ', last, sep);
        assert(d + seq![last] =~= w);
    }
}

/// The first piece of a split is the text before the first separator.
pub proof fn lemma_split_first(s: Seq<char>, sep: spec_fn(char) -> bool, i: int)
    requires
        0 <= i <= s.len(),
        i < s.len() ==> sep(s[i]),
        forall|k: int| 0 <= k < i ==> !sep(#[trigger] s[k]),
    ensures
        split_on(s, sep).len() >= 1,
        split_on(s, sep)[0] == s.take(i),
    decreases s.len(),
{
    lemma_split_on_nonempty(s, sep);
    if s.len() == 0 {
        assert(s.take(i) =~= Seq::<char>::empty());
    } else if i < s.len() - 1 {
        let d = s.drop_last();
        lemma_split_first(d, sep, i);
        lemma_split_has_two(d, sep, i);
        assert(d.take(i) =~= s.take(i));
    } else if i == s.len() - 1 {
        let d = s.drop_last();
        assert forall|k: int| 0 <= k < d.len() implies !sep(#[trigger] d[k]) by {
            assert(d[k] == s[k]);
        }
        lemma_split_no_sep(d, sep);
        assert(d =~= s.take(i));
    } else {
        lemma_split_no_sep(s, sep);
        assert(s.take(i) =~= s);
    }
}

/// The pieces of `v` between separators, empty pieces included.
pub fn split_chars(v: &Vec<char>, sep: &Separator) -> (r: Vec<String>)
    ensures
        views(r@) == split_on(v@, sep_pred(*sep)),
{
    let ghost p = sep_pred(*sep);
    let mut done: Vec<String> = Vec::new();
    let mut cur = String::new();
    let mut i: usize = 0;
    assert(v@.take(0) =~= Seq::<char>::empty());
    while i < v.len()
        invariant
            i <= v@.len(),
            p == sep_pred(*sep),
            split_on(v@.take(i as int), p).len() == done@.len() + 1,
            forall|k: int| 0 <= k < done@.len() ==> #[trigger] done@[k]@ == split_on(v@.take(i as int), p)[k],
            cur@ == split_on(v@.take(i as int), p).last(),
        decreases v@.len() - i,
    {
        let c = v[i];
        let ghost before = split_on(v@.take(i as int), p);
        assert(v@.take(i + 1).drop_last() =~= v@.take(i as int));
        assert(v@.take(i + 1).last() == c);
        if is_separator(sep, c) {
            let finished = cur;
            done.push(finished);
            cur = String::new();
        } else {
            push_char(&mut cur, c);
        }
        i = i + 1;
        proof {
            let after = split_on(v@.take(i as int), p);
            assert(after.len() == done@.len() + 1);
            assert forall|k: int| 0 <= k < done@.len() implies #[trigger] done@[k]@ == after[k] by {
                if k < before.len() - 1 {
                    assert(done@[k]@ == before[k]);
                }
            }
        }
    }
    assert(v@.take(v@.len() as int) =~= v@);
    done.push(cur);
    assert(views(done@) =~= split_on(v@, p));
    done
}

/// The non-empty strings of `v`, in order.
pub fn keep_non_empty(v: Vec<String>) -> (r: Vec<String>)
    ensures
        views(r@) == non_empty(views(v@)),
{
    let mut out: Vec<String> = Vec::new();
    let mut i: usize = 0;
    let n = v.len();
    while i < n
        invariant
            n == v@.len(),
            i <= n,
            views(out@) == non_empty(views(v@).take(i as int)),
        decreases n - i,
    {
        let ghost vs = views(v@);
        assert(vs.take(i + 1).drop_last() =~= vs.take(i as int));
        assert(vs.take(i + 1).last() == v@[i as int]@);
        let piece = &v[i];
        if piece.unicode_len() > 0 {
            out.push(piece.clone());
            assert(views(out@) =~= views(out@).drop_last().push(v@[i as int]@));
        }
        i = i + 1;
    }
    assert(views(v@).take(n as int) =~= views(v@));
    out
}

/// The texts of `ps`, each trimmed.
pub open spec fn trimmed(ps: Seq<Seq<char>>) -> Seq<Seq<char>> {
    ps.map_values(|p: Seq<char>| trim(p))
}

/// The strings of `v`, each trimmed, the empty ones dropped.
pub fn keep_trimmed(v: Vec<String>) -> (r: Vec<String>)
    ensures
        views(r@) == non_empty(trimmed(views(v@))),
{
    let mut out: Vec<String> = Vec::new();
    let mut i: usize = 0;
    let n = v.len();
    while i < n
        invariant
            n == v@.len(),
            i <= n,
            views(out@) == non_empty(trimmed(views(v@)).take(i as int)),
        decreases n - i,
    {
        let ghost ts = trimmed(views(v@));
        assert(ts.take(i + 1).drop_last() =~= ts.take(i as int));
        assert(ts.take(i + 1).last() == trim(v@[i as int]@));
        let t = trim_str(v[i].as_str());
        if t.unicode_len() > 0 {
            out.push(t);
            assert(views(out@) =~= views(out@).drop_last().push(trim(v@[i as int]@)));
        }
        i = i + 1;
    }
    assert(trimmed(views(v@)).take(n as int) =~= trimmed(views(v@)));
    out
}

/// The pieces of `s` between separators, empty pieces dropped.
pub fn split_non_empty(s: &str, sep: &Separator) -> (r: Vec<String>)
    ensures
        views(r@) == non_empty(split_on(s@, sep_pred(*sep))),
{
    let v = chars_of(s);
    let pieces = split_chars(&v, sep);
    keep_non_empty(pieces)
}

/// `parts` joined with `sep` between consecutive parts (`[T]::join`).
pub open spec fn join(parts: Seq<Seq<char>>, sep: Seq<char>) -> Seq<char>
    decreases parts.len(),
{
    if parts.len() == 0 {
        Seq::empty()
    } else if parts.len() == 1 {
        parts[0]
    } else {
        join(parts.drop_last(), sep) + sep + parts.last()
    }
}

/// `parts` joined with `sep`.
pub fn join_strings(parts: &Vec<String>, sep: &str) -> (r: String)
    ensures
        r@ == join(views(parts@), sep@),
{
    let mut out = String::new();
    let n = parts.len();
    let mut i: usize = 0;
    while i < n
        invariant
            n == parts@.len(),
            i <= n,
            out@ == join(views(parts@).take(i as int), sep@),
        decreases n - i,
    {
        let ghost vs = views(parts@);
        assert(vs.take(i + 1).drop_last() =~= vs.take(i as int));
        if i > 0 {
            push_str(&mut out, sep);
        }
        push_str(&mut out, parts[i].as_str());
        i = i + 1;
        assert(vs.take(i as int).last() == parts@[i - 1]@);
        if i == 1 {
            assert(out@ =~= vs.take(1)[0]);
        } else {
            assert(out@ =~= join(vs.take(i as int), sep@));
        }
    }
    assert(views(parts@).take(n as int) =~= views(parts@));
    out
}


/// Whether `c` is an ASCII decimal digit.
pub open spec fn is_digit(c: char) -> bool {
    '0' <= c && c <= '9'
}

/// The value of a run of decimal digits (most significant first).
pub open spec fn digits_value(s: Seq<char>) -> nat
    decreases s.len(),
{
    if s.len() == 0 {
        0
    } else {
        digits_value(s.drop_last()) * 10 + digit_value(s.last())
    }
}

/// The digits part of an unsigned number: `s` without one leading `+`.
pub open spec fn unsigned_body(s: Seq<char>) -> Seq<char> {
    if s.len() > 0 && s[0] == '+' {
        s.drop_first()
    } else {
        s
    }
}

/// Every character of `s` is an ASCII digit.
pub open spec fn all_digits(s: Seq<char>) -> bool {
    forall|i: int| 0 <= i < s.len() ==> is_digit(#[trigger] s[i])
}

/// What `u64::from_str` accepts: an optional `+`, then one or more ASCII
/// digits whose value fits in a `u64`.
pub open spec fn parse_u64(s: Seq<char>) -> Option<u64> {
    let body = unsigned_body(s);
    if body.len() > 0 && all_digits(body) && digits_value(body) <= u64::MAX {
        Some(digits_value(body) as u64)
    } else {
        None
    }
}

proof fn lemma_digits_value_grows(s: Seq<char>, i: int)
    requires
        0 <= i <= s.len(),
    ensures
        digits_value(s.take(i)) <= digits_value(s),
    decreases s.len() - i,
{
    if i < s.len() {
        lemma_digits_value_grows(s, i + 1);
        assert(s.take(i + 1).drop_last() =~= s.take(i));
    } else {
        assert(s.take(i) =~= s);
    }
}

/// Parses `s` as `u64::from_str` does.
pub fn parse_u64_chars(s: &Vec<char>) -> (r: Option<u64>)
    ensures
        r == parse_u64(s@),
{
    let start: usize = if s.len() > 0 && s[0] == '+' {
        1
    } else {
        0
    };
    let ghost body = unsigned_body(s@);
    assert(body =~= s@.skip(start as int));
    if start >= s.len() {
        return None;
    }
    let mut value: u64 = 0;
    let mut i: usize = start;
    while i < s.len()
        invariant
            start <= i <= s@.len(),
            body == s@.skip(start as int),
            body == unsigned_body(s@),
            forall|k: int| 0 <= k < i - start ==> is_digit(#[trigger] body[k]),
            value == digits_value(body.take(i - start)),
        decreases s@.len() - i,
    {
        let c = s[i];
        assert(body[i - start] == c);
        assert(body.take(i - start + 1).drop_last() =~= body.take(i - start));
        assert(body.take(i - start + 1).last() == c);
        if !('0' <= c && c <= '9') {
            assert(!is_digit(body[i - start]));
            assert(!all_digits(body));
            return None;
        }
        let d: u64 = if c == '0' {
            0
        } else if c == '1' {
            1
        } else if c == '2' {
            2
        } else if c == '3' {
            3
        } else if c == '4' {
            4
        } else if c == '5' {
            5
        } else if c == '6' {
            6
        } else if c == '7' {
            7
        } else if c == '8' {
            8
        } else {
            9
        };
        assert(d == digit_value(c));
        if value > (u64::MAX - d) / 10 {
            proof {
                assert(value * 10 + d > u64::MAX) by (nonlinear_arith)
                    requires
                        value > (u64::MAX - d) / 10,
                        d <= 9,
                ;
                lemma_digits_value_grows(body, i - start + 1);
                assert(digits_value(body.take(i - start + 1)) == value * 10 + d);
            }
            return None;
        }
        assert(value * 10 + d <= u64::MAX) by (nonlinear_arith)
            requires
                value <= (u64::MAX - d) / 10,
                d <= 9,
        ;
        value = value * 10 + d;
        i = i + 1;
    }
    assert(body.take(i - start) =~= body);
    Some(value)
}

/// What `u32::from_str` accepts: an optional `+`, then one or more ASCII
/// digits whose value fits in a `u32`.
pub open spec fn parse_u32(s: Seq<char>) -> Option<u32> {
    let body = unsigned_body(s);
    if body.len() > 0 && all_digits(body) && digits_value(body) <= u32::MAX {
        Some(digits_value(body) as u32)
    } else {
        None
    }
}

/// Parses `s` as `u32::from_str` does.
pub fn parse_u32_str(s: &str) -> (r: Option<u32>)
    ensures
        r == parse_u32(s@),
{
    let v = chars_of(s);
    match parse_u64_chars(&v) {
        Some(n) => {
            if n <= 0xffff_ffff {
                Some(n as u32)
            } else {
                None
            }
        },
        None => None,
    }
}

/// What `i64::from_str` accepts: an optional sign, then one or more ASCII
/// digits whose value fits in an `i64`.
pub open spec fn parse_i64(s: Seq<char>) -> Option<i64> {
    if s.len() > 0 && s[0] == '-' {
        let body = s.drop_first();
        if body.len() > 0 && all_digits(body) && digits_value(body) <= 0x8000_0000_0000_0000 {
            Some((0 - digits_value(body)) as i64)
        } else {
            None
        }
    } else {
        let body = unsigned_body(s);
        if body.len() > 0 && all_digits(body) && digits_value(body) <= i64::MAX {
            Some(digits_value(body) as i64)
        } else {
            None
        }
    }
}

/// Parses `s` as `i64::from_str` does.
pub fn parse_i64_chars(s: &Vec<char>) -> (r: Option<i64>)
    ensures
        r == parse_i64(s@),
{
    if s.len() > 0 && s[0] == '-' {
        let mut body: Vec<char> = Vec::new();
        let mut i: usize = 1;
        while i < s.len()
            invariant
                1 <= i <= s@.len(),
                body@ == s@.subrange(1, i as int),
            decreases s@.len() - i,
        {
            body.push(s[i]);
            i = i + 1;
            assert(body@ =~= s@.subrange(1, i as int));
        }
        assert(body@ =~= s@.drop_first());
        if body.len() > 0 && body[0] == '+' {
            assert(!all_digits(body@)) by {
                assert(!is_digit(body@[0]));
            }
            return None;
        }
        assert(unsigned_body(body@) == body@);
        match parse_u64_chars(&body) {
            Some(v) => {
                if v <= 0x8000_0000_0000_0000 {
                    if v == 0x8000_0000_0000_0000 {
                        Some(i64::MIN)
                    } else {
                        let w: i64 = v as i64;
                        Some(0 - w)
                    }
                } else {
                    None
                }
            },
            None => None,
        }
    } else {
        match parse_u64_chars(s) {
            Some(v) => {
                if v <= 0x7fff_ffff_ffff_ffff {
                    Some(v as i64)
                } else {
                    None
                }
            },
            None => None,
        }
    }
}

/// The ASCII lower-case form of `c` (`char::to_ascii_lowercase`).
pub open spec fn ascii_lower(c: char) -> char {
    if 'A' <= c && c <= 'Z' {
        ((c as int) + 32) as char
    } else {
        c
    }
}

/// `s` with ASCII letters lower-cased (`str::to_ascii_lowercase`).
pub open spec fn ascii_lowercase(s: Seq<char>) -> Seq<char> {
    s.map_values(|c: char| ascii_lower(c))
}

/// The ASCII lower-case form of `c`.
pub fn to_ascii_lower(c: char) -> (r: char)
    ensures
        r == ascii_lower(c),
{
    if 'A' <= c && c <= 'Z' {
        let code: u8 = (c as u8) + 32;
        code as char
    } else {
        c
    }
}

/// `str::to_ascii_lowercase`.
pub fn ascii_lowercase_str(s: &str) -> (r: String)
    ensures
        r@ == ascii_lowercase(s@),
{
    let v = chars_of(s);
    let mut out = String::new();
    let mut i: usize = 0;
    while i < v.len()
        invariant
            v@ == s@,
            i <= v@.len(),
            out@ == ascii_lowercase(s@).take(i as int),
        decreases v@.len() - i,
    {
        let l = to_ascii_lower(v[i]);
        push_char(&mut out, l);
        i = i + 1;
        assert(out@ =~= ascii_lowercase(s@).take(i as int));
    }
    assert(ascii_lowercase(s@).take(i as int) =~= ascii_lowercase(s@));
    out
}

/// The Unicode lower-case mapping of a text, as `str::to_lowercase` computes it.
pub uninterp spec fn lowercase(s: Seq<char>) -> Seq<char>;

/// `str::to_lowercase`: every character replaced by its Unicode lower-case
/// mapping. The mapping itself comes from std's tables and is not written out here:
/// the contract only names it.
#[verifier::external_body]
pub fn to_lowercase(s: &str) -> (r: String)
    ensures
        r@ == lowercase(s@),
{
    s.to_lowercase()
}


/// The Unicode upper-case mapping of a text, as `str::to_uppercase` computes it.
pub uninterp spec fn uppercase(s: Seq<char>) -> Seq<char>;

/// `str::to_uppercase`: every character replaced by its Unicode upper-case
/// mapping. The mapping comes from std's tables and is not written out here:
/// the contract only names it.
#[verifier::external_body]
pub fn to_uppercase(s: &str) -> (r: String)
    ensures
        r@ == uppercase(s@),
{
    s.to_uppercase()
}

/// `s` without any leading `c` characters (`str::trim_start_matches` with a `char`).
pub open spec fn strip_leading(s: Seq<char>, c: char) -> Seq<char>
    decreases s.len(),
{
    if s.len() > 0 && s[0] == c {
        strip_leading(s.drop_first(), c)
    } else {
        s
    }
}

/// `s` without the copies of `c` at its end.
pub open spec fn strip_trailing_of(s: Seq<char>, c: char) -> Seq<char>
    decreases s.len(),
{
    if s.len() > 0 && s.last() == c {
        strip_trailing_of(s.drop_last(), c)
    } else {
        s
    }
}

/// Index of the first character of `v` that is not `c` (or `v.len()`).
pub fn skip_leading(v: &Vec<char>, c: char) -> (i: usize)
    ensures
        i <= v@.len(),
        strip_leading(v@, c) == v@.skip(i as int),
{
    let mut i: usize = 0;
    assert(v@.skip(0) =~= v@);
    while i < v.len() && v[i] == c
        invariant
            i <= v@.len(),
            strip_leading(v@, c) == strip_leading(v@.skip(i as int), c),
        decreases v@.len() - i,
    {
        assert(v@.skip(i as int).drop_first() =~= v@.skip(i + 1));
        i = i + 1;
    }
    i
}


/// `a` comes strictly before `b` in the order of `str` (lexicographic by
/// character code; a proper prefix comes first).
pub open spec fn text_less(a: Seq<char>, b: Seq<char>) -> bool
    decreases a.len(),
{
    if a.len() == 0 {
        b.len() > 0
    } else if b.len() == 0 {
        false
    } else if a[0] < b[0] {
        true
    } else if a[0] > b[0] {
        false
    } else {
        text_less(a.drop_first(), b.drop_first())
    }
}

/// The order of texts is a strict total order.
pub proof fn lemma_text_less_order(a: Seq<char>, b: Seq<char>, c: Seq<char>)
    ensures
        !text_less(a, a),
        a != b ==> (text_less(a, b) || text_less(b, a)),
        !(text_less(a, b) && text_less(b, a)),
        text_less(a, b) && text_less(b, c) ==> text_less(a, c),
    decreases a.len(),
{
    if a.len() > 0 && b.len() > 0 && c.len() > 0 {
        lemma_text_less_order(a.drop_first(), b.drop_first(), c.drop_first());
        if a != b && a[0] == b[0] {
            assert(a =~= seq![a[0]] + a.drop_first());
            assert(b =~= seq![b[0]] + b.drop_first());
        }
    } else if a.len() > 0 && b.len() > 0 {
        lemma_text_less_order(a.drop_first(), b.drop_first(), a.drop_first());
        if a != b && a[0] == b[0] {
            assert(a =~= seq![a[0]] + a.drop_first());
            assert(b =~= seq![b[0]] + b.drop_first());
        }
    } else if a.len() > 0 {
        lemma_text_less_order(a.drop_first(), a.drop_first(), a.drop_first());
    }
    if a.len() == 0 && b.len() == 0 {
        assert(a =~= b);
    }
}

/// Whether `a` comes strictly before `b`.
pub fn less_chars(a: &Vec<char>, b: &Vec<char>) -> (r: bool)
    ensures
        r == text_less(a@, b@),
{
    let mut i: usize = 0;
    assert(a@.skip(0) =~= a@);
    assert(b@.skip(0) =~= b@);
    while i < a.len() && i < b.len()
        invariant
            i <= a@.len(),
            i <= b@.len(),
            text_less(a@, b@) == text_less(a@.skip(i as int), b@.skip(i as int)),
        decreases a@.len() - i,
    {
        assert(a@.skip(i as int)[0] == a@[i as int]);
        assert(b@.skip(i as int)[0] == b@[i as int]);
        if a[i] < b[i] {
            return true;
        }
        if a[i] > b[i] {
            return false;
        }
        assert(a@.skip(i as int).drop_first() =~= a@.skip(i + 1));
        assert(b@.skip(i as int).drop_first() =~= b@.skip(i + 1));
        i = i + 1;
    }
    i == a.len() && i < b.len()
}

/// The texts of `v` are in strictly increasing order.
pub open spec fn strictly_sorted(v: Seq<Seq<char>>) -> bool {
    forall|i: int, j: int| 0 <= i < j < v.len() ==> text_less(#[trigger] v[i], #[trigger] v[j])
}

/// The distinct texts of `v` in increasing order (`sort` then `dedup`).
pub fn sorted_unique(v: &Vec<String>) -> (r: Vec<String>)
    ensures
        strictly_sorted(views(r@)),
        forall|t: Seq<char>| views(r@).contains(t) <==> views(v@).contains(t),
{
    let mut out: Vec<String> = Vec::new();
    let ghost mut outv: Seq<Seq<char>> = Seq::empty();
    let n = v.len();
    let mut i: usize = 0;
    while i < n
        invariant
            n == v@.len(),
            i <= n,
            outv == views(out@),
            strictly_sorted(outv),
            forall|t: Seq<char>| outv.contains(t) <==> views(v@).take(i as int).contains(t),
        decreases n - i,
    {
        let s = chars_of(v[i].as_str());
        let ghost sv = s@;
        assert(views(v@)[i as int] == sv);
        let mut p: usize = 0;
        while p < out.len() && less_chars(&chars_of(out[p].as_str()), &s)
            invariant
                p <= out@.len(),
                outv == views(out@),
                s@ == sv,
                forall|q: int| 0 <= q < p ==> text_less(#[trigger] outv[q], sv),
            decreases out@.len() - p,
        {
            assert(outv[p as int] == out@[p as int]@);
            p = p + 1;
        }
        let present = p < out.len() && str_eq(out[p].as_str(), v[i].as_str());
        assert(views(v@).take(i + 1) =~= views(v@).take(i as int).push(sv));
        if !present {
            let ghost old_outv = outv;
            out.insert(p, v[i].clone());
            proof {
                outv = views(out@);
                assert(outv =~= old_outv.insert(p as int, sv));
                if p < old_outv.len() {
                    assert(!text_less(old_outv[p as int], sv));
                    lemma_text_less_order(sv, old_outv[p as int], sv);
                }
                assert forall|a: int, b: int| 0 <= a < b < outv.len() implies text_less(
                    #[trigger] outv[a],
                    #[trigger] outv[b],
                ) by {
                    if b < p {
                    } else if b == p {
                    } else if a == p {
                        if b - 1 > p {
                            lemma_text_less_order(sv, old_outv[p as int], old_outv[b - 1]);
                        }
                    } else if a < p {
                        lemma_text_less_order(old_outv[a], sv, old_outv[b - 1]);
                    }
                }
                assert forall|t: Seq<char>| outv.contains(t) <==> views(v@).take(i + 1).contains(
                    t,
                ) by {
                    if outv.contains(t) {
                        let taken1 = views(v@).take(i + 1);
                        let taken0 = views(v@).take(i as int);
                        let w = choose|w: int| 0 <= w < outv.len() && outv[w] == t;
                        if w == p {
                            assert(taken1[i as int] == t);
                        } else {
                            if w < p {
                                assert(old_outv[w] == t);
                            } else {
                                assert(old_outv[w - 1] == t);
                            }
                            assert(old_outv.contains(t));
                            let u = choose|u: int| 0 <= u < taken0.len() && taken0[u] == t;
                            assert(taken1[u] == t);
                        }
                    }
                    if views(v@).take(i + 1).contains(t) {
                        let taken = views(v@).take(i + 1);
                        let w = choose|w: int| 0 <= w < taken.len() && taken[w] == t;
                        if w < i {
                            assert(views(v@).take(i as int)[w] == t);
                            assert(old_outv.contains(t));
                            let u = choose|u: int| 0 <= u < old_outv.len() && old_outv[u] == t;
                            if u < p {
                                assert(outv[u] == t);
                            } else {
                                assert(outv[u + 1] == t);
                            }
                        } else {
                            assert(outv[p as int] == t);
                        }
                    }
                }
            }
        } else {
            proof {
                assert(outv[p as int] == sv);
                assert forall|t: Seq<char>| outv.contains(t) <==> views(v@).take(i + 1).contains(
                    t,
                ) by {
                    if views(v@).take(i + 1).contains(t) {
                        let taken = views(v@).take(i + 1);
                        let w = choose|w: int| 0 <= w < taken.len() && taken[w] == t;
                        if w < i {
                            assert(views(v@).take(i as int)[w] == t);
                        }
                    }
                    if outv.contains(t) {
                        assert(views(v@).take(i as int).contains(t));
                        let taken = views(v@).take(i as int);
                        let w = choose|w: int| 0 <= w < taken.len() && taken[w] == t;
                        assert(views(v@).take(i + 1)[w] == t);
                    }
                }
            }
        }
        i = i + 1;
    }
    assert(views(v@).take(n as int) =~= views(v@));
    out
}


/// `s` with every leading occurrence of the non-empty `p` removed
/// (`str::trim_start_matches` with a string pattern).
pub open spec fn strip_prefixes(s: Seq<char>, p: Seq<char>) -> Seq<char>
    decreases s.len(),
{
    if p.len() > 0 && starts_with(s, p) {
        strip_prefixes(s.skip(p.len() as int), p)
    } else {
        s
    }
}

/// Index past all leading occurrences of `p` in `v[from..]`.
pub fn skip_prefixes(v: &Vec<char>, from: usize, p: &Vec<char>) -> (i: usize)
    requires
        from <= v@.len(),
        p@.len() > 0,
    ensures
        from <= i <= v@.len(),
        strip_prefixes(v@.skip(from as int), p@) == v@.skip(i as int),
{
    let mut i = from;
    let n = v.len();
    let m = p.len();
    loop
        invariant
            from <= i <= v@.len(),
            n == v@.len(),
            m == p@.len(),
            p@.len() > 0,
            strip_prefixes(v@.skip(from as int), p@) == strip_prefixes(v@.skip(i as int), p@),
        decreases v@.len() - i,
    {
        if !matches_at(v, p, i) {
            assert(!starts_with(v@.skip(i as int), p@)) by {
                if starts_with(v@.skip(i as int), p@) {
                    assert(v@.skip(i as int).take(p@.len() as int) =~= v@.subrange(
                        i as int,
                        i + p@.len(),
                    ));
                }
            }
            return i;
        }
        assert(i + p@.len() <= v@.len());
        assert(v@.skip(i as int).take(p@.len() as int) =~= v@.subrange(i as int, i + p@.len()));
        assert(v@.skip(i as int).skip(p@.len() as int) =~= v@.skip(i + p@.len()));
        i = i + m;
    }
}


/// The number of bytes of `c` in UTF-8.
pub open spec fn char_bytes(c: char) -> nat {
    if (c as u32) < 0x80 {
        1
    } else if (c as u32) < 0x800 {
        2
    } else if (c as u32) < 0x10000 {
        3
    } else {
        4
    }
}

/// The number of bytes of `s` in UTF-8 (`str::len`).
pub open spec fn byte_len(s: Seq<char>) -> nat
    decreases s.len(),
{
    if s.len() == 0 {
        0
    } else {
        byte_len(s.drop_last()) + char_bytes(s.last())
    }
}

/// Byte offset `b` of `s` falls between two characters (`str::is_char_boundary`).
pub open spec fn is_boundary(s: Seq<char>, b: int) -> bool {
    exists|k: int| 0 <= k <= s.len() && byte_len(#[trigger] s.take(k)) == b
}

/// The first `n` bytes of `s`, when a character boundary lies there.
pub open spec fn bytes_prefix(s: Seq<char>, n: int) -> Seq<char> {
    s.take(choose|k: int| 0 <= k <= s.len() && byte_len(#[trigger] s.take(k)) == n)
}

/// A prefix of `n` bytes is `bytes_prefix(s, n)`.
pub proof fn lemma_bytes_prefix(s: Seq<char>, n: int, k: int)
    requires
        0 <= k <= s.len(),
        byte_len(s.take(k)) == n,
    ensures
        bytes_prefix(s, n) == s.take(k),
{
    let c = choose|c: int| 0 <= c <= s.len() && byte_len(#[trigger] s.take(c)) == n;
    if c < k {
        lemma_byte_len_grows(s, c, k);
    } else if k < c {
        lemma_byte_len_grows(s, k, c);
    }
}

/// Longer prefixes have more bytes.
pub proof fn lemma_byte_len_grows(s: Seq<char>, i: int, j: int)
    requires
        0 <= i < j <= s.len(),
    ensures
        byte_len(s.take(i)) < byte_len(s.take(j)),
    decreases j - i,
{
    assert(s.take(j).drop_last() =~= s.take(j - 1));
    if i < j - 1 {
        lemma_byte_len_grows(s, i, j - 1);
    }
}

/// The number of bytes of `c` in UTF-8.
pub fn utf8_width(c: char) -> (r: usize)
    ensures
        r == char_bytes(c),
{
    let code = c as u32;
    if code < 0x80 {
        1
    } else if code < 0x800 {
        2
    } else if code < 0x10000 {
        3
    } else {
        4
    }
}

/// The longest prefix of `v` (in characters) whose UTF-8 form has at most
/// `limit` bytes: its length in characters and in bytes.
pub fn prefix_within(v: &Vec<char>, limit: usize) -> (r: (usize, usize))
    ensures
        r.0 <= v@.len(),
        r.1 == byte_len(v@.take(r.0 as int)),
        r.1 <= limit,
        r.0 < v@.len() ==> byte_len(v@.take(r.0 + 1)) > limit,
{
    let mut k: usize = 0;
    let mut used: usize = 0;
    assert(v@.take(0) =~= Seq::<char>::empty());
    while k < v.len()
        invariant
            k <= v@.len(),
            used == byte_len(v@.take(k as int)),
            used <= limit,
        decreases v@.len() - k,
    {
        let w = utf8_width(v[k]);
        assert(v@.take(k + 1).drop_last() =~= v@.take(k as int));
        if w > limit - used {
            return (k, used);
        }
        used = used + w;
        k = k + 1;
    }
    (k, used)
}

/// A prefix of `v` never has more bytes than a longer one.
pub proof fn lemma_byte_len_monotone(s: Seq<char>, i: int, j: int)
    requires
        0 <= i <= j <= s.len(),
    ensures
        byte_len(s.take(i)) <= byte_len(s.take(j)),
{
    if i < j {
        lemma_byte_len_grows(s, i, j);
    }
}

/// The prefix of `s` that is `n` bytes long, when `n` is a character boundary
/// (`&s[..n]`).
pub fn byte_prefix(s: &str, n: usize) -> (r: Option<String>)
    ensures
        match r {
            Some(p) => exists|k: int| 0 <= k <= s@.len() && byte_len(#[trigger] s@.take(k)) == n && p@ == s@.take(k),
            None => !is_boundary(s@, n as int),
        },
{
    let v = chars_of(s);
    let (k, used) = prefix_within(&v, n);
    if used == n {
        let p = string_of_range(&v, 0, k);
        assert(v@.subrange(0, k as int) =~= v@.take(k as int));
        return Some(p);
    }
    proof {
        assert forall|j: int| 0 <= j <= v@.len() implies byte_len(#[trigger] v@.take(j)) != n by {
            if j <= k {
                lemma_byte_len_monotone(v@, j, k as int);
            } else {
                lemma_byte_len_monotone(v@, k + 1, j);
            }
        }
    }
    None
}

/// `s` with every character `from` replaced by `to`.
pub open spec fn replace_char(s: Seq<char>, from: char, to: char) -> Seq<char> {
    s.map_values(|c: char| if c == from { to } else { c })
}

} // verus!

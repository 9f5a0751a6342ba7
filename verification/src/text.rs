//! Character-level text helpers with exact specifications.
//!
//! Strings are processed as sequences of `char`s; each executable helper is
//! proved against a small spec function over `Seq<char>`.
use vstd::prelude::*;

verus! {

broadcast use vstd::string::group_string_axioms;

// ---------------------------------------------------------------------------
// Conversions between `str`/`String` and character vectors
// ---------------------------------------------------------------------------

/// The characters of a string slice, in order.
pub fn chars_of(s: &str) -> (v: Vec<char>)
    ensures
        v@ == s@,
{
    let mut v: Vec<char> = Vec::new();
    for c in it: s.chars()
        invariant
            v@ == it.seq().take(it.index() as int),
    {
        v.push(c);
    }
    v
}

/// Appends one character to a `String` (std's `String::push`).
#[verifier::external_body]
fn push_char(s: &mut String, c: char)
    ensures
        final(s)@ == old(s)@.push(c),
{
    s.push(c);
}

/// The text std's `Debug` gives for a `str`: quoted, with escapes.
pub uninterp spec fn debug_quoted(s: Seq<char>) -> Seq<char>;

/// std's `Debug` of a `str` (`format!("{:?}", s)`), as a `String`.
#[verifier::external_body]
pub(crate) fn debug_text(s: &str) -> (r: String)
    ensures
        r@ == debug_quoted(s@),
{
    format!("{:?}", s)
}

/// Builds a `String` holding exactly the given characters.
pub fn string_from_chars(v: &[char]) -> (s: String)
    ensures
        s@ == v@,
{
    let mut s = String::new();
    let mut i: usize = 0;
    while i < v.len()
        invariant
            i <= v.len(),
            s@ == v@.take(i as int),
        decreases v.len() - i,
    {
        push_char(&mut s, v[i]);
        assert(v@.take(i + 1) =~= v@.take(i as int).push(v@[i as int]));
        i = i + 1;
    }
    assert(v@.take(v.len() as int) =~= v@);
    s
}

/// An owned copy of a string slice.
pub fn owned(s: &str) -> (r: String)
    ensures
        r@ == s@,
{
    s.to_string()
}

/// The concatenation of two strings.
pub fn concat(a: &str, b: &str) -> (r: String)
    ensures
        r@ == a@ + b@,
{
    let mut r = a.to_string();
    r.append(b);
    r
}

// ---------------------------------------------------------------------------
// Equality
// ---------------------------------------------------------------------------

/// Whether two character vectors hold the same characters.
pub fn chars_eq(a: &[char], b: &[char]) -> (r: bool)
    ensures
        r == (a@ == b@),
{
    if a.len() != b.len() {
        return false;
    }
    let mut i: usize = 0;
    while i < a.len()
        invariant
            a.len() == b.len(),
            i <= a.len(),
            forall|k: int| 0 <= k < i ==> a@[k] == b@[k],
        decreases a.len() - i,
    {
        if a[i] != b[i] {
            return false;
        }
        i = i + 1;
    }
    assert(a@ =~= b@);
    true
}

/// Whether two string slices hold the same characters.
pub fn str_eq(a: &str, b: &str) -> (r: bool)
    ensures
        r == (a@ == b@),
{
    let va = chars_of(a);
    let vb = chars_of(b);
    chars_eq(va.as_slice(), vb.as_slice())
}

// ---------------------------------------------------------------------------
// Character classes and case
// ---------------------------------------------------------------------------

/// ASCII letters and digits.
pub open spec fn is_ascii_alnum(c: char) -> bool {
    ('a' <= c <= 'z') || ('A' <= c <= 'Z') || ('0' <= c <= '9')
}

/// Unicode `White_Space`, as `char::is_whitespace` documents it.
pub open spec fn is_space(c: char) -> bool {
    c == '\t' || c == '\n' || c == '\u{0B}' || c == '\u{0C}' || c == '\r' || c == ' '
        || c == '\u{85}' || c == '\u{A0}' || c == '\u{1680}' || ('\u{2000}' <= c <= '\u{200A}')
        || c == '\u{2028}' || c == '\u{2029}' || c == '\u{202F}' || c == '\u{205F}'
        || c == '\u{3000}'
}

pub fn char_is_space(c: char) -> (r: bool)
    ensures
        r == is_space(c),
{
    c == '\t' || c == '\n' || c == '\u{0B}' || c == '\u{0C}' || c == '\r' || c == ' ' || c
        == '\u{85}' || c == '\u{A0}' || c == '\u{1680}' || ('\u{2000}' <= c && c <= '\u{200A}')
        || c == '\u{2028}' || c == '\u{2029}' || c == '\u{202F}' || c == '\u{205F}' || c
        == '\u{3000}'
}

pub fn char_is_ascii_alnum(c: char) -> (r: bool)
    ensures
        r == is_ascii_alnum(c),
{
    ('a' <= c && c <= 'z') || ('A' <= c && c <= 'Z') || ('0' <= c && c <= '9')
}

/// ASCII lower-casing of one character; other characters are unchanged.
pub open spec fn lower_char(c: char) -> char {
    if 'A' <= c <= 'Z' {
        ((c as u32) + 32) as char
    } else {
        c
    }
}

/// ASCII lower-casing of a character sequence (`str::to_ascii_lowercase`).
pub open spec fn ascii_lower(s: Seq<char>) -> Seq<char> {
    s.map_values(|c: char| lower_char(c))
}

pub fn lower_char_exec(c: char) -> (r: char)
    ensures
        r == lower_char(c),
{
    if 'A' <= c && c <= 'Z' {
        let u: u8 = ((c as u32) + 32) as u8;
        u as char
    } else {
        c
    }
}

/// ASCII lower-cased copy of a string.
pub fn to_ascii_lower(s: &str) -> (r: String)
    ensures
        r@ == ascii_lower(s@),
{
    let v = chars_of(s);
    let mut out: Vec<char> = Vec::new();
    let mut i: usize = 0;
    while i < v.len()
        invariant
            v@ == s@,
            i <= v.len(),
            out@ =~= ascii_lower(s@.take(i as int)),
        decreases v.len() - i,
    {
        let c = lower_char_exec(v[i]);
        out.push(c);
        assert(s@.take(i + 1) =~= s@.take(i as int).push(s@[i as int]));
        i = i + 1;
    }
    assert(s@.take(v.len() as int) =~= s@);
    string_from_chars(out.as_slice())
}

// ---------------------------------------------------------------------------
// Trimming
// ---------------------------------------------------------------------------

/// Drops leading characters satisfying `f`.
pub open spec fn strip_start(s: Seq<char>, f: spec_fn(char) -> bool) -> Seq<char>
    decreases s.len(),
{
    if s.len() > 0 && f(s[0]) {
        strip_start(s.drop_first(), f)
    } else {
        s
    }
}

/// Drops trailing characters satisfying `f`.
pub open spec fn strip_end(s: Seq<char>, f: spec_fn(char) -> bool) -> Seq<char>
    decreases s.len(),
{
    if s.len() > 0 && f(s.last()) {
        strip_end(s.drop_last(), f)
    } else {
        s
    }
}

pub open spec fn space_pred() -> spec_fn(char) -> bool {
    |c: char| is_space(c)
}

pub open spec fn underscore_pred() -> spec_fn(char) -> bool {
    |c: char| c == '_'
}

/// `str::trim`: leading and trailing white space removed.
pub open spec fn trim(s: Seq<char>) -> Seq<char> {
    strip_end(strip_start(s, space_pred()), space_pred())
}

proof fn lemma_strip_start_step(s: Seq<char>, i: int, f: spec_fn(char) -> bool)
    requires
        0 <= i < s.len(),
        f(s[i]),
    ensures
        strip_start(s.subrange(i, s.len() as int), f) == strip_start(
            s.subrange(i + 1, s.len() as int),
            f,
        ),
{
    assert(s.subrange(i, s.len() as int).drop_first() =~= s.subrange(i + 1, s.len() as int));
}

fn strip_hit(c: char, space: bool) -> (r: bool)
    ensures
        r == (if space {
            space_pred()
        } else {
            underscore_pred()
        })(c),
{
    if space {
        char_is_space(c)
    } else {
        c == '_'
    }
}

/// Index range `[start, end)` of `v` left after stripping characters that
/// `keep_out` marks (white space when `space` is true, `'_'` otherwise).
fn strip_bounds(v: &[char], space: bool, from_start: bool, from_end: bool) -> (r: (usize, usize))
    ensures
        r.0 <= r.1 <= v.len(),
        ({
            let f = if space {
                space_pred()
            } else {
                underscore_pred()
            };
            let a = if from_start {
                strip_start(v@, f)
            } else {
                v@
            };
            v@.subrange(r.0 as int, r.1 as int) == (if from_end {
                strip_end(a, f)
            } else {
                a
            })
        }),
{
    let ghost f = if space {
        space_pred()
    } else {
        underscore_pred()
    };
    let mut i: usize = 0;
    if from_start {
        assert(v@.subrange(0, v.len() as int) =~= v@);
        while i < v.len() && strip_hit(v[i], space)
            invariant
                i <= v.len(),
                f == (if space {
                    space_pred()
                } else {
                    underscore_pred()
                }),
                strip_start(v@, f) == strip_start(v@.subrange(i as int, v.len() as int), f),
            decreases v.len() - i,
        {
            proof {
                lemma_strip_start_step(v@, i as int, f);
            }
            i = i + 1;
        }
        proof {
            let t = v@.subrange(i as int, v.len() as int);
            if t.len() > 0 {
                assert(t[0] == v@[i as int]);
                assert(!f(t[0]));
            }
        }
    } else {
        assert(v@.subrange(0, v.len() as int) =~= v@);
    }
    let ghost a = if from_start {
        strip_start(v@, f)
    } else {
        v@
    };
    assert(a == v@.subrange(i as int, v.len() as int));
    let mut j: usize = v.len();
    if from_end {
        while j > i && strip_hit(v[j - 1], space)
            invariant
                i <= j <= v.len(),
                f == (if space {
                    space_pred()
                } else {
                    underscore_pred()
                }),
                a == v@.subrange(i as int, v.len() as int),
                strip_end(a, f) == strip_end(v@.subrange(i as int, j as int), f),
            decreases j,
        {
            proof {
                let u = v@.subrange(i as int, j as int);
                assert(u.drop_last() =~= v@.subrange(i as int, j - 1));
                assert(u.last() == v@[j - 1]);
            }
            j = j - 1;
        }
        proof {
            let u = v@.subrange(i as int, j as int);
            if u.len() > 0 {
                assert(u.last() == v@[j - 1]);
                assert(!f(u.last()));
            }
        }
    }
    (i, j)
}

/// `str::trim` on a string slice.
pub fn trim_str(s: &str) -> (r: String)
    ensures
        r@ == trim(s@),
{
    let v = chars_of(s);
    let (a, b) = strip_bounds(v.as_slice(), true, true, true);
    let part = slice_range(v.as_slice(), a, b);
    string_from_chars(part.as_slice())
}

/// `trim_matches('_')`: leading and trailing underscores removed.
pub open spec fn trim_underscores(s: Seq<char>) -> Seq<char> {
    strip_end(strip_start(s, underscore_pred()), underscore_pred())
}

/// `trim_end_matches('_')`: trailing underscores removed.
pub open spec fn trim_end_underscores(s: Seq<char>) -> Seq<char> {
    strip_end(s, underscore_pred())
}

pub fn trim_underscores_chars(v: &[char]) -> (r: Vec<char>)
    ensures
        r@ == trim_underscores(v@),
{
    let (a, b) = strip_bounds(v, false, true, true);
    slice_range(v, a, b)
}

pub fn trim_end_underscores_chars(v: &[char]) -> (r: Vec<char>)
    ensures
        r@ == trim_end_underscores(v@),
{
    let (a, b) = strip_bounds(v, false, false, true);
    slice_range(v, a, b)
}

/// A copy of `v[a..b]`.
pub fn slice_range(v: &[char], a: usize, b: usize) -> (r: Vec<char>)
    requires
        a <= b <= v.len(),
    ensures
        r@ == v@.subrange(a as int, b as int),
{
    let mut r: Vec<char> = Vec::new();
    let mut k: usize = a;
    while k < b
        invariant
            a <= k <= b <= v.len(),
            r@ =~= v@.subrange(a as int, k as int),
        decreases b - k,
    {
        r.push(v[k]);
        k = k + 1;
    }
    r
}

// ---------------------------------------------------------------------------
// Searching
// ---------------------------------------------------------------------------

/// Whether `v` holds the character `c`.
pub fn contains_char(v: &[char], c: char) -> (r: bool)
    ensures
        r == v@.contains(c),
{
    let mut i: usize = 0;
    while i < v.len()
        invariant
            i <= v.len(),
            forall|k: int| 0 <= k < i ==> v@[k] != c,
        decreases v.len() - i,
    {
        if v[i] == c {
            assert(v@[i as int] == c);
            return true;
        }
        i = i + 1;
    }
    false
}

/// Whether `v` starts with `p`.
pub fn starts_with(v: &[char], p: &[char]) -> (r: bool)
    ensures
        r == (p@.len() <= v@.len() && v@.take(p@.len() as int) == p@),
{
    if p.len() > v.len() {
        return false;
    }
    let mut i: usize = 0;
    while i < p.len()
        invariant
            p.len() <= v.len(),
            i <= p.len(),
            forall|k: int| 0 <= k < i ==> v@[k] == p@[k],
        decreases p.len() - i,
    {
        if v[i] != p[i] {
            assert(v@.take(p@.len() as int)[i as int] != p@[i as int]);
            return false;
        }
        i = i + 1;
    }
    assert(v@.take(p@.len() as int) =~= p@);
    true
}

/// Whether `v` ends with `p`.
pub fn ends_with(v: &[char], p: &[char]) -> (r: bool)
    ensures
        r == (p@.len() <= v@.len() && v@.skip(v@.len() - p@.len()) == p@),
{
    if p.len() > v.len() {
        return false;
    }
    let off: usize = v.len() - p.len();
    let mut i: usize = 0;
    while i < p.len()
        invariant
            off + p.len() == v.len(),
            i <= p.len(),
            forall|k: int| 0 <= k < i ==> v@[off + k] == p@[k],
        decreases p.len() - i,
    {
        if v[off + i] != p[i] {
            assert(v@.skip(off as int)[i as int] != p@[i as int]);
            return false;
        }
        i = i + 1;
    }
    assert(v@.skip(off as int) =~= p@);
    true
}

/// Whether `p` occurs in `s` at position `i`.
pub open spec fn occurs_at(s: Seq<char>, p: Seq<char>, i: int) -> bool {
    0 <= i && i + p.len() <= s.len() && s.subrange(i, i + p.len()) == p
}

/// Whether `p` occurs somewhere in `s` (`str::contains`).
pub open spec fn contains_text(s: Seq<char>, p: Seq<char>) -> bool {
    exists|i: int| #[trigger] occurs_at(s, p, i)
}

/// Whether the text `p` occurs in `s`.
pub fn str_contains(s: &str, p: &str) -> (r: bool)
    ensures
        r == contains_text(s@, p@),
{
    let v = chars_of(s);
    let pv = chars_of(p);
    if pv.len() > v.len() {
        proof {
            assert forall|i: int| !#[trigger] occurs_at(s@, p@, i) by {}
        }
        return false;
    }
    let last: usize = v.len() - pv.len();
    let mut i: usize = 0;
    while i <= last
        invariant
            v@ == s@,
            pv@ == p@,
            last + pv@.len() == v@.len(),
            forall|j: int| 0 <= j < i ==> !#[trigger] occurs_at(s@, p@, j),
        decreases last + 1 - i,
    {
        let rest = slice_range(v.as_slice(), i, v.len());
        if starts_with(rest.as_slice(), pv.as_slice()) {
            assert(rest@.take(p@.len() as int) =~= s@.subrange(i as int, i + p@.len()));
            assert(occurs_at(s@, p@, i as int));
            return true;
        }
        assert(rest@.take(p@.len() as int) =~= s@.subrange(i as int, i + p@.len()));
        if i == last {
            proof {
                assert forall|j: int| !#[trigger] occurs_at(s@, p@, j) by {
                    if 0 <= j <= last {
                        assert(j < i || j == i);
                    }
                }
            }
            return false;
        }
        i = i + 1;
    }
    false
}

// ---------------------------------------------------------------------------
// Replacing
// ---------------------------------------------------------------------------

/// `str::replace`: every non-overlapping occurrence of `p`, scanned from the
/// left, replaced by `r`.
pub open spec fn replace_all(s: Seq<char>, p: Seq<char>, r: Seq<char>) -> Seq<char>
    recommends
        p.len() > 0,
    decreases s.len(),
{
    if p.len() == 0 || s.len() < p.len() {
        s
    } else if s.take(p.len() as int) == p {
        r + replace_all(s.skip(p.len() as int), p, r)
    } else {
        seq![s[0]] + replace_all(s.drop_first(), p, r)
    }
}

/// Replaces every occurrence of the non-empty pattern `p` in `s` by `r`.
pub fn replace_str(s: &str, p: &str, r: &str) -> (out: String)
    requires
        p@.len() > 0,
    ensures
        out@ == replace_all(s@, p@, r@),
{
    let v = chars_of(s);
    let pv = chars_of(p);
    let rv = chars_of(r);
    let mut out: Vec<char> = Vec::new();
    let mut i: usize = 0;
    assert(s@.skip(0) =~= s@);
    assert(out@ + replace_all(s@, p@, r@) =~= replace_all(s@, p@, r@));
    while i < v.len()
        invariant
            v@ == s@,
            pv@ == p@,
            rv@ == r@,
            pv@.len() > 0,
            i <= v.len(),
            out@ + replace_all(s@.skip(i as int), p@, r@) == replace_all(s@, p@, r@),
        decreases v.len() - i,
    {
        let ghost t = s@.skip(i as int);
        let rest = slice_range(v.as_slice(), i, v.len());
        assert(rest@ =~= t);
        if v.len() - i >= pv.len() && starts_with(rest.as_slice(), pv.as_slice()) {
            assert(t.skip(p@.len() as int) =~= s@.skip(i + p@.len()));
            let mut k: usize = 0;
            let ghost out0 = out@;
            while k < rv.len()
                invariant
                    k <= rv.len(),
                    out@ =~= out0 + rv@.take(k as int),
                decreases rv.len() - k,
            {
                out.push(rv[k]);
                k = k + 1;
            }
            assert(rv@.take(rv.len() as int) =~= rv@);
            assert(out@ + replace_all(s@.skip(i + pv.len()), p@, r@) =~= out0 + (r@
                + replace_all(t.skip(p@.len() as int), p@, r@)));
            i = i + pv.len();
        } else {
            assert(t.drop_first() =~= s@.skip(i + 1));
            let ghost out0 = out@;
            out.push(v[i]);
            assert(out@ + replace_all(s@.skip(i + 1), p@, r@) =~= out0 + (seq![t[0]]
                + replace_all(t.drop_first(), p@, r@)));
            i = i + 1;
        }
    }
    assert(s@.skip(v.len() as int) =~= Seq::<char>::empty());
    assert(out@ + Seq::<char>::empty() =~= out@);
    string_from_chars(out.as_slice())
}

/// Every `from` character replaced by `to`.
pub open spec fn map_char(s: Seq<char>, from: char, to: char) -> Seq<char> {
    s.map_values(|c: char| if c == from { to } else { c })
}

pub fn replace_char(s: &str, from: char, to: char) -> (out: String)
    ensures
        out@ == map_char(s@, from, to),
{
    let v = chars_of(s);
    let mut out: Vec<char> = Vec::new();
    let mut i: usize = 0;
    while i < v.len()
        invariant
            v@ == s@,
            i <= v.len(),
            out@ =~= map_char(s@.take(i as int), from, to),
        decreases v.len() - i,
    {
        let c = if v[i] == from {
            to
        } else {
            v[i]
        };
        out.push(c);
        assert(s@.take(i + 1) =~= s@.take(i as int).push(s@[i as int]));
        i = i + 1;
    }
    assert(s@.take(v.len() as int) =~= s@);
    string_from_chars(out.as_slice())
}

// ---------------------------------------------------------------------------
// Splitting
// ---------------------------------------------------------------------------

/// `str::split(d)` collected: the pieces between occurrences of `d`.
pub open spec fn split_on(s: Seq<char>, d: char) -> Seq<Seq<char>>
    decreases s.len(),
{
    if s.len() == 0 {
        seq![Seq::<char>::empty()]
    } else {
        let prev = split_on(s.drop_last(), d);
        if s.last() == d {
            prev.push(Seq::<char>::empty())
        } else {
            prev.update(prev.len() - 1, prev.last().push(s.last()))
        }
    }
}

pub proof fn lemma_split_on_nonempty(s: Seq<char>, d: char)
    ensures
        split_on(s, d).len() >= 1,
    decreases s.len(),
{
    if s.len() > 0 {
        lemma_split_on_nonempty(s.drop_last(), d);
    }
}

/// Appending a piece free of `d` extends the last piece.
pub proof fn lemma_split_on_append_plain(s: Seq<char>, x: Seq<char>, d: char)
    requires
        !x.contains(d),
    ensures
        split_on(s + x, d) == split_on(s, d).update(
            split_on(s, d).len() - 1,
            split_on(s, d).last() + x,
        ),
    decreases x.len(),
{
    lemma_split_on_nonempty(s, d);
    if x.len() == 0 {
        assert(s + x =~= s);
        assert(split_on(s, d).last() + x =~= split_on(s, d).last());
        assert(split_on(s, d).update(split_on(s, d).len() - 1, split_on(s, d).last())
            =~= split_on(s, d));
    } else {
        let y = x.drop_last();
        assert(!y.contains(d)) by {
            if y.contains(d) {
                let k = choose|k: int| 0 <= k < y.len() && y[k] == d;
                assert(x[k] == d);
            }
        }
        lemma_split_on_append_plain(s, y, d);
        assert((s + x).drop_last() =~= s + y);
        assert((s + x).last() == x.last());
        assert(x.last() != d) by {
            assert(x[x.len() - 1] == x.last());
        }
        lemma_split_on_nonempty(s + y, d);
        assert(split_on(s, d).last() + y + seq![x.last()] =~= split_on(s, d).last() + x);
        assert((split_on(s, d).last() + y).push(x.last()) =~= split_on(s, d).last() + x);
        assert(split_on(s + x, d) =~= split_on(s, d).update(
            split_on(s, d).len() - 1,
            split_on(s, d).last() + x,
        ));
    }
}

/// Appending the delimiter starts a new, empty piece.
pub proof fn lemma_split_on_append_delim(s: Seq<char>, d: char)
    ensures
        split_on(s.push(d), d) == split_on(s, d).push(Seq::<char>::empty()),
{
    assert(s.push(d).drop_last() =~= s);
}

/// Splitting `a.b.c` with dot-free parts gives exactly the three parts.
pub proof fn lemma_split_three(a: Seq<char>, b: Seq<char>, c: Seq<char>, d: char)
    requires
        !a.contains(d),
        !b.contains(d),
        !c.contains(d),
    ensures
        split_on(a + seq![d] + b + seq![d] + c, d) == seq![a, b, c],
{
    let e = Seq::<char>::empty();
    lemma_split_on_append_plain(e, a, d);
    assert(e + a =~= a);
    assert(split_on(e, d) =~= seq![e]);
    assert(split_on(a, d) =~= seq![a]);
    assert(a + seq![d] =~= a.push(d));
    lemma_split_on_append_delim(a, d);
    assert(split_on(a + seq![d], d) =~= seq![a, e]);
    lemma_split_on_append_plain(a + seq![d], b, d);
    assert(split_on(a + seq![d] + b, d) =~= seq![a, b]);
    assert(a + seq![d] + b + seq![d] =~= (a + seq![d] + b).push(d));
    lemma_split_on_append_delim(a + seq![d] + b, d);
    assert(split_on(a + seq![d] + b + seq![d], d) =~= seq![a, b, e]);
    lemma_split_on_append_plain(a + seq![d] + b + seq![d], c, d);
}

/// The pieces of `s` between occurrences of `d`.
pub fn split_chars(s: &[char], d: char) -> (parts: Vec<Vec<char>>)
    ensures
        parts@.len() == split_on(s@, d).len(),
        forall|k: int| 0 <= k < parts@.len() ==> #[trigger] parts@[k]@ == split_on(s@, d)[k],
{
    let mut parts: Vec<Vec<char>> = Vec::new();
    let mut cur: Vec<char> = Vec::new();
    let mut i: usize = 0;
    while i < s.len()
        invariant
            i <= s.len(),
            parts@.len() + 1 == split_on(s@.take(i as int), d).len(),
            forall|k: int|
                0 <= k < parts@.len() ==> #[trigger] parts@[k]@ == split_on(
                    s@.take(i as int),
                    d,
                )[k],
            cur@ == split_on(s@.take(i as int), d).last(),
        decreases s.len() - i,
    {
        let ghost pre = s@.take(i as int);
        assert(s@.take(i + 1).drop_last() =~= pre);
        assert(s@.take(i + 1).last() == s@[i as int]);
        proof {
            lemma_split_on_nonempty(pre, d);
        }
        if s[i] == d {
            let done = cur;
            parts.push(done);
            cur = Vec::new();
        } else {
            cur.push(s[i]);
        }
        i = i + 1;
    }
    assert(s@.take(s.len() as int) =~= s@);
    proof {
        lemma_split_on_nonempty(s@, d);
    }
    parts.push(cur);
    parts
}

// ---------------------------------------------------------------------------
// Decimal numbers
// ---------------------------------------------------------------------------

pub open spec fn digit_char(d: nat) -> char
    recommends
        d < 10,
{
    ((d + 48) as u32) as char
}

pub open spec fn is_digit(c: char) -> bool {
    '0' <= c <= '9'
}

pub open spec fn digit_value(c: char) -> nat {
    ((c as u32) - 48) as nat
}

/// Decimal digits of a natural number, without leading zeros.
pub open spec fn nat_digits(n: nat) -> Seq<char>
    decreases n,
{
    if n < 10 {
        seq![digit_char(n)]
    } else {
        nat_digits(n / 10).push(digit_char(n % 10))
    }
}

/// Decimal text of an integer, with a leading `-` when negative.
pub open spec fn int_text(n: int) -> Seq<char> {
    if n < 0 {
        seq!['-'] + nat_digits((-n) as nat)
    } else {
        nat_digits(n as nat)
    }
}

/// The value of a sequence of decimal digits.
pub open spec fn digits_value(s: Seq<char>) -> nat
    decreases s.len(),
{
    if s.len() == 0 {
        0
    } else {
        digits_value(s.drop_last()) * 10 + digit_value(s.last())
    }
}

pub open spec fn all_digits(s: Seq<char>) -> bool {
    forall|k: int| 0 <= k < s.len() ==> is_digit(#[trigger] s[k])
}

pub proof fn lemma_nat_digits_are_digits(n: nat)
    ensures
        all_digits(nat_digits(n)),
        nat_digits(n).len() >= 1,
        digits_value(nat_digits(n)) == n,
    decreases n,
{
    assert(digit_value(digit_char(n % 10)) == n % 10);
    if n >= 10 {
        lemma_nat_digits_are_digits(n / 10);
        let s = nat_digits(n);
        assert(s.last() == digit_char(n % 10));
        assert(n == (n / 10) * 10 + n % 10);
        assert(digits_value(s) == digits_value(s.drop_last()) * 10 + digit_value(s.last()));
        assert(s.drop_last() =~= nat_digits(n / 10));
        assert(digits_value(s.drop_last()) == n / 10);
        assert forall|k: int| 0 <= k < s.len() implies is_digit(#[trigger] s[k]) by {
            if k < s.len() - 1 {
                assert(s[k] == nat_digits(n / 10)[k]);
            }
        }
    } else {
        assert(nat_digits(n).drop_last() =~= Seq::<char>::empty());
        assert(digits_value(Seq::<char>::empty()) == 0);
        assert(nat_digits(n).last() == digit_char(n));
    }
}

pub fn digit_exec(d: u64) -> (c: char)
    requires
        d < 10,
    ensures
        c == digit_char(d as nat),
        is_digit(c),
{
    let u: u8 = (d as u8) + 48;
    u as char
}

/// Decimal digits of `n`.
pub fn u64_digits(n: u64) -> (v: Vec<char>)
    ensures
        v@ == nat_digits(n as nat),
    decreases n,
{
    if n < 10 {
        let mut v: Vec<char> = Vec::new();
        v.push(digit_exec(n));
        v
    } else {
        let mut v = u64_digits(n / 10);
        v.push(digit_exec(n % 10));
        v
    }
}

/// Decimal text of a signed integer.
pub fn i64_text(n: i64) -> (s: String)
    ensures
        s@ == int_text(n as int),
{
    if n < 0 {
        let m: u64 = if n == i64::MIN {
            9223372036854775808u64
        } else {
            (-n) as u64
        };
        let mut v: Vec<char> = Vec::new();
        v.push('-');
        let mut d = u64_digits(m);
        v.append(&mut d);
        assert(v@ =~= seq!['-'] + nat_digits((-(n as int)) as nat));
        string_from_chars(v.as_slice())
    } else {
        let v = u64_digits(n as u64);
        string_from_chars(v.as_slice())
    }
}

/// Decimal text of an unsigned integer.
pub fn u64_text(n: u64) -> (s: String)
    ensures
        s@ == nat_digits(n as nat),
{
    let v = u64_digits(n);
    string_from_chars(v.as_slice())
}

/// Value of a non-empty run of digits, when it fits in a `u64`.
pub fn parse_digits(v: &[char]) -> (r: Option<u64>)
    requires
        all_digits(v@),
    ensures
        r matches Some(n) ==> n as nat == digits_value(v@),
        r is None ==> digits_value(v@) > u64::MAX,
{
    let mut acc: u64 = 0;
    let mut i: usize = 0;
    while i < v.len()
        invariant
            all_digits(v@),
            i <= v.len(),
            acc as nat == digits_value(v@.take(i as int)),
        decreases v.len() - i,
    {
        let ghost pre = v@.take(i as int);
        assert(v@.take(i + 1).drop_last() =~= pre);
        assert(is_digit(v@[i as int]));
        let d: u64 = ((v[i] as u32) - 48) as u64;
        match acc.checked_mul(10) {
            Some(m) => match m.checked_add(d) {
                Some(x) => {
                    acc = x;
                },
                None => {
                    proof {
                        lemma_digits_value_prefix_grows(v@, i as int + 1);
                    }
                    return None;
                },
            },
            None => {
                proof {
                    lemma_digits_value_prefix_grows(v@, i as int + 1);
                }
                return None;
            },
        }
        i = i + 1;
    }
    assert(v@.take(v.len() as int) =~= v@);
    Some(acc)
}

/// The value of a digit run is at least the value of any of its prefixes.
pub proof fn lemma_digits_value_prefix_grows(s: Seq<char>, j: int)
    requires
        0 <= j <= s.len(),
    ensures
        digits_value(s.take(j)) <= digits_value(s),
    decreases s.len() - j,
{
    if j < s.len() {
        lemma_digits_value_prefix_grows(s, j + 1);
        assert(s.take(j + 1).drop_last() =~= s.take(j));
    } else {
        assert(s.take(j) =~= s);
    }
}

/// `str::parse::<u64>`: an optional `+`, then one or more ASCII digits, with
/// a value that fits.
pub open spec fn parse_u64_spec(s: Seq<char>) -> Option<u64> {
    let body = if s.len() > 0 && s[0] == '+' {
        s.drop_first()
    } else {
        s
    };
    if body.len() > 0 && all_digits(body) && digits_value(body) <= u64::MAX {
        Some(digits_value(body) as u64)
    } else {
        None
    }
}

/// `str::parse::<i64>`: an optional sign, then one or more ASCII digits, with
/// a value in range.
pub open spec fn parse_i64_spec(s: Seq<char>) -> Option<i64> {
    let neg = s.len() > 0 && s[0] == '-';
    let body = if s.len() > 0 && (s[0] == '+' || s[0] == '-') {
        s.drop_first()
    } else {
        s
    };
    if body.len() > 0 && all_digits(body) {
        let v = if neg {
            -(digits_value(body) as int)
        } else {
            digits_value(body) as int
        };
        if i64::MIN <= v <= i64::MAX {
            Some(v as i64)
        } else {
            None
        }
    } else {
        None
    }
}

fn all_digits_exec(v: &[char]) -> (r: bool)
    ensures
        r == all_digits(v@),
{
    let mut i: usize = 0;
    while i < v.len()
        invariant
            i <= v.len(),
            forall|k: int| 0 <= k < i ==> is_digit(#[trigger] v@[k]),
        decreases v.len() - i,
    {
        if !('0' <= v[i] && v[i] <= '9') {
            return false;
        }
        i = i + 1;
    }
    true
}

/// Parses an unsigned decimal the way `str::parse::<u64>` does.
pub fn parse_u64(s: &str) -> (r: Option<u64>)
    ensures
        r == parse_u64_spec(s@),
{
    let v = chars_of(s);
    let start: usize = if v.len() > 0 && v[0] == '+' {
        1
    } else {
        0
    };
    let body = slice_range(v.as_slice(), start, v.len());
    assert(start == 1 ==> body@ =~= s@.drop_first());
    assert(start == 0 ==> body@ =~= s@);
    if body.len() == 0 || !all_digits_exec(body.as_slice()) {
        return None;
    }
    parse_digits(body.as_slice())
}

/// Parses a signed decimal the way `str::parse::<i64>` does.
pub fn parse_i64(s: &str) -> (r: Option<i64>)
    ensures
        r == parse_i64_spec(s@),
{
    let v = chars_of(s);
    let neg = v.len() > 0 && v[0] == '-';
    let start: usize = if v.len() > 0 && (v[0] == '+' || v[0] == '-') {
        1
    } else {
        0
    };
    let body = slice_range(v.as_slice(), start, v.len());
    assert(start == 1 ==> body@ =~= s@.drop_first());
    assert(start == 0 ==> body@ =~= s@);
    if body.len() == 0 || !all_digits_exec(body.as_slice()) {
        return None;
    }
    match parse_digits(body.as_slice()) {
        None => None,
        Some(m) => {
            if neg {
                if m <= 9223372036854775808u64 {
                    if m == 9223372036854775808u64 {
                        Some(i64::MIN)
                    } else {
                        Some(-(m as i64))
                    }
                } else {
                    None
                }
            } else {
                if m <= 9223372036854775807u64 {
                    Some(m as i64)
                } else {
                    None
                }
            }
        },
    }
}

} // verus!

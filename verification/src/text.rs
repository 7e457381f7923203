//! Character-level text operations (trimming, prefixes, case-insensitive
//! comparison, line splitting) with their mathematical meaning over
//! `Seq<char>`.
use vstd::prelude::*;

verus! {

/// Unicode `White_Space`, the set that `char::is_whitespace` tests.
pub open spec fn is_ws(c: char) -> bool {
    ||| c == '\t' || c == '\n' || c == '\u{0B}' || c == '\u{0C}' || c == '\r' || c == ' '
    ||| c == '\u{85}' || c == '\u{A0}' || c == '\u{1680}'
    ||| ('\u{2000}' <= c && c <= '\u{200A}')
    ||| c == '\u{2028}' || c == '\u{2029}' || c == '\u{202F}' || c == '\u{205F}'
    ||| c == '\u{3000}'
}

/// `s` with its leading whitespace removed.
pub open spec fn trim_start(s: Seq<char>) -> Seq<char>
    decreases s.len(),
{
    if s.len() > 0 && is_ws(s[0]) {
        trim_start(s.subrange(1, s.len() as int))
    } else {
        s
    }
}

/// `s` with its trailing whitespace removed.
pub open spec fn trim_end(s: Seq<char>) -> Seq<char>
    decreases s.len(),
{
    if s.len() > 0 && is_ws(s.last()) {
        trim_end(s.drop_last())
    } else {
        s
    }
}

/// `s` with whitespace removed at both ends, as `str::trim` does.
pub open spec fn trim(s: Seq<char>) -> Seq<char> {
    trim_end(trim_start(s))
}

/// True when `s` holds nothing but whitespace (or nothing at all).
pub open spec fn is_blank(s: Seq<char>) -> bool {
    trim(s).len() == 0
}

/// `s` with every trailing `'/'` removed, as `trim_end_matches('/')` does.
pub open spec fn trim_end_slashes(s: Seq<char>) -> Seq<char>
    decreases s.len(),
{
    if s.len() > 0 && s.last() == '/' {
        trim_end_slashes(s.drop_last())
    } else {
        s
    }
}

pub open spec fn has_prefix(s: Seq<char>, p: Seq<char>) -> bool {
    p.len() <= s.len() && s.subrange(0, p.len() as int) == p
}

/// ASCII case folding of one character, as a code point.
pub open spec fn ascii_fold(c: char) -> u32 {
    if 'A' <= c && c <= 'Z' {
        (c as u32 + 32) as u32
    } else {
        c as u32
    }
}

/// `str::eq_ignore_ascii_case`: equal once ASCII letters are folded.
pub open spec fn eq_ignore_ascii_case(a: Seq<char>, b: Seq<char>) -> bool {
    a.len() == b.len() && forall|i: int| 0 <= i < a.len() ==> ascii_fold(a[i]) == ascii_fold(b[i])
}

pub proof fn lemma_trim_start_all_ws(s: Seq<char>)
    requires
        forall|i: int| 0 <= i < s.len() ==> is_ws(s[i]),
    ensures
        trim_start(s).len() == 0,
    decreases s.len(),
{
    if s.len() > 0 {
        lemma_trim_start_all_ws(s.subrange(1, s.len() as int));
    }
}

pub proof fn lemma_trim_end_empty(s: Seq<char>)
    requires
        s.len() == 0,
    ensures
        trim_end(s).len() == 0,
{
}

/// `trim_end` keeps a prefix, drops only whitespace, and ends on a
/// non-whitespace character.
pub proof fn lemma_trim_end_shape(s: Seq<char>)
    ensures
        trim_end(s).len() <= s.len(),
        trim_end(s) == s.subrange(0, trim_end(s).len() as int),
        forall|i: int| trim_end(s).len() <= i < s.len() ==> is_ws(s[i]),
        trim_end(s).len() > 0 ==> !is_ws(s[trim_end(s).len() - 1]),
    decreases s.len(),
{
    if s.len() > 0 && is_ws(s.last()) {
        let t = s.drop_last();
        lemma_trim_end_shape(t);
        assert(t.subrange(0, trim_end(s).len() as int) =~= s.subrange(
            0,
            trim_end(s).len() as int,
        ));
        assert forall|i: int| trim_end(s).len() <= i < s.len() implies is_ws(s[i]) by {
            if i < t.len() {
                assert(s[i] == t[i]);
            }
        }
    } else {
        assert(s.subrange(0, s.len() as int) =~= s);
    }
}

/// `trim_start` keeps a suffix, drops only whitespace, and starts on a
/// non-whitespace character.
pub proof fn lemma_trim_start_shape(s: Seq<char>)
    ensures
        trim_start(s).len() <= s.len(),
        trim_start(s) == s.subrange(s.len() - trim_start(s).len(), s.len() as int),
        forall|i: int| 0 <= i < s.len() - trim_start(s).len() ==> is_ws(s[i]),
        trim_start(s).len() > 0 ==> !is_ws(s[s.len() - trim_start(s).len()]),
    decreases s.len(),
{
    if s.len() > 0 && is_ws(s[0]) {
        let t = s.subrange(1, s.len() as int);
        lemma_trim_start_shape(t);
        assert(t.subrange(t.len() - trim_start(t).len(), t.len() as int) =~= s.subrange(
            s.len() - trim_start(s).len(),
            s.len() as int,
        ));
        assert forall|i: int| 0 <= i < s.len() - trim_start(s).len() implies is_ws(s[i]) by {
            if i > 0 {
                assert(s[i] == t[i - 1]);
            }
        }
    } else {
        assert(s.subrange(0, s.len() as int) =~= s);
    }
}

/// `trim_end` is the prefix that ends on the last non-whitespace character.
pub proof fn lemma_trim_end_unique(s: Seq<char>, m: int)
    requires
        0 <= m <= s.len(),
        forall|i: int| m <= i < s.len() ==> is_ws(s[i]),
        m > 0 ==> !is_ws(s[m - 1]),
    ensures
        trim_end(s) == s.subrange(0, m),
{
    lemma_trim_end_shape(s);
    let b = trim_end(s).len() as int;
    if b < m {
        assert(is_ws(s[m - 1]));
    }
    if m < b {
        assert(is_ws(s[b - 1]));
    }
}

/// `trim_start` is the suffix that starts on the first non-whitespace
/// character.
pub proof fn lemma_trim_start_unique(s: Seq<char>, k: int)
    requires
        0 <= k <= s.len(),
        forall|i: int| 0 <= i < k ==> is_ws(s[i]),
        k < s.len() ==> !is_ws(s[k]),
    ensures
        trim_start(s) == s.subrange(k, s.len() as int),
{
    lemma_trim_start_shape(s);
    let a = s.len() - trim_start(s).len();
    if a < k {
        assert(is_ws(s[a]));
    }
    if k < a {
        assert(is_ws(s[k]));
    }
}

/// Trimming the end of a text that goes on after a non-blank part leaves
/// the front untouched.
pub proof fn lemma_trim_end_append(p: Seq<char>, s: Seq<char>)
    requires
        trim_end(s).len() > 0,
    ensures
        trim_end(p + s) == p + trim_end(s),
{
    lemma_trim_end_shape(s);
    let m = trim_end(s).len() as int;
    let ps = p + s;
    assert forall|i: int| p.len() + m <= i < ps.len() implies is_ws(ps[i]) by {
        assert(ps[i] == s[i - p.len()]);
    }
    assert(ps[p.len() + m - 1] == s[m - 1]);
    lemma_trim_end_unique(ps, p.len() + m);
    assert(ps.subrange(0, p.len() + m) =~= p + s.subrange(0, m));
}

/// Trimming after trimming the end is trimming.
pub proof fn lemma_trim_after_trim_end(s: Seq<char>)
    ensures
        trim(trim_end(s)) == trim(s),
        trim(trim(s)) == trim(s),
{
    lemma_trim_start_shape(s);
    lemma_trim_end_shape(s);
    let a = s.len() - trim_start(s).len();
    let b = trim_end(s).len() as int;
    if a < s.len() {
        // s[a] is the first non-whitespace character, s[b - 1] the last.
        assert(!is_ws(s[a]));
        assert(a < b) by {
            if b <= a {
                assert(is_ws(s[a]));
            }
        }
        let ts = trim_start(s);
        assert forall|i: int| b - a <= i < ts.len() implies is_ws(ts[i]) by {
            assert(ts[i] == s[a + i]);
        }
        assert(ts[b - a - 1] == s[b - 1]);
        lemma_trim_end_unique(ts, b - a);
        assert(ts.subrange(0, b - a) =~= s.subrange(a, b));
        let te = trim_end(s);
        assert forall|i: int| 0 <= i < a implies is_ws(te[i]) by {
            assert(te[i] == s[i]);
        }
        assert(te[a] == s[a]);
        lemma_trim_start_unique(te, a);
        assert(te.subrange(a, te.len() as int) =~= s.subrange(a, b));
        let mid = s.subrange(a, b);
        lemma_trim_end_unique(mid, mid.len() as int);
        assert(mid.subrange(0, mid.len() as int) =~= mid);
        lemma_trim_start_unique(mid, 0);
        assert(mid.subrange(0, mid.len() as int) =~= mid);
    } else {
        let te = trim_end(s);
        assert(b == 0) by {
            if b > 0 {
                assert(is_ws(s[b - 1]));
            }
        }
        assert(trim_start(s).len() == 0);
        lemma_trim_end_empty(trim_start(s));
        lemma_trim_start_all_ws(te);
        lemma_trim_end_empty(trim_start(te));
        lemma_trim_start_all_ws(trim(s));
        lemma_trim_end_empty(trim_start(trim(s)));
    }
}

/// The characters of a string slice, in order.
pub fn chars_of(s: &str) -> (r: Vec<char>)
    ensures
        r@ == s@,
{
    broadcast use vstd::string::axiom_spec_iter, vstd::string::next_postcondition;

    let mut out: Vec<char> = Vec::new();
    for c in it: s.chars()
        invariant
            out@ == it.seq().take(it.index()),
    {
        out.push(c);
    }
    assert(out@ =~= s@);
    out
}

/// A string made of the given characters (`String: FromIterator<&char>`).
/// Claimed: the string is exactly those characters, in order.
#[verifier::external_body]
pub fn string_of(cs: &[char]) -> (r: String)
    ensures
        r@ == cs@,
{
    cs.iter().collect()
}

/// `char::is_whitespace`, decided over the list in `is_ws`.
pub fn is_whitespace(c: char) -> (b: bool)
    ensures
        b == is_ws(c),
{
    c == '\t' || c == '\n' || c == '\u{0B}' || c == '\u{0C}' || c == '\r' || c == ' ' || c
        == '\u{85}' || c == '\u{A0}' || c == '\u{1680}' || ('\u{2000}' <= c && c <= '\u{200A}')
        || c == '\u{2028}' || c == '\u{2029}' || c == '\u{202F}' || c == '\u{205F}' || c
        == '\u{3000}'
}

/// The characters `cs[from..to]` as a `String`.
pub fn slice_string(cs: &Vec<char>, from: usize, to: usize) -> (r: String)
    requires
        from <= to <= cs.len(),
    ensures
        r@ == cs@.subrange(from as int, to as int),
{
    let mut v: Vec<char> = Vec::new();
    let mut i: usize = from;
    while i < to
        invariant
            from <= i <= to <= cs.len(),
            v@ == cs@.subrange(from as int, i as int),
        decreases to - i,
    {
        v.push(cs[i]);
        i = i + 1;
        assert(v@ =~= cs@.subrange(from as int, i as int));
    }
    string_of(v.as_slice())
}

/// Bounds `(start, end)` of the trimmed part of `cs`.
pub fn trim_bounds(cs: &Vec<char>) -> (r: (usize, usize))
    ensures
        r.0 <= r.1 <= cs.len(),
        cs@.subrange(r.0 as int, r.1 as int) == trim(cs@),
{
    let n = cs.len();
    let mut start: usize = 0;
    assert(cs@.subrange(0, n as int) =~= cs@);
    while start < n && is_whitespace(cs[start])
        invariant
            start <= n == cs.len(),
            trim_start(cs@) == trim_start(cs@.subrange(start as int, n as int)),
        decreases n - start,
    {
        assert(cs@.subrange(start as int, n as int).subrange(1, (n - start) as int) =~= cs@.subrange(
            start + 1,
            n as int,
        ));
        start = start + 1;
    }
    let ghost ts = cs@.subrange(start as int, n as int);
    assert(trim_start(ts) == ts);
    let mut end: usize = n;
    while end > start && is_whitespace(cs[end - 1])
        invariant
            start <= end <= n == cs.len(),
            trim_start(cs@) == ts,
            ts == cs@.subrange(start as int, n as int),
            trim_end(ts) == trim_end(cs@.subrange(start as int, end as int)),
        decreases end - start,
    {
        assert(cs@.subrange(start as int, end as int).drop_last() =~= cs@.subrange(
            start as int,
            end - 1,
        ));
        end = end - 1;
    }
    let ghost te = cs@.subrange(start as int, end as int);
    assert(trim_end(te) == te);
    (start, end)
}

/// `str::trim`.
pub fn trim_str(s: &str) -> (r: String)
    ensures
        r@ == trim(s@),
{
    let cs = chars_of(s);
    let (a, b) = trim_bounds(&cs);
    slice_string(&cs, a, b)
}

/// Whether a string is empty after trimming.
pub fn blank(s: &str) -> (b: bool)
    ensures
        b == is_blank(s@),
{
    let cs = chars_of(s);
    let (a, b) = trim_bounds(&cs);
    a == b
}

/// Whether `s` starts with `p`.
pub fn starts_with(s: &Vec<char>, p: &Vec<char>) -> (b: bool)
    ensures
        b == has_prefix(s@, p@),
{
    if p.len() > s.len() {
        return false;
    }
    let mut i: usize = 0;
    while i < p.len()
        invariant
            p.len() <= s.len(),
            i <= p.len(),
            forall|j: int| 0 <= j < i ==> s@[j] == p@[j],
        decreases p.len() - i,
    {
        if s[i] != p[i] {
            assert(s@.subrange(0, p.len() as int)[i as int] != p@[i as int]);
            return false;
        }
        i = i + 1;
    }
    assert(s@.subrange(0, p.len() as int) =~= p@);
    true
}

/// ASCII case folding of one character.
pub fn fold_char(c: char) -> (r: u32)
    ensures
        r == ascii_fold(c),
{
    if 'A' <= c && c <= 'Z' {
        (c as u32) + 32
    } else {
        c as u32
    }
}

/// `str::eq_ignore_ascii_case`.
pub fn same_ignoring_ascii_case(a: &str, b: &str) -> (r: bool)
    ensures
        r == eq_ignore_ascii_case(a@, b@),
{
    let x = chars_of(a);
    let y = chars_of(b);
    if x.len() != y.len() {
        return false;
    }
    let mut i: usize = 0;
    while i < x.len()
        invariant
            x@ == a@,
            y@ == b@,
            x.len() == y.len(),
            i <= x.len(),
            forall|j: int| 0 <= j < i ==> ascii_fold(x@[j]) == ascii_fold(y@[j]),
        decreases x.len() - i,
    {
        if fold_char(x[i]) != fold_char(y[i]) {
            return false;
        }
        i = i + 1;
    }
    true
}

/// `s.trim_end_matches('/')`.
pub fn trim_trailing_slashes(s: &str) -> (r: String)
    ensures
        r@ == trim_end_slashes(s@),
{
    let cs = chars_of(s);
    let mut end: usize = cs.len();
    assert(cs@.subrange(0, end as int) =~= cs@);
    while end > 0 && cs[end - 1] == '/'
        invariant
            end <= cs.len(),
            cs@ == s@,
            trim_end_slashes(s@) == trim_end_slashes(cs@.subrange(0, end as int)),
        decreases end,
    {
        assert(cs@.subrange(0, end as int).drop_last() =~= cs@.subrange(0, end - 1));
        end = end - 1;
    }
    assert(trim_end_slashes(cs@.subrange(0, end as int)) == cs@.subrange(0, end as int));
    slice_string(&cs, 0, end)
}

/// Text equality of two string slices: whether they hold the same
/// characters.
pub fn same_text(a: &str, b: &str) -> (r: bool)
    ensures
        r == (a@ == b@),
{
    a.to_owned() == b.to_owned()
}

} // verus!

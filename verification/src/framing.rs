//! Newline framing of a text stream: complete lines are handed out as soon
//! as their `'\n'` arrives, the unfinished tail waits for more text.
use crate::text::{chars_of, slice_string};
use vstd::prelude::*;

verus! {

/// Position of the first `'\n'` in `s`, or `s.len()` when there is none.
pub open spec fn first_newline(s: Seq<char>) -> nat
    decreases s.len(),
{
    if s.len() == 0 {
        0
    } else if s[0] == '\n' {
        0
    } else {
        1 + first_newline(s.subrange(1, s.len() as int))
    }
}

pub proof fn lemma_first_newline(s: Seq<char>)
    ensures
        first_newline(s) <= s.len(),
        first_newline(s) < s.len() ==> s[first_newline(s) as int] == '\n',
        forall|i: int| 0 <= i < first_newline(s) ==> s[i] != '\n',
    decreases s.len(),
{
    if s.len() > 0 && s[0] != '\n' {
        let t = s.subrange(1, s.len() as int);
        lemma_first_newline(t);
        assert forall|i: int| 0 <= i < first_newline(s) implies s[i] != '\n' by {
            if i > 0 {
                assert(s[i] == t[i - 1]);
            }
        }
    }
}

/// The first newline is at `k` when `s[k]` is one and none comes before.
pub proof fn lemma_first_newline_at(s: Seq<char>, k: int)
    requires
        0 <= k <= s.len(),
        k < s.len() ==> s[k] == '\n',
        forall|i: int| 0 <= i < k ==> s[i] != '\n',
    ensures
        first_newline(s) == k,
    decreases k,
{
    if k > 0 {
        let t = s.subrange(1, s.len() as int);
        assert forall|i: int| 0 <= i < k - 1 implies t[i] != '\n' by {
            assert(t[i] == s[i + 1]);
        }
        lemma_first_newline_at(t, k - 1);
    }
}

/// The complete lines of `s` (without their `'\n'`) and the text after the
/// last newline.
pub open spec fn split_lines(s: Seq<char>) -> (Seq<Seq<char>>, Seq<char>)
    decreases s.len(),
{
    let k = first_newline(s) as int;
    if k < s.len() {
        let rest = split_lines(s.subrange(k + 1 as int, s.len() as int));
        (seq![s.subrange(0, k as int)] + rest.0, rest.1)
    } else {
        (Seq::empty(), s)
    }
}

/// Splitting `x + b` is splitting `x`, then splitting what `x` left
/// unfinished followed by `b`.
pub proof fn lemma_split_append(x: Seq<char>, b: Seq<char>)
    ensures
        split_lines(x + b) == ((split_lines(x).0 + split_lines(split_lines(x).1 + b).0), split_lines(
            split_lines(x).1 + b,
        ).1),
    decreases x.len(),
{
    lemma_first_newline(x);
    let k = first_newline(x) as int;
    let xb = x + b;
    if k < x.len() {
        assert forall|i: int| 0 <= i < k implies xb[i] != '\n' by {
            assert(xb[i] == x[i]);
        }
        lemma_first_newline_at(xb, k);
        let tail = x.subrange(k + 1, x.len() as int);
        assert(xb.subrange(k + 1, xb.len() as int) =~= tail + b);
        assert(xb.subrange(0, k) =~= x.subrange(0, k));
        lemma_split_append(tail, b);
        assert(seq![x.subrange(0, k)] + split_lines(tail).0 + split_lines(split_lines(tail).1 + b).0
            =~= seq![x.subrange(0, k)] + (split_lines(tail).0 + split_lines(
            split_lines(tail).1 + b,
        ).0));
    } else {
        assert(split_lines(x).0 =~= Seq::<Seq<char>>::empty());
        assert(Seq::<Seq<char>>::empty() + split_lines(x + b).0 =~= split_lines(x + b).0);
    }
}

/// The views of a sequence of strings.
pub open spec fn strings_view(v: Seq<String>) -> Seq<Seq<char>> {
    v.map_values(|s: String| s@)
}

/// Text waiting for its newline.
#[derive(Debug)]
pub struct LineBuffer {
    pending: String,
}

impl View for LineBuffer {
    type V = Seq<char>;

    closed spec fn view(&self) -> Seq<char> {
        self.pending@
    }
}

impl LineBuffer {
    /// An empty buffer.
    pub fn new() -> (r: LineBuffer)
        ensures
            r@ == Seq::<char>::empty(),
    {
        LineBuffer { pending: String::new() }
    }

    /// Appends `text`; hands out the lines it completes, in order.
    pub fn push(&mut self, text: &str) -> (lines: Vec<String>)
        ensures
            strings_view(lines@) == split_lines(old(self)@ + text@).0,
            final(self)@ == split_lines(old(self)@ + text@).1,
    {
        let mut all = self.pending.clone();
        all.append(text);
        let cs = chars_of(all.as_str());
        let ghost s = cs@;
        let mut lines: Vec<String> = Vec::new();
        let mut start: usize = 0;
        let mut j: usize = 0;
        assert(s.subrange(0, s.len() as int) =~= s);
        assert(strings_view(lines@) + split_lines(s).0 =~= split_lines(s).0);
        while j < cs.len()
            invariant
                s == cs@,
                start <= j <= cs.len(),
                forall|i: int| start <= i < j ==> s[i] != '\n',
                split_lines(s).0 == strings_view(lines@) + split_lines(
                    s.subrange(start as int, s.len() as int),
                ).0,
                split_lines(s).1 == split_lines(s.subrange(start as int, s.len() as int)).1,
            decreases cs.len() - j,
        {
            if cs[j] == '\n' {
                let ghost t = s.subrange(start as int, s.len() as int);
                let ghost before = strings_view(lines@);
                proof {
                    assert forall|i: int| 0 <= i < j - start implies t[i] != '\n' by {
                        assert(t[i] == s[start + i]);
                    }
                    lemma_first_newline_at(t, j - start);
                    assert(t.subrange(0, j - start) =~= s.subrange(start as int, j as int));
                    assert(t.subrange(j - start + 1, t.len() as int) =~= s.subrange(
                        j + 1,
                        s.len() as int,
                    ));
                }
                let line = slice_string(&cs, start, j);
                lines.push(line);
                proof {
                    assert(strings_view(lines@) =~= before.push(s.subrange(start as int, j as int)));
                    assert(strings_view(lines@) + split_lines(s.subrange(j + 1, s.len() as int)).0
                        =~= before + split_lines(t).0);
                }
                start = j + 1;
            }
            j = j + 1;
        }
        let ghost t = s.subrange(start as int, s.len() as int);
        proof {
            assert forall|i: int| 0 <= i < t.len() implies t[i] != '\n' by {
                assert(t[i] == s[start + i]);
            }
            lemma_first_newline_at(t, t.len() as int);
            assert(strings_view(lines@) + split_lines(t).0 =~= strings_view(lines@));
        }
        self.pending = slice_string(&cs, start, cs.len());
        lines
    }

    /// Takes out the unfinished text, leaving the buffer empty.
    pub fn take_rest(&mut self) -> (r: String)
        ensures
            r@ == old(self)@,
            final(self)@ == Seq::<char>::empty(),
    {
        let mut r = String::new();
        std::mem::swap(&mut r, &mut self.pending);
        r
    }
}

} // verus!

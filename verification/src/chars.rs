//! Searching and trimming text, as sequences of characters.
use vstd::prelude::*;
use crate::fix::{is_whitespace, is_whitespace_exec, leading_ws, line_end_from, starts_with, lemma_line_end_bounds};
use crate::text::{chars_of, string_of};

verus! {

/// The line that starts at `p`, without its line break (`\n` or `\r\n`).
pub open spec fn line_at(s: Seq<char>, p: int) -> Seq<char> {
    let e = line_end_from(s, p);
    let content_end = if p < e && e <= s.len() && s[e - 1] == '\n' { e - 1 } else { e };
    let raw = s.subrange(p, content_end);
    if raw.len() > 0 && raw.last() == '\r' { raw.drop_last() } else { raw }
}

/// The lines of `s` from index `p` on, each without its line break, as
/// `str::lines` gives them.
pub open spec fn lines_from(s: Seq<char>, p: int) -> Seq<Seq<char>>
    decreases s.len() - p,
{
    if p < 0 || p >= s.len() {
        Seq::empty()
    } else {
        proof {
            lemma_line_end_bounds(s, p);
        }
        seq![line_at(s, p)] + lines_from(s, line_end_from(s, p))
    }
}

/// The lines of `s`, as `str::lines` gives them.
pub open spec fn lines(s: Seq<char>) -> Seq<Seq<char>> {
    lines_from(s, 0)
}

/// The line that starts at `p` in `cs` and the index where the next line starts.
pub fn next_line(cs: &Vec<char>, p: usize) -> (r: (Vec<char>, usize))
    requires
        p < cs@.len(),
    ensures
        r.0@ == line_at(cs@, p as int),
        r.1 == line_end_from(cs@, p as int),
        p < r.1 <= cs@.len(),
{
    let mut e: usize = p;
    while e < cs.len() && cs[e] != '\n'
        invariant
            p <= e <= cs@.len(),
            p < cs@.len(),
            forall|q: int| p <= q < e ==> cs@[q] != '\n',
            line_end_from(cs@, p as int) == line_end_from(cs@, e as int),
        decreases cs.len() - e,
    {
        e = e + 1;
    }
    let next = if e < cs.len() { e + 1 } else { e };
    assert(line_end_from(cs@, p as int) == next);
    let mut line = slice_chars(cs, p, e);
    if line.len() > 0 && line[line.len() - 1] == '\r' {
        line.pop();
        proof {
            assert(line@ =~= cs@.subrange(p as int, e as int).drop_last());
        }
    }
    proof {
        lemma_line_end_bounds(cs@, p as int);
    }
    (line, next)
}

/// `p` occurs in `s` at index `i`.
pub open spec fn occurs_at(s: Seq<char>, p: Seq<char>, i: int) -> bool {
    0 <= i && i + p.len() <= s.len() && s.subrange(i, i + p.len()) == p
}

/// `p` occurs somewhere in `s`.
pub open spec fn has_sub(s: Seq<char>, p: Seq<char>) -> bool {
    exists|i: int| occurs_at(s, p, i)
}

/// The number of trailing white-space characters of `s`.
pub open spec fn trailing_ws(s: Seq<char>) -> nat
    decreases s.len(),
{
    if s.len() > 0 && is_whitespace(s.last()) {
        1 + trailing_ws(s.drop_last())
    } else {
        0
    }
}

/// `s` without leading and trailing white space, as `str::trim` gives it.
pub open spec fn trim(s: Seq<char>) -> Seq<char> {
    let t = s.skip(leading_ws(s) as int);
    t.take(t.len() - trailing_ws(t))
}

/// `s` with every leading repetition of `p` removed, as `str::trim_start_matches` gives it.
pub open spec fn strip_all(s: Seq<char>, p: Seq<char>) -> Seq<char>
    decreases s.len(),
{
    if p.len() > 0 && starts_with(s, p) {
        strip_all(s.skip(p.len() as int), p)
    } else {
        s
    }
}

fn matches_at(s: &Vec<char>, p: &Vec<char>, i: usize) -> (r: bool)
    requires
        i <= s@.len(),
    ensures
        r == occurs_at(s@, p@, i as int),
{
    if p.len() > s.len() - i {
        return false;
    }
    let mut k: usize = 0;
    while k < p.len()
        invariant
            k <= p@.len(),
            i <= s@.len(),
            i + p@.len() <= s@.len(),
            forall|j: int| 0 <= j < k ==> s@[i + j] == p@[j],
        decreases p.len() - k,
    {
        assert(i + k < s.len());
        if s[i + k] != p[k] {
            assert(s@.subrange(i as int, i + p@.len())[k as int] != p@[k as int]);
            return false;
        }
        k = k + 1;
    }
    assert(s@.subrange(i as int, i + p@.len()) =~= p@);
    true
}

/// Whether `p` occurs in `s`.
pub fn contains_chars(s: &Vec<char>, p: &Vec<char>) -> (r: bool)
    ensures
        r == has_sub(s@, p@),
{
    if p.len() == 0 {
        assert(s@.subrange(0, 0) =~= p@);
        assert(occurs_at(s@, p@, 0));
        return true;
    }
    if p.len() > s.len() {
        return false;
    }
    let mut i: usize = 0;
    while i <= s.len() - p.len()
        invariant
            1 <= p@.len() <= s@.len(),
            i <= s@.len() - p@.len() + 1,
            forall|j: int| 0 <= j < i ==> !occurs_at(s@, p@, j),
        decreases s.len() - p.len() + 1 - i,
    {
        if matches_at(s, p, i) {
            return true;
        }
        i = i + 1;
    }
    assert forall|j: int| !occurs_at(s@, p@, j) by {
        if 0 <= j && j + p@.len() <= s@.len() {
            assert(j < i);
        }
    }
    false
}

/// Whether `p` occurs in `s`.
pub fn contains_str(s: &str, p: &str) -> (r: bool)
    ensures
        r == has_sub(s@, p@),
{
    contains_chars(&chars_of(s), &chars_of(p))
}

/// Whether `s` starts with `p`.
pub fn starts_with_chars(s: &Vec<char>, p: &Vec<char>) -> (r: bool)
    ensures
        r == starts_with(s@, p@),
{
    let r = matches_at(s, p, 0);
    proof {
        if p@.len() <= s@.len() {
            assert(s@.subrange(0, p@.len() as int) =~= s@.take(p@.len() as int));
        }
    }
    r
}

/// Whether `s` starts with `p`.
pub fn starts_with_str(s: &str, p: &str) -> (r: bool)
    ensures
        r == starts_with(s@, p@),
{
    starts_with_chars(&chars_of(s), &chars_of(p))
}

/// The characters `lo..hi` of `s`.
pub fn slice_chars(s: &Vec<char>, lo: usize, hi: usize) -> (r: Vec<char>)
    requires
        lo <= hi <= s@.len(),
    ensures
        r@ == s@.subrange(lo as int, hi as int),
{
    let mut out: Vec<char> = Vec::new();
    let mut i: usize = lo;
    while i < hi
        invariant
            lo <= i <= hi,
            hi <= s@.len(),
            out@ == s@.subrange(lo as int, i as int),
        decreases hi - i,
    {
        out.push(s[i]);
        assert(out@ =~= s@.subrange(lo as int, i + 1));
        i = i + 1;
    }
    out
}

proof fn lemma_leading_ws_bound(s: Seq<char>)
    ensures
        leading_ws(s) <= s.len(),
        forall|j: int| 0 <= j < leading_ws(s) ==> is_whitespace(#[trigger] s[j]),
        leading_ws(s) < s.len() ==> !is_whitespace(s[leading_ws(s) as int]),
    decreases s.len(),
{
    if s.len() > 0 && is_whitespace(s[0]) {
        lemma_leading_ws_bound(s.drop_first());
        assert forall|j: int| 0 <= j < leading_ws(s) implies is_whitespace(#[trigger] s[j]) by {
            if j > 0 {
                assert(s[j] == s.drop_first()[j - 1]);
            }
        }
    }
}

proof fn lemma_trailing_ws_bound(s: Seq<char>)
    ensures
        trailing_ws(s) <= s.len(),
    decreases s.len(),
{
    if s.len() > 0 && is_whitespace(s.last()) {
        lemma_trailing_ws_bound(s.drop_last());
    }
}

/// The number of leading white-space characters of `s`.
fn count_leading_ws(s: &Vec<char>) -> (r: usize)
    ensures
        r == leading_ws(s@),
{
    let mut i: usize = 0;
    assert(s@.skip(0) =~= s@);
    while i < s.len() && is_whitespace_exec(s[i])
        invariant
            i <= s@.len(),
            leading_ws(s@) == i + leading_ws(s@.skip(i as int)),
        decreases s.len() - i,
    {
        assert(s@.skip(i as int)[0] == s@[i as int]);
        assert(s@.skip(i as int).drop_first() =~= s@.skip(i + 1));
        i = i + 1;
    }
    if i < s.len() {
        assert(s@.skip(i as int)[0] == s@[i as int]);
    }
    i
}

/// The number of trailing white-space characters of `s`.
fn count_trailing_ws(s: &Vec<char>) -> (r: usize)
    ensures
        r == trailing_ws(s@),
{
    let mut n: usize = 0;
    assert(s@.take(s@.len() as int) =~= s@);
    while n < s.len() && is_whitespace_exec(s[s.len() - 1 - n])
        invariant
            n <= s@.len(),
            trailing_ws(s@) == n + trailing_ws(s@.take(s@.len() - n)),
        decreases s.len() - n,
    {
        let ghost t = s@.take(s@.len() - n);
        assert(t.last() == s@[s@.len() - 1 - n]);
        assert(t.drop_last() =~= s@.take(s@.len() - n - 1));
        n = n + 1;
    }
    if n < s.len() {
        assert(s@.take(s@.len() - n).last() == s@[s@.len() - 1 - n]);
    }
    n
}

/// `s` without leading and trailing white space.
pub fn trim_str(s: &str) -> (r: String)
    ensures
        r@ == trim(s@),
{
    let cs = chars_of(s);
    let out = trim_chars(&cs);
    string_of(&out)
}

/// `cs` without leading and trailing white space.
pub fn trim_chars(cs: &Vec<char>) -> (r: Vec<char>)
    ensures
        r@ == trim(cs@),
{
    let a = count_leading_ws(cs);
    proof {
        lemma_leading_ws_bound(cs@);
    }
    let rest = slice_chars(cs, a, cs.len());
    assert(rest@ =~= cs@.skip(a as int));
    let b = count_trailing_ws(&rest);
    proof {
        lemma_trailing_ws_bound(rest@);
    }
    let out = slice_chars(&rest, 0, rest.len() - b);
    assert(out@ =~= rest@.take(rest@.len() - b));
    out
}

/// `s` with every leading repetition of `p` removed.
pub fn strip_all_chars(s: &Vec<char>, p: &Vec<char>) -> (r: Vec<char>)
    ensures
        r@ == strip_all(s@, p@),
{
    if p.len() == 0 {
        return slice_chars(s, 0, s.len());
    }
    let mut i: usize = 0;
    assert(s@.skip(0) =~= s@);
    loop
        invariant
            i <= s@.len(),
            p@.len() > 0,
            strip_all(s@, p@) == strip_all(s@.skip(i as int), p@),
        decreases s.len() - i,
    {
        let here = matches_at(s, p, i);
        proof {
            if i + p@.len() <= s@.len() {
                assert(s@.skip(i as int).take(p@.len() as int) =~= s@.subrange(i as int, i + p@.len()));
            }
        }
        if !here {
            let r = slice_chars(s, i, s.len());
            assert(r@ =~= s@.skip(i as int));
            return r;
        }
        assert(s@.skip(i as int).skip(p@.len() as int) =~= s@.skip(i + p@.len()));
        i = i + p.len();
    }
}

} // verus!

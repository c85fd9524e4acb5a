//! Matching of Rust path prefixes at segment boundaries.
use vstd::prelude::*;

verus! {

/// The characters that may follow a path prefix for the prefix to count as a
/// whole path (a segment separator, generic arguments, a call, ...).
pub open spec fn is_path_boundary(ch: char) -> bool {
    ch == ':' || ch == '<' || ch == '(' || ch == '!' || ch == '[' || ch == ','
        || ch == ' ' || ch == '&'
}

/// `candidate` starts with `prefix`, and the prefix ends where a path
/// segment ends.
pub open spec fn prefix_matches(candidate: Seq<char>, prefix: Seq<char>) -> bool {
    &&& prefix.len() <= candidate.len()
    &&& candidate.subrange(0, prefix.len() as int) == prefix
    &&& (candidate.len() == prefix.len() || is_path_boundary(candidate[prefix.len() as int]))
}

/// A path names a prefix when it is the prefix itself, or goes on past it
/// with `::`, generic arguments, a call, a macro's `!`, an index, a comma, a
/// space or `&`; a longer identifier that merely starts with the prefix (a
/// letter, digit or underscore follows) does not, and neither does a path
/// that does not start with it.
pub proof fn path_prefix_law(p: Seq<char>, rest: Seq<char>, c: char, other: Seq<char>)
    ensures
        prefix_matches(p, p),
        (c == ':' || c == '<' || c == '(' || c == '!' || c == '[' || c == ',' || c == ' ' || c == '&')
            ==> prefix_matches(p + seq![c] + rest, p),
        (('a' <= c && c <= 'z') || ('A' <= c && c <= 'Z') || ('0' <= c && c <= '9') || c == '_')
            ==> !prefix_matches(p + seq![c] + rest, p),
        other.len() >= p.len() && other.take(p.len() as int) != p ==> !prefix_matches(other, p),
{
    assert(p.subrange(0, p.len() as int) =~= p);
    let q = p + seq![c] + rest;
    assert(q.subrange(0, p.len() as int) =~= p);
    assert(q[p.len() as int] == c);
    assert(other.subrange(0, p.len() as int) == other.take(p.len() as int));
}

fn is_path_boundary_exec(ch: char) -> (r: bool)
    ensures
        r == is_path_boundary(ch),
{
    ch == ':' || ch == '<' || ch == '(' || ch == '!' || ch == '[' || ch == ',' || ch == ' '
        || ch == '&'
}

/// Whether `candidate` names the path `prefix` or something inside it.
pub fn matches_path_prefix(candidate: &str, prefix: &str) -> (r: bool)
    ensures
        r == prefix_matches(candidate@, prefix@),
{
    let c = crate::text::chars_of(candidate);
    let p = crate::text::chars_of(prefix);
    if p.len() > c.len() {
        return false;
    }
    let mut i: usize = 0;
    while i < p.len()
        invariant
            p@ == prefix@,
            c@ == candidate@,
            p.len() <= c.len(),
            i <= p.len(),
            forall|j: int| 0 <= j < i ==> c@[j] == p@[j],
        decreases p.len() - i,
    {
        if c[i] != p[i] {
            assert(c@.subrange(0, p.len() as int)[i as int] != p@[i as int]);
            return false;
        }
        i = i + 1;
    }
    assert(c@.subrange(0, p.len() as int) =~= p@);
    if c.len() == p.len() {
        return true;
    }
    is_path_boundary_exec(c[p.len()])
}

} // verus!

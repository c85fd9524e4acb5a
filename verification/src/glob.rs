//! Glob matching of workspace paths, through the `globset` crate.
use vstd::prelude::*;
use crate::config::read::views;

verus! {

/// Whether `globset::Glob::new` accepts `pattern`.
pub uninterp spec fn glob_compiles(pattern: Seq<char>) -> bool;

/// Whether `globset::GlobSetBuilder::build` succeeds once the glob of each of
/// `patterns` has been added.
pub uninterp spec fn globset_builds(patterns: Seq<Seq<char>>) -> bool;

/// What `globset::GlobSet::is_match` answers for `candidate` on the set built
/// from `patterns`. The answer is that of the target the library is built
/// for: on Windows `globset` reads each backslash of a candidate as `/` first, elsewhere
/// it reads the candidate as it is.
pub uninterp spec fn globset_is_match(patterns: Seq<Seq<char>>, candidate: Seq<char>) -> bool;

/// Every pattern compiles.
pub open spec fn all_compile(patterns: Seq<Seq<char>>) -> bool {
    forall|i: int| 0 <= i < patterns.len() ==> glob_compiles(#[trigger] patterns[i])
}

/// `globset::Glob::new`: whether it accepts `pattern`, named by `glob_compiles`.
#[verifier::external_body]
pub(crate) fn glob_valid(pattern: &str) -> (r: bool)
    ensures
        r == glob_compiles(pattern@),
{
    globset::Glob::new(pattern).is_ok()
}

/// `globset::GlobSetBuilder::build`, after each pattern has been compiled with
/// `Glob::new` and added with `GlobSetBuilder::add`: whether the set builds,
/// named by `globset_builds`. The source builds the empty set when no glob was
/// added, so a builder with no pattern always succeeds.
#[verifier::external_body]
pub(crate) fn globset_valid(patterns: &Vec<String>) -> (r: bool)
    requires
        all_compile(views(patterns@)),
    ensures
        r == globset_builds(views(patterns@)),
        patterns@.len() == 0 ==> r,
{
    let mut builder = globset::GlobSetBuilder::new();
    for p in patterns.iter() {
        if let Ok(glob) = globset::Glob::new(p) {
            builder.add(glob);
        }
    }
    builder.build().is_ok()
}

/// `globset::GlobSet::is_match` of `candidate` on the set built, as by
/// [`globset_valid`], from `patterns`; the answer is named by
/// `globset_is_match`. The source documents that an empty set matches nothing.
#[verifier::external_body]
pub(crate) fn globset_matches(patterns: &Vec<String>, candidate: &str) -> (r: bool)
    requires
        all_compile(views(patterns@)),
        globset_builds(views(patterns@)),
    ensures
        r == globset_is_match(views(patterns@), candidate@),
        patterns@.len() == 0 ==> !r,
{
    let mut builder = globset::GlobSetBuilder::new();
    for p in patterns.iter() {
        if let Ok(glob) = globset::Glob::new(p) {
            builder.add(glob);
        }
    }
    match builder.build() {
        Ok(set) => set.is_match(candidate),
        Err(_) => false,
    }
}

/// The patterns that compile, in order.
pub open spec fn compiling(patterns: Seq<Seq<char>>) -> Seq<Seq<char>>
    decreases patterns.len(),
{
    if patterns.len() == 0 {
        Seq::empty()
    } else if glob_compiles(patterns.last()) {
        compiling(patterns.drop_last()).push(patterns.last())
    } else {
        compiling(patterns.drop_last())
    }
}

proof fn lemma_compiling_compile(patterns: Seq<Seq<char>>)
    ensures
        all_compile(compiling(patterns)),
        compiling(patterns).len() <= patterns.len(),
    decreases patterns.len(),
{
    if patterns.len() > 0 {
        lemma_compiling_compile(patterns.drop_last());
    }
}

/// The patterns of `patterns` that `Glob::new` accepts, in order.
fn compiling_globs(patterns: &Vec<String>) -> (r: Vec<String>)
    ensures
        views(r@) == compiling(views(patterns@)),
        all_compile(views(r@)),
{
    let ghost ps = views(patterns@);
    let mut out: Vec<String> = Vec::new();
    let mut i: usize = 0;
    while i < patterns.len()
        invariant
            i <= patterns@.len(),
            ps == views(patterns@),
            views(out@) == compiling(ps.take(i as int)),
        decreases patterns.len() - i,
    {
        assert(ps.take(i + 1).drop_last() =~= ps.take(i as int));
        assert(ps.take(i + 1).last() == patterns@[i as int]@);
        if glob_valid(patterns[i].as_str()) {
            let ghost before = out@;
            out.push(patterns[i].clone());
            assert(views(out@) =~= views(before).push(patterns@[i as int]@));
        }
        i = i + 1;
    }
    assert(ps.take(ps.len() as int) =~= ps);
    proof {
        lemma_compiling_compile(ps);
    }
    out
}

/// Whether every pattern compiles.
fn all_globs_compile(patterns: &Vec<String>) -> (r: bool)
    ensures
        r == all_compile(views(patterns@)),
{
    let ghost ps = views(patterns@);
    let mut i: usize = 0;
    while i < patterns.len()
        invariant
            i <= patterns@.len(),
            ps == views(patterns@),
            forall|j: int| 0 <= j < i ==> glob_compiles(#[trigger] ps[j]),
        decreases patterns.len() - i,
    {
        assert(ps[i as int] == patterns@[i as int]@);
        if !glob_valid(patterns[i].as_str()) {
            return false;
        }
        i = i + 1;
    }
    true
}

/// The set of the patterns that compile matches `candidate`; patterns that do
/// not compile are left out, and a set that does not build matches nothing.
pub open spec fn lenient_match(patterns: Seq<Seq<char>>, candidate: Seq<char>) -> bool {
    let v = compiling(patterns);
    globset_builds(v) && globset_is_match(v, candidate)
}

/// Whether the set of the patterns that compile matches `candidate`.
pub fn lenient_globs_match(patterns: &Vec<String>, candidate: &str) -> (r: bool)
    ensures
        r == lenient_match(views(patterns@), candidate@),
{
    let v = compiling_globs(patterns);
    globset_valid(&v) && globset_matches(&v, candidate)
}

/// Every pattern compiles, the set builds, and it matches `candidate`.
pub open spec fn strict_match(patterns: Seq<Seq<char>>, candidate: Seq<char>) -> bool {
    all_compile(patterns) && globset_builds(patterns) && globset_is_match(patterns, candidate)
}

/// Whether every pattern compiles, the set builds and it matches `candidate`.
pub fn strict_globs_match(patterns: &Vec<String>, candidate: &str) -> (r: bool)
    ensures
        r == strict_match(views(patterns@), candidate@),
{
    all_globs_compile(patterns) && globset_valid(patterns) && globset_matches(patterns, candidate)
}

} // verus!

//! Which workspace files a check reads.
use vstd::prelude::*;
use vstd::string::*;
use crate::config::policy::Policy;
use crate::config::read::views;
use crate::glob::{all_compile, glob_compiles, glob_valid, globset_builds, globset_is_match, globset_matches, globset_valid};

verus! {

/// Why the workspace's files could not be gathered.
#[derive(Debug)]
pub enum DiscoverError {
    /// A glob of the policy's workspace section does not compile.
    Glob { pattern: String },
    /// A source file could not be read.
    Read { path: String, message: String },
}

/// The index of the first pattern that does not compile, if any.
pub open spec fn first_bad_glob(patterns: Seq<Seq<char>>) -> Option<int>
    decreases patterns.len(),
{
    if patterns.len() == 0 {
        None
    } else {
        match first_bad_glob(patterns.drop_last()) {
            Some(i) => Some(i),
            None => if !glob_compiles(patterns.last()) {
                Some(patterns.len() - 1)
            } else {
                None
            },
        }
    }
}

/// Every pattern compiles, or the first one that does not is reported.
pub fn check_globs(patterns: &Vec<String>) -> (r: Result<(), DiscoverError>)
    ensures
        match first_bad_glob(views(patterns@)) {
            None => r is Ok,
            Some(i) => r matches Err(DiscoverError::Glob { pattern }) && 0 <= i < patterns@.len()
                && pattern@ == patterns@[i]@,
        },
{
    let ghost ps = views(patterns@);
    let mut i: usize = 0;
    while i < patterns.len()
        invariant
            i <= patterns@.len(),
            ps == views(patterns@),
            first_bad_glob(ps.take(i as int)) is None,
        decreases patterns.len() - i,
    {
        assert(ps.take(i + 1).drop_last() =~= ps.take(i as int));
        if !glob_valid(patterns[i].as_str()) {
            proof {
                lemma_first_bad_prefix(ps, (i + 1) as int);
            }
            return Err(DiscoverError::Glob { pattern: patterns[i].clone() });
        }
        i = i + 1;
    }
    assert(ps.take(ps.len() as int) =~= ps);
    Ok(())
}

proof fn lemma_first_bad_prefix(ps: Seq<Seq<char>>, n: int)
    requires
        0 < n <= ps.len(),
        first_bad_glob(ps.take(n)) == Some(n - 1),
    ensures
        first_bad_glob(ps) == Some(n - 1),
    decreases ps.len(),
{
    if ps.len() > n {
        assert(ps.drop_last().take(n) =~= ps.take(n));
        lemma_first_bad_prefix(ps.drop_last(), n);
    } else {
        assert(ps.take(n) =~= ps);
    }
}

/// The file name of a `/`-separated path: what follows its last `/`.
pub open spec fn file_name(path: Seq<char>) -> Seq<char>
    decreases path.len(),
{
    if path.len() == 0 {
        path
    } else if path.last() == '/' {
        Seq::empty()
    } else {
        file_name(path.drop_last()).push(path.last())
    }
}

/// The path's extension is `rs`: its file name ends in `.rs` after at least
/// one other character.
pub open spec fn has_rs_extension(path: Seq<char>) -> bool {
    let n = file_name(path);
    n.len() > 3 && n.subrange(n.len() - 3, n.len() as int) == seq!['.', 'r', 's']
}

fn rs_extension(path: &str) -> (r: bool)
    ensures
        r == has_rs_extension(path@),
{
    let cs = crate::text::chars_of(path);
    let mut start: usize = 0;
    let mut i: usize = 0;
    while i < cs.len()
        invariant
            i <= cs@.len(),
            start <= i,
            cs@ == path@,
            file_name(cs@.take(i as int)) == cs@.subrange(start as int, i as int),
        decreases cs.len() - i,
    {
        assert(cs@.take(i + 1).drop_last() =~= cs@.take(i as int));
        if cs[i] == '/' {
            start = i + 1;
            assert(cs@.subrange(start as int, (i + 1) as int) =~= Seq::<char>::empty());
        } else {
            assert(cs@.subrange(start as int, (i + 1) as int) =~= cs@.subrange(start as int, i as int).push(cs@[i as int]));
        }
        i = i + 1;
    }
    assert(cs@.take(cs@.len() as int) =~= cs@);
    let n = cs.len() - start;
    if n <= 3 {
        return false;
    }
    let ghost name = cs@.subrange(start as int, cs@.len() as int);
    let r = cs[cs.len() - 3] == '.' && cs[cs.len() - 2] == 'r' && cs[cs.len() - 1] == 's';
    assert(name.subrange(name.len() - 3, name.len() as int) =~= seq![cs@[cs@.len() - 3], cs@[cs@.len() - 2], cs@[cs@.len() - 1]]);
    r
}

proof fn lemma_no_bad_glob(ps: Seq<Seq<char>>)
    requires
        first_bad_glob(ps) is None,
    ensures
        all_compile(ps),
    decreases ps.len(),
{
    if ps.len() > 0 {
        lemma_no_bad_glob(ps.drop_last());
        assert forall|i: int| 0 <= i < ps.len() implies glob_compiles(#[trigger] ps[i]) by {
            if i < ps.len() - 1 {
                assert(ps[i] == ps.drop_last()[i]);
            }
        }
    }
}

/// What is reported of a list of globs: its first pattern that does not
/// compile, or `<globset>` when they all compile but the set does not build.
pub open spec fn glob_problem(patterns: Seq<Seq<char>>) -> Option<Seq<char>> {
    match first_bad_glob(patterns) {
        Some(i) => Some(patterns[i]),
        None => if globset_builds(patterns) {
            None
        } else {
            Some("<globset>"@)
        },
    }
}

/// What is reported of the workspace globs: the problem of the include globs,
/// else that of the exclude globs.
pub open spec fn workspace_glob_problem(policy: Policy) -> Option<Seq<char>> {
    match glob_problem(views(policy.workspace.include_globs@)) {
        Some(p) => Some(p),
        None => glob_problem(views(policy.workspace.exclude_globs@)),
    }
}

/// The workspace's include and exclude globs all compile and both sets build.
pub open spec fn workspace_globs_ok(policy: Policy) -> bool {
    &&& all_compile(views(policy.workspace.include_globs@))
    &&& globset_builds(views(policy.workspace.include_globs@))
    &&& all_compile(views(policy.workspace.exclude_globs@))
    &&& globset_builds(views(policy.workspace.exclude_globs@))
}

fn check_globset(patterns: &Vec<String>) -> (r: Result<(), DiscoverError>)
    ensures
        match glob_problem(views(patterns@)) {
            Some(p) => r matches Err(DiscoverError::Glob { pattern }) && pattern@ == p,
            None => r is Ok && all_compile(views(patterns@)) && globset_builds(views(patterns@)),
        },
{
    match check_globs(patterns) {
        Err(e) => return Err(e),
        Ok(()) => {},
    }
    proof {
        lemma_no_bad_glob(views(patterns@));
    }
    if globset_valid(patterns) {
        Ok(())
    } else {
        Err(DiscoverError::Glob { pattern: String::from_str("<globset>") })
    }
}

/// The workspace globs of the policy compile and build, or the first problem
/// of the include globs, then of the exclude globs, is reported.
pub fn check_workspace_globs(policy: &Policy) -> (r: Result<(), DiscoverError>)
    ensures
        match workspace_glob_problem(*policy) {
            Some(p) => r matches Err(DiscoverError::Glob { pattern }) && pattern@ == p,
            None => r is Ok,
        },
        r is Ok ==> workspace_globs_ok(*policy),
{
    match check_globset(&policy.workspace.include_globs) {
        Err(e) => return Err(e),
        Ok(()) => {},
    }
    check_globset(&policy.workspace.exclude_globs)
}

/// A file of the workspace, at `rel` below its root, is read when the include
/// set matches it, the exclude set does not, and it is a Rust file.
pub open spec fn spec_should_load(policy: Policy, rel: Seq<char>) -> bool {
    globset_is_match(views(policy.workspace.include_globs@), rel) && !globset_is_match(
        views(policy.workspace.exclude_globs@),
        rel,
    ) && has_rs_extension(rel)
}

pub fn should_load(policy: &Policy, rel: &str) -> (r: bool)
    requires
        workspace_globs_ok(*policy),
    ensures
        r == spec_should_load(*policy, rel@),
{
    globset_matches(&policy.workspace.include_globs, rel) && !globset_matches(&policy.workspace.exclude_globs, rel)
        && rs_extension(rel)
}

/// The paths of `rels` that a check reads, in order.
pub open spec fn selected(policy: Policy, rels: Seq<Seq<char>>) -> Seq<Seq<char>>
    decreases rels.len(),
{
    if rels.len() == 0 {
        Seq::empty()
    } else if spec_should_load(policy, rels.last()) {
        selected(policy, rels.drop_last()).push(rels.last())
    } else {
        selected(policy, rels.drop_last())
    }
}

/// Of the workspace's files, at the paths `rels` below its root in the order
/// they were found, the ones a check reads; the workspace globs are checked
/// first, and a problem with them is reported before any file is looked at.
pub fn select_files(policy: &Policy, rels: &Vec<String>) -> (r: Result<Vec<String>, DiscoverError>)
    ensures
        match workspace_glob_problem(*policy) {
            Some(p) => r matches Err(DiscoverError::Glob { pattern }) && pattern@ == p,
            None => r matches Ok(v) && views(v@) == selected(*policy, views(rels@)),
        },
{
    match check_workspace_globs(policy) {
        Err(e) => return Err(e),
        Ok(()) => {},
    }
    let ghost rs = views(rels@);
    let mut out: Vec<String> = Vec::new();
    let mut i: usize = 0;
    while i < rels.len()
        invariant
            i <= rels@.len(),
            rs == views(rels@),
            workspace_globs_ok(*policy),
            views(out@) == selected(*policy, rs.take(i as int)),
        decreases rels.len() - i,
    {
        assert(rs.take(i + 1).drop_last() =~= rs.take(i as int));
        assert(rs.take(i + 1).last() == rels@[i as int]@);
        if should_load(policy, rels[i].as_str()) {
            let ghost before = out@;
            out.push(rels[i].clone());
            assert(views(out@) =~= views(before).push(rels@[i as int]@));
        }
        i = i + 1;
    }
    assert(rs.take(rs.len() as int) =~= rs);
    Ok(out)
}

} // verus!

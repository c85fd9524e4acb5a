//! Choosing which suggested edits of a report to apply, file by file.
use vstd::prelude::*;
use crate::report::{Finding, Fix, FixSafety, Report, TextEdit};
use crate::fix::{FixError, apply_edits_spec, apply_text_edits, utf8};
use vstd::string::*;
use crate::config::value::{
    lemma_str_lt_asym, lemma_str_lt_irrefl, lemma_str_lt_total, lemma_str_lt_trans, str_eq, str_lt,
    str_lt_exec,
};

verus! {

/// An edit with the fix it comes from.
#[derive(Debug)]
pub struct EditWithMeta {
    pub safety: FixSafety,
    pub fix_id: String,
    pub edit: TextEdit,
}

impl EditWithMeta {
    fn duplicate(&self) -> (r: EditWithMeta)
        ensures
            r == *self,
    {
        EditWithMeta { safety: self.safety, fix_id: self.fix_id.clone(), edit: self.edit.duplicate() }
    }
}

/// Safe fixes come before unsafe ones.
pub open spec fn safety_rank(s: FixSafety) -> int {
    match s {
        FixSafety::Safe => 2,
        FixSafety::Unsafe => 1,
    }
}

pub open spec fn meta_of(fix: Fix, e: TextEdit) -> EditWithMeta {
    EditWithMeta { safety: fix.safety, fix_id: fix.id, edit: e }
}

/// The edits of one fix, each with the fix's safety and id.
pub open spec fn fix_cands(fix: Fix) -> Seq<EditWithMeta> {
    fix.edits@.map_values(|e: TextEdit| meta_of(fix, e))
}

/// An unsafe fix is left out unless unsafe fixes are wanted.
pub open spec fn left_out(fix: Fix, include_unsafe: bool) -> bool {
    fix.safety == FixSafety::Unsafe && !include_unsafe
}

/// The edits of the fixes that are not left out, in order.
pub open spec fn finding_cands(fixes: Seq<Fix>, include_unsafe: bool) -> Seq<EditWithMeta>
    decreases fixes.len(),
{
    if fixes.len() == 0 {
        Seq::empty()
    } else {
        finding_cands(fixes.drop_last(), include_unsafe) + if left_out(fixes.last(), include_unsafe) {
            Seq::empty()
        } else {
            fix_cands(fixes.last())
        }
    }
}

/// Every candidate edit of the findings, in order.
pub open spec fn report_cands(findings: Seq<Finding>, include_unsafe: bool) -> Seq<EditWithMeta>
    decreases findings.len(),
{
    if findings.len() == 0 {
        Seq::empty()
    } else {
        report_cands(findings.drop_last(), include_unsafe) + finding_cands(
            findings.last().related.fixes@,
            include_unsafe,
        )
    }
}

/// The order in which candidates are considered: safe first, then by start,
/// end, and fix id.
pub open spec fn meta_lt(a: EditWithMeta, b: EditWithMeta) -> bool {
    safety_rank(a.safety) > safety_rank(b.safety) || (safety_rank(a.safety) == safety_rank(b.safety) && (
    a.edit.byte_start < b.edit.byte_start || (a.edit.byte_start == b.edit.byte_start && (a.edit.byte_end
        < b.edit.byte_end || (a.edit.byte_end == b.edit.byte_end && str_lt(a.fix_id@, b.fix_id@))))))
}

/// `e` inserted into `s` before the first element that it sorts strictly before.
pub open spec fn insert_sorted(s: Seq<EditWithMeta>, e: EditWithMeta) -> Seq<EditWithMeta>
    decreases s.len(),
{
    if s.len() == 0 {
        seq![e]
    } else if meta_lt(e, s[0]) {
        seq![e] + s
    } else {
        seq![s[0]] + insert_sorted(s.drop_first(), e)
    }
}

/// The candidates sorted by [`meta_lt`], ties in their given order.
pub open spec fn sort_metas(s: Seq<EditWithMeta>) -> Seq<EditWithMeta>
    decreases s.len(),
{
    if s.len() == 0 {
        s
    } else {
        insert_sorted(sort_metas(s.drop_last()), s.last())
    }
}

/// Two edits touch a common byte range.
pub open spec fn overlaps(a: TextEdit, b: TextEdit) -> bool {
    !(a.byte_end <= b.byte_start || b.byte_end <= a.byte_start)
}

/// The candidates taken in order, each kept unless it overlaps one kept before.
pub open spec fn greedy(s: Seq<EditWithMeta>) -> Seq<EditWithMeta>
    decreases s.len(),
{
    if s.len() == 0 {
        s
    } else {
        let c = greedy(s.drop_last());
        let e = s.last();
        if exists|k: int| 0 <= k < c.len() && overlaps(e.edit, #[trigger] c[k].edit) {
            c
        } else {
            c.push(e)
        }
    }
}

/// The candidates for file `f`, in order.
pub open spec fn file_cands(c: Seq<EditWithMeta>, f: Seq<char>) -> Seq<EditWithMeta> {
    c.filter(in_file(f))
}

/// The candidate is an edit of file `f`.
pub open spec fn in_file(f: Seq<char>) -> spec_fn(EditWithMeta) -> bool {
    |m: EditWithMeta| m.edit.file@ == f
}

/// The edits chosen for file `f`.
pub open spec fn chosen_for(c: Seq<EditWithMeta>, f: Seq<char>) -> Seq<TextEdit> {
    greedy(sort_metas(file_cands(c, f))).map_values(|m: EditWithMeta| m.edit)
}

/// The edits chosen for one file.
#[derive(Debug)]
pub struct FileEdits {
    pub file: String,
    pub edits: Vec<TextEdit>,
}

/// The edits chosen for each file, files in ascending order.
#[derive(Debug)]
pub struct PlannedEdits {
    pub by_file: Vec<FileEdits>,
}

impl PlannedEdits {
    /// No file has an edit.
    pub fn is_empty(&self) -> (r: bool)
        ensures
            r == forall|i: int| 0 <= i < self.by_file@.len() ==> (#[trigger] self.by_file@[i]).edits@.len() == 0,
    {
        let mut i: usize = 0;
        while i < self.by_file.len()
            invariant
                i <= self.by_file@.len(),
                forall|j: int| 0 <= j < i ==> (#[trigger] self.by_file@[j]).edits@.len() == 0,
            decreases self.by_file.len() - i,
        {
            if self.by_file[i].edits.len() > 0 {
                return false;
            }
            i = i + 1;
        }
        true
    }
}

/// Some candidate is an edit of file `f`.
#[verifier::opaque]
pub open spec fn cand_file(c: Seq<EditWithMeta>, f: Seq<char>) -> bool {
    exists|k: int| 0 <= k < c.len() && #[trigger] c[k].edit.file@ == f
}

/// The plan has an entry for file `f`.
#[verifier::opaque]
pub open spec fn planned_file(p: Seq<FileEdits>, f: Seq<char>) -> bool {
    exists|g: int| 0 <= g < p.len() && #[trigger] p[g].file@ == f
}

/// What [`plan_edits`] promises of its result for the candidates `c`: one entry
/// per file that has a candidate, files strictly ascending, and for each file
/// the edits [`chosen_for`] it.
pub open spec fn is_plan_of(p: Seq<FileEdits>, c: Seq<EditWithMeta>) -> bool {
    &&& forall|g: int| 0 <= g < p.len() ==> (#[trigger] p[g]).edits@ == chosen_for(c, p[g].file@)
    &&& forall|g: int| 0 <= g < p.len() ==> cand_file(c, (#[trigger] p[g]).file@)
    &&& forall|k: int| 0 <= k < c.len() ==> planned_file(p, (#[trigger] c[k]).edit.file@)
    &&& forall|g1: int, g2: int| 0 <= g1 < g2 < p.len() ==> str_lt(p[g1].file@, p[g2].file@)
}

fn rank(s: FixSafety) -> (r: u8)
    ensures
        r == safety_rank(s),
{
    match s {
        FixSafety::Safe => 2,
        FixSafety::Unsafe => 1,
    }
}

fn meta_lt_exec(a: &EditWithMeta, b: &EditWithMeta) -> (r: bool)
    ensures
        r == meta_lt(*a, *b),
{
    let ra = rank(a.safety);
    let rb = rank(b.safety);
    if ra != rb {
        return ra > rb;
    }
    if a.edit.byte_start != b.edit.byte_start {
        return a.edit.byte_start < b.edit.byte_start;
    }
    if a.edit.byte_end != b.edit.byte_end {
        return a.edit.byte_end < b.edit.byte_end;
    }
    str_lt_exec(a.fix_id.as_str(), b.fix_id.as_str())
}

fn overlaps_exec(a: &TextEdit, b: &TextEdit) -> (r: bool)
    ensures
        r == overlaps(*a, *b),
{
    !(a.byte_end <= b.byte_start || b.byte_end <= a.byte_start)
}

/// Every candidate edit of the report, in order of findings, fixes and edits.
fn collect_candidates(report: &Report, include_unsafe: bool) -> (r: Vec<EditWithMeta>)
    ensures
        r@ == report_cands(report.findings@, include_unsafe),
{
    let mut out: Vec<EditWithMeta> = Vec::new();
    let mut i: usize = 0;
    while i < report.findings.len()
        invariant
            i <= report.findings@.len(),
            out@ == report_cands(report.findings@.take(i as int), include_unsafe),
        decreases report.findings.len() - i,
    {
        let fixes = report.findings[i].fixes();
        let ghost base = out@;
        assert(report.findings@.take(i + 1).drop_last() =~= report.findings@.take(i as int));
        assert(out@ =~= base + finding_cands(fixes@.take(0), include_unsafe));
        let mut j: usize = 0;
        while j < fixes.len()
            invariant
                j <= fixes@.len(),
                out@ == base + finding_cands(fixes@.take(j as int), include_unsafe),
            decreases fixes.len() - j,
        {
            let fix = &fixes[j];
            assert(fixes@.take(j + 1).drop_last() =~= fixes@.take(j as int));
            let ghost mid = out@;
            if !(fix.safety == FixSafety::Unsafe && !include_unsafe) {
                let mut k: usize = 0;
                while k < fix.edits.len()
                    invariant
                        k <= fix.edits@.len(),
                        out@ == mid + fix_cands(*fix).take(k as int),
                    decreases fix.edits.len() - k,
                {
                    let m = EditWithMeta { safety: fix.safety, fix_id: fix.id.clone(), edit: fix.edits[k].duplicate() };
                    assert(m == meta_of(*fix, fix.edits@[k as int]));
                    out.push(m);
                    assert(fix_cands(*fix).take(k + 1) =~= fix_cands(*fix).take(k as int).push(m));
                    assert(out@ =~= mid + fix_cands(*fix).take(k + 1));
                    k = k + 1;
                }
                assert(fix_cands(*fix).take(fix.edits@.len() as int) =~= fix_cands(*fix));
                assert(out@ =~= base + finding_cands(fixes@.take(j + 1), include_unsafe));
            } else {
                assert(out@ =~= base + finding_cands(fixes@.take(j + 1), include_unsafe));
            }
            j = j + 1;
        }
        assert(fixes@.take(fixes@.len() as int) =~= fixes@);
        assert(report.findings@.take(i + 1).last() == report.findings@[i as int]);
        i = i + 1;
    }
    assert(report.findings@.take(report.findings@.len() as int) =~= report.findings@);
    out
}

proof fn lemma_insert_sorted_at(s: Seq<EditWithMeta>, e: EditWithMeta, i: int)
    requires
        0 <= i <= s.len(),
        forall|j: int| 0 <= j < i ==> !meta_lt(e, #[trigger] s[j]),
        i < s.len() ==> meta_lt(e, s[i]),
    ensures
        insert_sorted(s, e) == s.insert(i, e),
    decreases s.len(),
{
    if s.len() == 0 {
        assert(s.insert(i, e) =~= seq![e]);
    } else if i == 0 {
        assert(s.insert(0, e) =~= seq![e] + s);
    } else {
        let t = s.drop_first();
        assert forall|j: int| 0 <= j < i - 1 implies !meta_lt(e, #[trigger] t[j]) by {
            assert(t[j] == s[j + 1]);
        }
        lemma_insert_sorted_at(t, e, i - 1);
        assert(seq![s[0]] + t.insert(i - 1, e) =~= s.insert(i, e));
    }
}

/// The candidates sorted by [`meta_lt`], ties in their given order.
fn sorted_metas(c: &Vec<EditWithMeta>) -> (r: Vec<EditWithMeta>)
    ensures
        r@ == sort_metas(c@),
{
    let mut out: Vec<EditWithMeta> = Vec::new();
    let mut i: usize = 0;
    while i < c.len()
        invariant
            i <= c@.len(),
            out@ == sort_metas(c@.take(i as int)),
        decreases c.len() - i,
    {
        let e = c[i].duplicate();
        let mut j: usize = 0;
        while j < out.len() && !meta_lt_exec(&e, &out[j])
            invariant
                j <= out@.len(),
                forall|k: int| 0 <= k < j ==> !meta_lt(e, #[trigger] out@[k]),
            decreases out.len() - j,
        {
            j = j + 1;
        }
        proof {
            lemma_insert_sorted_at(out@, e, j as int);
            assert(c@.take(i + 1).drop_last() =~= c@.take(i as int));
            assert(c@.take(i + 1).last() == c@[i as int]);
        }
        out.insert(j, e);
        i = i + 1;
    }
    assert(c@.take(i as int) =~= c@);
    out
}

/// The greedy choice over sorted candidates.
fn choose_greedy(s: &Vec<EditWithMeta>) -> (r: Vec<EditWithMeta>)
    ensures
        r@ == greedy(s@),
{
    let mut chosen: Vec<EditWithMeta> = Vec::new();
    let mut i: usize = 0;
    while i < s.len()
        invariant
            i <= s@.len(),
            chosen@ == greedy(s@.take(i as int)),
        decreases s.len() - i,
    {
        let e = &s[i];
        assert(s@.take(i + 1).drop_last() =~= s@.take(i as int));
        assert(s@.take(i + 1).last() == s@[i as int]);
        let mut clash = false;
        let mut k: usize = 0;
        while k < chosen.len()
            invariant
                k <= chosen@.len(),
                clash <==> exists|q: int| 0 <= q < k && overlaps(e.edit, #[trigger] chosen@[q].edit),
            decreases chosen.len() - k,
        {
            if overlaps_exec(&e.edit, &chosen[k].edit) {
                clash = true;
            }
            k = k + 1;
        }
        if !clash {
            chosen.push(e.duplicate());
        }
        i = i + 1;
    }
    assert(s@.take(i as int) =~= s@);
    chosen
}

/// The groups of the candidates `c` seen so far: files strictly ascending,
/// each with its candidates in order, every file of `c` present.
/// Some group is for file `f`.
#[verifier::opaque]
spec fn group_file(gs: Seq<(String, Vec<EditWithMeta>)>, f: Seq<char>) -> bool {
    exists|g: int| 0 <= g < gs.len() && #[trigger] gs[g].0@ == f
}

#[verifier::opaque]
spec fn groups_of(gs: Seq<(String, Vec<EditWithMeta>)>, c: Seq<EditWithMeta>) -> bool {
    &&& forall|g: int| 0 <= g < gs.len() ==> (#[trigger] gs[g]).1@ == file_cands(c, gs[g].0@)
    &&& forall|g: int| 0 <= g < gs.len() ==> cand_file(c, (#[trigger] gs[g]).0@)
    &&& forall|k: int| 0 <= k < c.len() ==> group_file(gs, (#[trigger] c[k]).edit.file@)
    &&& forall|g1: int, g2: int| 0 <= g1 < g2 < gs.len() ==> str_lt(gs[g1].0@, gs[g2].0@)
}

proof fn lemma_filter_push(prev: Seq<EditWithMeta>, m: EditWithMeta, f: Seq<char>)
    ensures
        file_cands(prev.push(m), f) == if m.edit.file@ == f {
            file_cands(prev, f).push(m)
        } else {
            file_cands(prev, f)
        },
{
    reveal(Seq::filter);
    assert(prev.push(m).drop_last() =~= prev);
}

/// With no candidate of file `f`, there are no candidates for `f`.
proof fn lemma_no_cands(prev: Seq<EditWithMeta>, f: Seq<char>)
    requires
        forall|k: int| 0 <= k < prev.len() ==> (#[trigger] prev[k]).edit.file@ != f,
    ensures
        file_cands(prev, f) == Seq::<EditWithMeta>::empty(),
    decreases prev.len(),
{
    reveal(Seq::filter);
    if prev.len() > 0 {
        assert forall|k: int| 0 <= k < prev.drop_last().len() implies (#[trigger] prev.drop_last()[k]).edit.file@ != f by {
            assert(prev.drop_last()[k] == prev[k]);
        }
        lemma_no_cands(prev.drop_last(), f);
        assert(prev.last() == prev[prev.len() - 1]);
    }
}

/// Adding a candidate to the group of its file keeps the grouping.
#[verifier::rlimit(60)]
proof fn lemma_groups_extend(
    old: Seq<(String, Vec<EditWithMeta>)>,
    new: Seq<(String, Vec<EditWithMeta>)>,
    prev: Seq<EditWithMeta>,
    m: EditWithMeta,
    j: int,
)
    requires
        groups_of(old, prev),
        0 <= j < old.len(),
        old[j].0@ == m.edit.file@,
        new.len() == old.len(),
        forall|q: int| 0 <= q < old.len() && q != j ==> new[q] == old[q],
        new[j].0@ == old[j].0@,
        new[j].1@ == old[j].1@.push(m),
    ensures
        groups_of(new, prev.push(m)),
{
    reveal(groups_of);
    let next = prev.push(m);
    let f = m.edit.file@;
    assert forall|q: int| 0 <= q < new.len() implies (#[trigger] new[q]).1@ == file_cands(next, new[q].0@) by {
        lemma_filter_push(prev, m, new[q].0@);
        if q != j && old[q].0@ == f {
            if q < j {
                assert(str_lt(old[q].0@, old[j].0@));
            } else {
                assert(str_lt(old[j].0@, old[q].0@));
            }
            lemma_str_lt_irrefl(f);
        }
    }
    assert forall|g: int| 0 <= g < new.len() implies cand_file(next, (#[trigger] new[g]).0@) by {
        assert(cand_file(prev, old[g].0@));
        assert(new[g].0@ == old[g].0@);
        reveal(cand_file);
        let k = choose|k: int| 0 <= k < prev.len() && #[trigger] prev[k].edit.file@ == old[g].0@;
        assert(next[k] == prev[k]);
    }
    assert forall|k: int| 0 <= k < next.len() implies group_file(new, (#[trigger] next[k]).edit.file@) by {
        if k < prev.len() {
            assert(next[k] == prev[k]);
            assert(group_file(old, prev[k].edit.file@));
            reveal(group_file);
            let g = choose|g: int| 0 <= g < old.len() && #[trigger] old[g].0@ == prev[k].edit.file@;
            assert(new[g].0@ == old[g].0@);
        } else {
            reveal(group_file);
            assert(new[j].0@ == next[k].edit.file@);
        }
    }
    assert forall|g1: int, g2: int| 0 <= g1 < g2 < new.len() implies str_lt(new[g1].0@, new[g2].0@) by {
        assert(new[g1].0@ == old[g1].0@);
        assert(new[g2].0@ == old[g2].0@);
    }
}

/// Adding a candidate whose file has no group, as a new group at its place in
/// file order, keeps the grouping.
#[verifier::rlimit(60)]
proof fn lemma_groups_insert(
    old: Seq<(String, Vec<EditWithMeta>)>,
    prev: Seq<EditWithMeta>,
    m: EditWithMeta,
    j: int,
    entry: (String, Vec<EditWithMeta>),
)
    requires
        groups_of(old, prev),
        0 <= j <= old.len(),
        forall|q: int| 0 <= q < j ==> str_lt((#[trigger] old[q]).0@, m.edit.file@),
        j < old.len() ==> !str_lt(old[j].0@, m.edit.file@) && old[j].0@ != m.edit.file@,
        entry.0@ == m.edit.file@,
        entry.1@ == seq![m],
    ensures
        groups_of(old.insert(j, entry), prev.push(m)),
{
    reveal(groups_of);
    let new = old.insert(j, entry);
    let next = prev.push(m);
    let f = m.edit.file@;
    if j < old.len() {
        lemma_str_lt_total(old[j].0@, f);
    }
    assert forall|q: int| 0 <= q < old.len() implies (#[trigger] old[q]).0@ != f by {
        if q < j {
            lemma_str_lt_irrefl(f);
        } else if q > j {
            lemma_str_lt_trans(f, old[j].0@, old[q].0@);
            lemma_str_lt_irrefl(f);
        }
    }
    assert forall|k: int| 0 <= k < prev.len() implies (#[trigger] prev[k]).edit.file@ != f by {
        assert(group_file(old, prev[k].edit.file@));
        reveal(group_file);
        let g = choose|g: int| 0 <= g < old.len() && #[trigger] old[g].0@ == prev[k].edit.file@;
        assert(old[g].0@ != f);
    }
    lemma_no_cands(prev, f);
    assert forall|q: int| 0 <= q < new.len() implies (#[trigger] new[q]).1@ == file_cands(next, new[q].0@) by {
        lemma_filter_push(prev, m, new[q].0@);
        if q == j {
            assert(new[q] == entry);
            assert(entry.1@ =~= file_cands(prev, f).push(m));
        } else if q < j {
            assert(new[q] == old[q]);
        } else {
            assert(new[q] == old[q - 1]);
        }
    }
    assert forall|g1: int, g2: int| 0 <= g1 < g2 < new.len() implies str_lt(new[g1].0@, new[g2].0@) by {
        if g2 < j {
            assert(new[g1] == old[g1]);
            assert(new[g2] == old[g2]);
        } else if g2 == j {
            assert(new[g1] == old[g1]);
        } else if g1 > j {
            assert(new[g1] == old[g1 - 1]);
            assert(new[g2] == old[g2 - 1]);
        } else if g1 == j {
            assert(new[g2] == old[g2 - 1]);
            if g2 - 1 > j {
                lemma_str_lt_trans(f, old[j].0@, old[g2 - 1].0@);
            }
        } else {
            assert(new[g1] == old[g1]);
            assert(new[g2] == old[g2 - 1]);
            if g2 - 1 > j {
                lemma_str_lt_trans(f, old[j].0@, old[g2 - 1].0@);
            }
            lemma_str_lt_trans(old[g1].0@, f, old[g2 - 1].0@);
        }
    }
    assert forall|g: int| 0 <= g < new.len() implies cand_file(next, (#[trigger] new[g]).0@) by {
        if g == j {
            reveal(cand_file);
            assert(next[prev.len() as int].edit.file@ == new[g].0@);
        } else {
            let og = if g < j { g } else { g - 1 };
            assert(new[g] == old[og]);
            assert(cand_file(prev, old[og].0@));
            reveal(cand_file);
            let k = choose|k: int| 0 <= k < prev.len() && #[trigger] prev[k].edit.file@ == old[og].0@;
            assert(next[k] == prev[k]);
        }
    }
    assert forall|k: int| 0 <= k < next.len() implies group_file(new, (#[trigger] next[k]).edit.file@) by {
        if k < prev.len() {
            assert(next[k] == prev[k]);
            assert(group_file(old, prev[k].edit.file@));
            reveal(group_file);
            let og = choose|g: int| 0 <= g < old.len() && #[trigger] old[g].0@ == prev[k].edit.file@;
            if og < j {
                assert(new[og] == old[og]);
            } else {
                assert(new[og + 1] == old[og]);
            }
        } else {
            reveal(group_file);
            assert(new[j] == entry);
        }
    }
}

/// Add one candidate to the groups.
fn add_to_groups(groups: &mut Vec<(String, Vec<EditWithMeta>)>, m: EditWithMeta, Ghost(prev): Ghost<Seq<EditWithMeta>>)
    requires
        groups_of(old(groups)@, prev),
    ensures
        groups_of(final(groups)@, prev.push(m)),
{
    let mut j: usize = 0;
    while j < groups.len() && str_lt_exec(groups[j].0.as_str(), m.edit.file.as_str())
        invariant
            j <= groups@.len(),
            forall|q: int| 0 <= q < j ==> str_lt((#[trigger] groups@[q]).0@, m.edit.file@),
        decreases groups.len() - j,
    {
        j = j + 1;
    }
    let ghost old_groups = groups@;
    let ghost mm = m;
    if j < groups.len() && str_eq(groups[j].0.as_str(), m.edit.file.as_str()) {
        let mut g = groups.remove(j);
        assert(g == old_groups[j as int]);
        g.1.push(m);
        groups.insert(j, g);
        proof {
            assert forall|q: int| 0 <= q < old_groups.len() && q != j implies groups@[q] == old_groups[q] by {
                if q < j {
                    assert(groups@[q] == old_groups.remove(j as int)[q]);
                } else {
                    assert(groups@[q] == old_groups.remove(j as int)[q - 1]);
                }
            }
            lemma_groups_extend(old_groups, groups@, prev, mm, j as int);
        }
    } else {
        let fs = m.edit.file.clone();
        let mut v: Vec<EditWithMeta> = Vec::new();
        v.push(m);
        proof {
            assert(v@ =~= seq![mm]);
            lemma_groups_insert(old_groups, prev, mm, j as int, (fs, v));
        }
        groups.insert(j, (fs, v));
    }
}

/// The candidates grouped by file.
fn group_by_file(c: &Vec<EditWithMeta>) -> (r: Vec<(String, Vec<EditWithMeta>)>)
    ensures
        groups_of(r@, c@),
{
    let mut groups: Vec<(String, Vec<EditWithMeta>)> = Vec::new();
    let mut i: usize = 0;
    proof {
        reveal(groups_of);
        assert(c@.take(0) =~= Seq::<EditWithMeta>::empty());
    }
    while i < c.len()
        invariant
            i <= c@.len(),
            groups_of(groups@, c@.take(i as int)),
        decreases c.len() - i,
    {
        let m = c[i].duplicate();
        assert(c@.take(i + 1) =~= c@.take(i as int).push(m));
        add_to_groups(&mut groups, m, Ghost(c@.take(i as int)));
        i = i + 1;
    }
    assert(c@.take(c@.len() as int) =~= c@);
    groups
}

/// The plan built from the groups of the candidates is a plan of them.
proof fn lemma_plan_from_groups(out: Seq<FileEdits>, groups: Seq<(String, Vec<EditWithMeta>)>, c: Seq<EditWithMeta>)
    requires
        groups_of(groups, c),
        out.len() == groups.len(),
        forall|g: int| 0 <= g < out.len() ==> (#[trigger] out[g]).file@ == groups[g].0@,
        forall|g: int| 0 <= g < out.len() ==> (#[trigger] out[g]).edits@ == chosen_for(c, groups[g].0@),
    ensures
        is_plan_of(out, c),
{
    reveal(groups_of);
    assert forall|g: int| 0 <= g < out.len() implies cand_file(c, (#[trigger] out[g]).file@) by {
        assert(out[g].file@ == groups[g].0@);
        assert(cand_file(c, groups[g].0@));
    }
    assert forall|k: int| 0 <= k < c.len() implies planned_file(out, (#[trigger] c[k]).edit.file@) by {
        assert(group_file(groups, c[k].edit.file@));
        reveal(group_file);
        let g = choose|g: int| 0 <= g < groups.len() && #[trigger] groups[g].0@ == c[k].edit.file@;
        assert(out[g].file@ == groups[g].0@);
        reveal(planned_file);
    }
    assert forall|g1: int, g2: int| 0 <= g1 < g2 < out.len() implies str_lt(out[g1].file@, out[g2].file@) by {
        assert(out[g1].file@ == groups[g1].0@);
        assert(out[g2].file@ == groups[g2].0@);
    }
}

/// The edits to apply, file by file: every edit of every fix of the report
/// (unsafe fixes only when `include_unsafe`), grouped by file; in each file the
/// candidates are sorted safe first, then by start, end and fix id, and each is
/// kept unless it overlaps one kept before it.
pub fn plan_edits(report: &Report, include_unsafe: bool) -> (r: PlannedEdits)
    ensures
        is_plan_of(r.by_file@, report_cands(report.findings@, include_unsafe)),
{
    let cands = collect_candidates(report, include_unsafe);
    let groups = group_by_file(&cands);
    proof {
        reveal(groups_of);
    }
    let ghost c = cands@;
    let mut out: Vec<FileEdits> = Vec::new();
    let mut i: usize = 0;
    while i < groups.len()
        invariant
            i <= groups@.len(),
            c == report_cands(report.findings@, include_unsafe),
            groups_of(groups@, c),
            out@.len() == i,
            forall|g: int| 0 <= g < i ==> (#[trigger] out@[g]).file@ == groups@[g].0@,
            forall|g: int| 0 <= g < i ==> (#[trigger] out@[g]).edits@ == chosen_for(c, groups@[g].0@),
        decreases groups.len() - i,
    {
        proof {
            reveal(groups_of);
        }
        let sorted = sorted_metas(&groups[i].1);
        let chosen = choose_greedy(&sorted);
        let mut edits: Vec<TextEdit> = Vec::new();
        let mut k: usize = 0;
        while k < chosen.len()
            invariant
                k <= chosen@.len(),
                edits@ == chosen@.take(k as int).map_values(|m: EditWithMeta| m.edit),
            decreases chosen.len() - k,
        {
            edits.push(chosen[k].edit.duplicate());
            assert(chosen@.take(k + 1).map_values(|m: EditWithMeta| m.edit) =~= chosen@.take(k as int).map_values(
                |m: EditWithMeta| m.edit,
            ).push(chosen@[k as int].edit));
            k = k + 1;
        }
        assert(chosen@.take(chosen@.len() as int) =~= chosen@);
        out.push(FileEdits { file: groups[i].0.clone(), edits });
        i = i + 1;
    }
    proof {
        lemma_plan_from_groups(out@, groups@, c);
    }
    PlannedEdits { by_file: out }
}

/// The edits that [`plan_edits`] chooses for one file never overlap one another.
pub proof fn chosen_edits_do_not_overlap(c: Seq<EditWithMeta>, f: Seq<char>)
    ensures
        forall|a: int, b: int|
            0 <= a < b < chosen_for(c, f).len() ==> !overlaps(
                #[trigger] chosen_for(c, f)[a],
                #[trigger] chosen_for(c, f)[b],
            ),
{
    lemma_greedy_disjoint(sort_metas(file_cands(c, f)));
}

/// The edits that [`plan_edits`] chooses for one file, applied to any text,
/// are never refused as overlapping.
pub proof fn chosen_edits_never_fail_as_overlapping(c: Seq<EditWithMeta>, f: Seq<char>, b: Seq<u8>)
    ensures
        apply_edits_spec(b, chosen_for(c, f)) != Err::<Seq<u8>, FixError>(FixError::Overlap),
{
    chosen_edits_do_not_overlap(c, f);
    let e = chosen_for(c, f);
    assert forall|i: int, j: int| 0 <= i < e.len() && 0 <= j < e.len() && i != j implies !crate::fix::edits_intersect(
        #[trigger] e[i],
        #[trigger] e[j],
    ) by {
        if i < j {
            assert(!overlaps(e[i], e[j]));
        } else {
            assert(!overlaps(e[j], e[i]));
        }
    }
    crate::fix::disjoint_edits_never_overlap(b, e);
}

proof fn lemma_greedy_disjoint(s: Seq<EditWithMeta>)
    ensures
        forall|a: int, b: int|
            0 <= a < b < greedy(s).len() ==> !overlaps(#[trigger] greedy(s)[a].edit, #[trigger] greedy(s)[b].edit),
    decreases s.len(),
{
    if s.len() > 0 {
        lemma_greedy_disjoint(s.drop_last());
        let c = greedy(s.drop_last());
        let e = s.last();
        if !(exists|k: int| 0 <= k < c.len() && overlaps(e.edit, #[trigger] c[k].edit)) {
            assert forall|a: int, b: int| 0 <= a < b < greedy(s).len() implies !overlaps(
                #[trigger] greedy(s)[a].edit,
                #[trigger] greedy(s)[b].edit,
            ) by {
                if b == c.len() {
                    assert(!overlaps(e.edit, c[a].edit));
                } else {
                    assert(greedy(s)[a] == c[a]);
                    assert(greedy(s)[b] == c[b]);
                }
            }
        }
    }
}

/// Every candidate is an edit of a safe fix.
pub open spec fn all_safe(s: Seq<EditWithMeta>) -> bool {
    forall|i: int| 0 <= i < s.len() ==> (#[trigger] s[i]).safety == FixSafety::Safe
}

proof fn lemma_finding_cands_safe(fixes: Seq<Fix>)
    ensures
        all_safe(finding_cands(fixes, false)),
    decreases fixes.len(),
{
    if fixes.len() > 0 {
        lemma_finding_cands_safe(fixes.drop_last());
        let a = finding_cands(fixes.drop_last(), false);
        let f = fixes.last();
        let b = if left_out(f, false) { Seq::<EditWithMeta>::empty() } else { fix_cands(f) };
        assert forall|i: int| 0 <= i < (a + b).len() implies (#[trigger] (a + b)[i]).safety == FixSafety::Safe by {
            if i >= a.len() {
                assert((a + b)[i] == b[i - a.len()]);
            } else {
                assert((a + b)[i] == a[i]);
            }
        }
    }
}

proof fn lemma_report_cands_safe(findings: Seq<Finding>)
    ensures
        all_safe(report_cands(findings, false)),
    decreases findings.len(),
{
    if findings.len() > 0 {
        lemma_report_cands_safe(findings.drop_last());
        lemma_finding_cands_safe(findings.last().related.fixes@);
        let a = report_cands(findings.drop_last(), false);
        let b = finding_cands(findings.last().related.fixes@, false);
        assert forall|i: int| 0 <= i < (a + b).len() implies (#[trigger] (a + b)[i]).safety == FixSafety::Safe by {
            if i >= a.len() {
                assert((a + b)[i] == b[i - a.len()]);
            } else {
                assert((a + b)[i] == a[i]);
            }
        }
    }
}

proof fn lemma_filter_safe(s: Seq<EditWithMeta>, p: spec_fn(EditWithMeta) -> bool)
    requires
        all_safe(s),
    ensures
        all_safe(s.filter(p)),
    decreases s.len(),
{
    reveal(Seq::filter);
    if s.len() > 0 {
        let d = s.drop_last();
        assert forall|i: int| 0 <= i < d.len() implies (#[trigger] d[i]).safety == FixSafety::Safe by {
            assert(d[i] == s[i]);
        }
        lemma_filter_safe(d, p);
        assert(s.last() == s[s.len() - 1]);
    }
}

proof fn lemma_insert_sorted_safe(s: Seq<EditWithMeta>, e: EditWithMeta)
    requires
        all_safe(s),
        e.safety == FixSafety::Safe,
    ensures
        all_safe(insert_sorted(s, e)),
    decreases s.len(),
{
    if s.len() > 0 && !meta_lt(e, s[0]) {
        let d = s.drop_first();
        assert forall|i: int| 0 <= i < d.len() implies (#[trigger] d[i]).safety == FixSafety::Safe by {
            assert(d[i] == s[i + 1]);
        }
        lemma_insert_sorted_safe(d, e);
        let r = seq![s[0]] + insert_sorted(d, e);
        assert forall|i: int| 0 <= i < r.len() implies (#[trigger] r[i]).safety == FixSafety::Safe by {
            if i > 0 {
                assert(r[i] == insert_sorted(d, e)[i - 1]);
            }
        }
    } else if s.len() > 0 {
        let r = seq![e] + s;
        assert forall|i: int| 0 <= i < r.len() implies (#[trigger] r[i]).safety == FixSafety::Safe by {
            if i > 0 {
                assert(r[i] == s[i - 1]);
            }
        }
    }
}

proof fn lemma_sort_safe(s: Seq<EditWithMeta>)
    requires
        all_safe(s),
    ensures
        all_safe(sort_metas(s)),
    decreases s.len(),
{
    if s.len() > 0 {
        let d = s.drop_last();
        assert forall|i: int| 0 <= i < d.len() implies (#[trigger] d[i]).safety == FixSafety::Safe by {
            assert(d[i] == s[i]);
        }
        lemma_sort_safe(d);
        assert(s.last() == s[s.len() - 1]);
        lemma_insert_sorted_safe(sort_metas(d), s.last());
    }
}

proof fn lemma_greedy_safe(s: Seq<EditWithMeta>)
    requires
        all_safe(s),
    ensures
        all_safe(greedy(s)),
    decreases s.len(),
{
    if s.len() > 0 {
        let d = s.drop_last();
        assert forall|i: int| 0 <= i < d.len() implies (#[trigger] d[i]).safety == FixSafety::Safe by {
            assert(d[i] == s[i]);
        }
        lemma_greedy_safe(d);
        assert(s.last() == s[s.len() - 1]);
    }
}

/// Some fix of some finding that `include_unsafe` allows has an edit.
pub open spec fn has_allowed_edit(findings: Seq<Finding>, include_unsafe: bool) -> bool {
    exists|i: int, j: int|
        0 <= i < findings.len() && 0 <= j < findings[i].related.fixes@.len() && !left_out(
            #[trigger] findings[i].related.fixes@[j],
            include_unsafe,
        ) && findings[i].related.fixes@[j].edits@.len() > 0
}

proof fn lemma_finding_cands_empty(fixes: Seq<Fix>, include_unsafe: bool)
    ensures
        finding_cands(fixes, include_unsafe).len() == 0 <==> forall|j: int|
            0 <= j < fixes.len() ==> left_out(#[trigger] fixes[j], include_unsafe) || fixes[j].edits@.len() == 0,
    decreases fixes.len(),
{
    if fixes.len() > 0 {
        let d = fixes.drop_last();
        lemma_finding_cands_empty(d, include_unsafe);
        assert forall|j: int| 0 <= j < d.len() implies d[j] == fixes[j] by {}
        assert(fixes.last() == fixes[fixes.len() - 1]);
        if finding_cands(fixes, include_unsafe).len() == 0 {
            assert forall|j: int| 0 <= j < fixes.len() implies left_out(#[trigger] fixes[j], include_unsafe)
                || fixes[j].edits@.len() == 0 by {
                if j < d.len() {
                    assert(d[j] == fixes[j]);
                }
            }
        }
    }
}

proof fn lemma_report_cands_empty(findings: Seq<Finding>, include_unsafe: bool)
    ensures
        report_cands(findings, include_unsafe).len() == 0 <==> !has_allowed_edit(findings, include_unsafe),
    decreases findings.len(),
{
    if findings.len() > 0 {
        let d = findings.drop_last();
        lemma_report_cands_empty(d, include_unsafe);
        let last = findings.last();
        lemma_finding_cands_empty(last.related.fixes@, include_unsafe);
        if has_allowed_edit(findings, include_unsafe) {
            let (i, j) = choose|i: int, j: int|
                0 <= i < findings.len() && 0 <= j < findings[i].related.fixes@.len() && !left_out(
                    #[trigger] findings[i].related.fixes@[j],
                    include_unsafe,
                ) && findings[i].related.fixes@[j].edits@.len() > 0;
            if i < d.len() {
                assert(d[i] == findings[i]);
                assert(has_allowed_edit(d, include_unsafe));
            } else {
                assert(findings[i] == last);
            }
        }
        if has_allowed_edit(d, include_unsafe) {
            let (i, j) = choose|i: int, j: int|
                0 <= i < d.len() && 0 <= j < d[i].related.fixes@.len() && !left_out(
                    #[trigger] d[i].related.fixes@[j],
                    include_unsafe,
                ) && d[i].related.fixes@[j].edits@.len() > 0;
            assert(d[i] == findings[i]);
            assert(has_allowed_edit(findings, include_unsafe));
        }
        if !(finding_cands(last.related.fixes@, include_unsafe).len() == 0) {
            let j = choose|j: int|
                0 <= j < last.related.fixes@.len() && !(left_out(#[trigger] last.related.fixes@[j], include_unsafe)
                    || last.related.fixes@[j].edits@.len() == 0);
            assert(findings[findings.len() - 1] == last);
            assert(has_allowed_edit(findings, include_unsafe));
        }
    }
}

proof fn lemma_insert_sorted_len(s: Seq<EditWithMeta>, e: EditWithMeta)
    ensures
        insert_sorted(s, e).len() == s.len() + 1,
    decreases s.len(),
{
    if s.len() > 0 && !meta_lt(e, s[0]) {
        lemma_insert_sorted_len(s.drop_first(), e);
    }
}

proof fn lemma_sort_metas_len(s: Seq<EditWithMeta>)
    ensures
        sort_metas(s).len() == s.len(),
    decreases s.len(),
{
    if s.len() > 0 {
        lemma_sort_metas_len(s.drop_last());
        lemma_insert_sorted_len(sort_metas(s.drop_last()), s.last());
    }
}

proof fn lemma_greedy_nonempty(s: Seq<EditWithMeta>)
    requires
        s.len() > 0,
    ensures
        greedy(s).len() > 0,
    decreases s.len(),
{
    if s.len() > 1 {
        lemma_greedy_nonempty(s.drop_last());
    }
}

/// A plan of the edits of `report` has no edit exactly when no fix that the
/// safety setting allows (safe fixes, and unsafe ones only when
/// `include_unsafe`) has an edit.
pub proof fn plan_is_empty_exactly_without_allowed_edits(p: Seq<FileEdits>, report: Report, include_unsafe: bool)
    requires
        is_plan_of(p, report_cands(report.findings@, include_unsafe)),
    ensures
        (forall|g: int| 0 <= g < p.len() ==> (#[trigger] p[g]).edits@.len() == 0) <==> !has_allowed_edit(
            report.findings@,
            include_unsafe,
        ),
{
    let c = report_cands(report.findings@, include_unsafe);
    lemma_report_cands_empty(report.findings@, include_unsafe);
    if c.len() > 0 {
        let f = c[0].edit.file@;
        assert(planned_file(p, f));
        reveal(planned_file);
        let g = choose|g: int| 0 <= g < p.len() && #[trigger] p[g].file@ == f;
        c.lemma_filter_contains(in_file(f), 0);
        let fc = file_cands(c, f);
        assert(fc.len() > 0);
        lemma_sort_metas_len(fc);
        lemma_greedy_nonempty(sort_metas(fc));
        assert(p[g].edits@.len() > 0);
    } else {
        assert forall|g: int| 0 <= g < p.len() implies (#[trigger] p[g]).edits@.len() == 0 by {
            assert(cand_file(c, p[g].file@));
            reveal(cand_file);
        }
    }
}

/// Unless unsafe fixes are asked for, every candidate edit comes from a safe
/// fix, and so does every edit chosen for any file `f` (the edits that
/// [`chosen_for`] lists are those of these chosen candidates).
pub proof fn unsafe_fixes_stay_out(findings: Seq<Finding>, f: Seq<char>)
    ensures
        all_safe(report_cands(findings, false)),
        all_safe(greedy(sort_metas(file_cands(report_cands(findings, false), f)))),
{
    let c = report_cands(findings, false);
    lemma_report_cands_safe(findings);
    lemma_filter_safe(c, in_file(f));
    lemma_sort_safe(file_cands(c, f));
    lemma_greedy_safe(sort_metas(file_cands(c, f)));
}

// ---------------------------------------------------------------------------
// Applying a plan
// ---------------------------------------------------------------------------

/// Why the planned edits could not be applied.
#[derive(Debug)]
pub enum ApplyError {
    Read { path: String, message: String },
    Write { path: String, message: String },
    Apply { path: String, source: FixError },
}

/// The outcome of applying a plan to the files' texts, as values: the new
/// bytes of each file that changes, in order, and the error that stopped it.
pub enum ApplyErrorView {
    Read(Seq<char>, Seq<char>),
    Apply(Seq<char>, FixError),
}

pub type ApplyOutcome = (Seq<(Seq<char>, Seq<u8>)>, Option<ApplyErrorView>);

/// Applying the plan's first `n` files, whose texts as read are `contents`:
/// a file without edits is passed over; a file that could not be read, or
/// whose edits do not apply, stops the work; a file whose text the edits
/// change is to be written.
pub open spec fn apply_prefix(files: Seq<FileEdits>, contents: Seq<Result<String, String>>, n: int) -> ApplyOutcome
    decreases n,
{
    if n <= 0 {
        (Seq::empty(), None)
    } else {
        let (w, e) = apply_prefix(files, contents, n - 1);
        let f = files[n - 1];
        if e is Some || f.edits@.len() == 0 {
            (w, e)
        } else {
            match contents[n - 1] {
                Err(m) => (w, Some(ApplyErrorView::Read(f.file@, m@))),
                Ok(old) => match apply_edits_spec(utf8(old@), f.edits@) {
                    Err(x) => (w, Some(ApplyErrorView::Apply(f.file@, x))),
                    Ok(nb) => if nb == utf8(old@) {
                        (w, None)
                    } else {
                        (w.push((f.file@, nb)), None)
                    },
                },
            }
        }
    }
}

/// A file to write: its path and its new text.
#[derive(Debug)]
pub struct FileWrite {
    pub file: String,
    pub text: String,
}

pub open spec fn apply_error_v(e: ApplyError) -> Option<ApplyErrorView> {
    match e {
        ApplyError::Read { path, message } => Some(ApplyErrorView::Read(path@, message@)),
        ApplyError::Apply { path, source } => Some(ApplyErrorView::Apply(path@, source)),
        ApplyError::Write { .. } => None,
    }
}

/// Apply the plan to the texts of its files: `contents[i]` is what reading
/// the `i`-th file of the plan gave (it is not looked at when that file has
/// no edit). The files to write come back in order, with the error, if any,
/// that stopped the work; the caller writes them, and reports the change
/// when there is one.
pub fn apply_planned_edits(planned: &PlannedEdits, contents: &Vec<Result<String, String>>) -> (r: (
    Vec<FileWrite>,
    Option<ApplyError>,
))
    requires
        contents@.len() == planned.by_file@.len(),
    ensures
        ({
            let want = apply_prefix(planned.by_file@, contents@, planned.by_file@.len() as int);
            &&& r.0@.map_values(|w: FileWrite| (w.file@, utf8(w.text@))) == want.0
            &&& match r.1 {
                Some(e) => apply_error_v(e) == want.1 && want.1 is Some,
                None => want.1 is None,
            }
        }),
{
    let ghost files = planned.by_file@;
    let mut writes: Vec<FileWrite> = Vec::new();
    let mut i: usize = 0;
    while i < planned.by_file.len()
        invariant
            i <= files.len(),
            files == planned.by_file@,
            contents@.len() == files.len(),
            writes@.map_values(|w: FileWrite| (w.file@, utf8(w.text@))) == apply_prefix(files, contents@, i as int).0,
            apply_prefix(files, contents@, i as int).1 is None,
        decreases planned.by_file.len() - i,
    {
        let f = &planned.by_file[i];
        if f.edits.len() > 0 {
            match &contents[i] {
                Err(m) => {
                    proof {
                        lemma_apply_stops(files, contents@, (i + 1) as int);
                    }
                    return (writes, Some(ApplyError::Read { path: f.file.clone(), message: m.clone() }));
                },
                Ok(old) => {
                    match apply_text_edits(old.as_str(), f.edits.as_slice()) {
                        Err(x) => {
                            proof {
                                lemma_apply_stops(files, contents@, (i + 1) as int);
                            }
                            return (writes, Some(ApplyError::Apply { path: f.file.clone(), source: x }));
                        },
                        Ok(new) => {
                            let same = str_eq(new.as_str(), old.as_str());
                            proof {
                                vstd::utf8::encode_utf8_decode_utf8(new@);
                                vstd::utf8::encode_utf8_decode_utf8(old@);
                            }
                            if !same {
                                let ghost before = writes@.map_values(|w: FileWrite| (w.file@, utf8(w.text@)));
                                let w = FileWrite { file: f.file.clone(), text: new };
                                let ghost wv = (w.file@, utf8(w.text@));
                                writes.push(w);
                                assert(writes@.map_values(|w: FileWrite| (w.file@, utf8(w.text@))) =~= before.push(wv));
                            }
                        },
                    }
                },
            }
        }
        i = i + 1;
    }
    (writes, None)
}

proof fn lemma_apply_stops(files: Seq<FileEdits>, contents: Seq<Result<String, String>>, n: int)
    requires
        0 < n <= files.len(),
        apply_prefix(files, contents, n).1 is Some,
    ensures
        apply_prefix(files, contents, files.len() as int) == apply_prefix(files, contents, n),
    decreases files.len() - n,
{
    if n < files.len() {
        lemma_apply_stops(files, contents, n + 1);
    }
}


// ---------------------------------------------------------------------------
// Previewing a plan
// ---------------------------------------------------------------------------

/// What `similar` makes of `old` and `new`: their unified line diff, under the
/// header lines `a` and `b`.
pub uninterp spec fn unified_diff_text(old: Seq<char>, new: Seq<char>, a: Seq<char>, b: Seq<char>) -> Seq<char>;

/// `similar::TextDiff::from_lines(old, new)`, shown with `unified_diff`,
/// `header(a, b)` and `to_string`; the text is named by `unified_diff_text`.
#[verifier::external_body]
fn unified_diff(old: &str, new: &str, a: &str, b: &str) -> (r: String)
    ensures
        r@ == unified_diff_text(old@, new@, a@, b@),
{
    similar::TextDiff::from_lines(old, new).unified_diff().header(a, b).to_string()
}

/// The diff shown for `file` when its text goes from `old` to `new`.
pub open spec fn file_diff(file: Seq<char>, old: Seq<char>, new: Seq<char>) -> Seq<char> {
    unified_diff_text(old, new, "a/"@ + file, "b/"@ + file)
}

/// Previewing the plan's first `n` files, whose texts as read are `contents`:
/// the files are taken as when applying, and each file whose text the edits
/// change shows its diff instead of being written.
pub open spec fn preview_prefix(files: Seq<FileEdits>, contents: Seq<Result<String, String>>, n: int) -> (
    Seq<Seq<char>>,
    Option<ApplyErrorView>,
)
    decreases n,
{
    if n <= 0 {
        (Seq::empty(), None)
    } else {
        let (d, e) = preview_prefix(files, contents, n - 1);
        let f = files[n - 1];
        if e is Some || f.edits@.len() == 0 {
            (d, e)
        } else {
            match contents[n - 1] {
                Err(m) => (d, Some(ApplyErrorView::Read(f.file@, m@))),
                Ok(old) => match apply_edits_spec(utf8(old@), f.edits@) {
                    Err(x) => (d, Some(ApplyErrorView::Apply(f.file@, x))),
                    Ok(nb) => if nb == utf8(old@) {
                        (d, None)
                    } else {
                        (d.push(file_diff(f.file@, old@, vstd::utf8::decode_utf8(nb))), None)
                    },
                },
            }
        }
    }
}

fn diff_header(side: &str, file: &str) -> (r: String)
    ensures
        r@ == side@ + "/"@ + file@,
{
    let mut h = String::from_str(side);
    h.append("/");
    h.append(file);
    h
}

/// The diffs that applying the plan would make, file by file, and the error
/// that would stop it; `contents` holds what reading each planned file gave.
pub fn preview_planned_edits(planned: &PlannedEdits, contents: &Vec<Result<String, String>>) -> (r: (
    Vec<String>,
    Option<ApplyError>,
))
    requires
        contents@.len() == planned.by_file@.len(),
    ensures
        ({
            let want = preview_prefix(planned.by_file@, contents@, planned.by_file@.len() as int);
            &&& crate::config::read::views(r.0@) == want.0
            &&& match r.1 {
                Some(e) => apply_error_v(e) == want.1 && want.1 is Some,
                None => want.1 is None,
            }
        }),
{
    let ghost files = planned.by_file@;
    let mut diffs: Vec<String> = Vec::new();
    let mut i: usize = 0;
    proof {
        reveal_strlit("a");
        reveal_strlit("b");
        reveal_strlit("/");
        reveal_strlit("a/");
        reveal_strlit("b/");
    }
    while i < planned.by_file.len()
        invariant
            i <= files.len(),
            files == planned.by_file@,
            contents@.len() == files.len(),
            crate::config::read::views(diffs@) == preview_prefix(files, contents@, i as int).0,
            preview_prefix(files, contents@, i as int).1 is None,
            "a"@ + "/"@ == "a/"@,
            "b"@ + "/"@ == "b/"@,
        decreases planned.by_file.len() - i,
    {
        let f = &planned.by_file[i];
        if f.edits.len() > 0 {
            match &contents[i] {
                Err(m) => {
                    proof {
                        lemma_preview_stops(files, contents@, (i + 1) as int);
                    }
                    return (diffs, Some(ApplyError::Read { path: f.file.clone(), message: m.clone() }));
                },
                Ok(old) => {
                    match apply_text_edits(old.as_str(), f.edits.as_slice()) {
                        Err(x) => {
                            proof {
                                lemma_preview_stops(files, contents@, (i + 1) as int);
                            }
                            return (diffs, Some(ApplyError::Apply { path: f.file.clone(), source: x }));
                        },
                        Ok(new) => {
                            let same = str_eq(new.as_str(), old.as_str());
                            proof {
                                vstd::utf8::encode_utf8_decode_utf8(new@);
                                vstd::utf8::encode_utf8_decode_utf8(old@);
                            }
                            if !same {
                                let ghost before = diffs@;
                                let a = diff_header("a", f.file.as_str());
                                let b = diff_header("b", f.file.as_str());
                                let d = unified_diff(old.as_str(), new.as_str(), a.as_str(), b.as_str());
                                diffs.push(d);
                                assert(crate::config::read::views(diffs@) =~= crate::config::read::views(before).push(
                                    file_diff(f.file@, old@, new@),
                                ));
                            }
                        },
                    }
                },
            }
        }
        i = i + 1;
    }
    (diffs, None)
}

proof fn lemma_preview_stops(files: Seq<FileEdits>, contents: Seq<Result<String, String>>, n: int)
    requires
        0 < n <= files.len(),
        preview_prefix(files, contents, n).1 is Some,
    ensures
        preview_prefix(files, contents, files.len() as int) == preview_prefix(files, contents, n),
    decreases files.len() - n,
{
    if n < files.len() {
        lemma_preview_stops(files, contents, n + 1);
    }
}

/// A preview and an application of the same plan over the same texts agree:
/// the preview shows one diff for each file that applying writes, in the same
/// order, and both stop at the same error.
pub proof fn preview_matches_apply(files: Seq<FileEdits>, contents: Seq<Result<String, String>>, n: int)
    ensures
        preview_prefix(files, contents, n).0.len() == apply_prefix(files, contents, n).0.len(),
        preview_prefix(files, contents, n).1 == apply_prefix(files, contents, n).1,
    decreases n,
{
    if n > 0 {
        preview_matches_apply(files, contents, n - 1);
    }
}

} // verus!

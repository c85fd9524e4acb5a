//! `design.repeated_type_aliases`: types written out many times that may
//! deserve a `type` alias.
use vstd::prelude::*;
use vstd::string::*;
use crate::config::read::views;
use crate::config::rule_options::DuplicateTypesAliasConfig;
use crate::config::value::str_eq;
use crate::fix::utf8;
use crate::report::{Finding, FindingView, SpanView, rule_finding_view};
use crate::rules::catalog::{DuplicateTypesAliasCandidateRule, repeated_type_aliases_info};
use crate::sorted::{sorted_distinct, strictly_sorted};
use crate::span::{LineColumn, Span};
use crate::rules::top_items::span_of;
use crate::text::{decimal, u64_to_string};

verus! {

/// A type written in a field, a parameter, a return type or a typed `let`:
/// its text with white space normalised, the name of its last path segment
/// when it is a plain path type, and its span.
#[derive(Debug)]
pub struct TypeRef {
    pub value: String,
    pub outer: Option<String>,
    pub start: LineColumn,
    pub end: LineColumn,
}

/// The type counts: its outer name is not excluded and its text is long enough.
pub open spec fn kept(cfg: DuplicateTypesAliasConfig, t: TypeRef) -> bool {
    &&& !(t.outer matches Some(o) && views(cfg.exclude_outer@).contains(o@))
    &&& utf8(t.value@).len() >= cfg.min_len
}

/// The kept types with text `v`, in order.
pub open spec fn occurrences(cfg: DuplicateTypesAliasConfig, ts: Seq<TypeRef>, v: Seq<char>) -> Seq<TypeRef>
    decreases ts.len(),
{
    if ts.len() == 0 {
        Seq::empty()
    } else {
        occurrences(cfg, ts.drop_last(), v) + if kept(cfg, ts.last()) && ts.last().value@ == v {
            seq![ts.last()]
        } else {
            Seq::empty()
        }
    }
}

/// The texts of the kept types.
pub open spec fn kept_texts(cfg: DuplicateTypesAliasConfig, ts: Seq<TypeRef>) -> Set<Seq<char>> {
    Set::new(|v: Seq<char>| exists|i: int| 0 <= i < ts.len() && kept(cfg, ts[i]) && (#[trigger] ts[i]).value@ == v)
}

pub open spec fn alias_help() -> Seq<char> {
    "Add a `type` alias if the repeated type should have one name."@
}

/// The finding for a type written `count` times, first at `first`.
pub open spec fn alias_finding(cfg: DuplicateTypesAliasConfig, v: Seq<char>, count: nat, first: SpanView) -> FindingView {
    FindingView {
        help: Some(alias_help()),
        primary: Some(first),
        tags: seq!["types"@],
        ..rule_finding_view(
            repeated_type_aliases_info(),
            cfg.level.spec_severity(),
            "type is repeated "@ + decimal(count) + " times; consider a type alias: "@ + v,
        )
    }
}

/// One finding per text in `texts` that is written at least
/// `min_occurrences` times.
pub open spec fn alias_findings(file: Seq<char>, cfg: DuplicateTypesAliasConfig, ts: Seq<TypeRef>, texts: Seq<Seq<char>>) -> Seq<FindingView>
    decreases texts.len(),
{
    if texts.len() == 0 {
        Seq::empty()
    } else {
        let v = texts.last();
        let occ = occurrences(cfg, ts, v);
        alias_findings(file, cfg, ts, texts.drop_last()) + if occ.len() >= cfg.min_occurrences && occ.len() > 0 {
            seq![alias_finding(cfg, v, occ.len(), span_of(file, occ[0].start, occ[0].end))]
        } else {
            Seq::empty()
        }
    }
}

fn keeps(cfg: &DuplicateTypesAliasConfig, t: &TypeRef) -> (r: bool)
    ensures
        r == kept(*cfg, *t),
{
    let excluded = match &t.outer {
        Some(o) => {
            let mut found = false;
            let mut i: usize = 0;
            while i < cfg.exclude_outer.len()
                invariant
                    i <= cfg.exclude_outer@.len(),
                    found == exists|j: int| 0 <= j < i && (#[trigger] cfg.exclude_outer@[j])@ == o@,
                decreases cfg.exclude_outer.len() - i,
            {
                if str_eq(cfg.exclude_outer[i].as_str(), o.as_str()) {
                    found = true;
                }
                i = i + 1;
            }
            proof {
                if found {
                    let j = choose|j: int| 0 <= j < cfg.exclude_outer@.len() && (#[trigger] cfg.exclude_outer@[j])@ == o@;
                    assert(views(cfg.exclude_outer@)[j] == o@);
                } else {
                    assert forall|j: int| 0 <= j < views(cfg.exclude_outer@).len() implies views(cfg.exclude_outer@)[j] != o@ by {
                        assert(views(cfg.exclude_outer@)[j] == cfg.exclude_outer@[j]@);
                    }
                }
            }
            found
        },
        None => false,
    };
    let bytes = t.value.as_str().as_bytes();
    !excluded && bytes.len() >= cfg.min_len
}

/// Which written types count: a type whose outer name is excluded never
/// counts, nor one whose text is shorter (in bytes) than `min_len`; every
/// other type counts.
pub proof fn counted_types_law(cfg: DuplicateTypesAliasConfig, t: TypeRef)
    ensures
        (t.outer matches Some(o) && views(cfg.exclude_outer@).contains(o@)) ==> !kept(cfg, t),
        utf8(t.value@).len() < cfg.min_len ==> !kept(cfg, t),
        !(t.outer matches Some(o) && views(cfg.exclude_outer@).contains(o@)) && utf8(t.value@).len() >= cfg.min_len
            ==> kept(cfg, t),
{
}

/// The occurrences of a text are exactly the counted types written with that
/// text, in order.
pub proof fn occurrences_are_counted_types_with_text(cfg: DuplicateTypesAliasConfig, ts: Seq<TypeRef>, v: Seq<char>)
    ensures
        occurrences(cfg, ts, v) == ts.filter(|t: TypeRef| kept(cfg, t) && t.value@ == v),
    decreases ts.len(),
{
    reveal(Seq::filter);
    if ts.len() > 0 {
        occurrences_are_counted_types_with_text(cfg, ts.drop_last(), v);
    }
}

/// A text is reported exactly when it is written (and counted) at least
/// `min_occurrences` times, and at least once; the finding gives the count
/// and the text, at the first occurrence.
pub proof fn repeated_type_law(file: Seq<char>, cfg: DuplicateTypesAliasConfig, ts: Seq<TypeRef>, v: Seq<char>)
    ensures
        ({
            let n = ts.filter(|t: TypeRef| kept(cfg, t) && t.value@ == v).len();
            &&& alias_findings(file, cfg, ts, seq![v]).len() == if n >= cfg.min_occurrences && n > 0 {
                1int
            } else {
                0int
            }
            &&& n >= cfg.min_occurrences && n > 0 ==> alias_findings(file, cfg, ts, seq![v])[0].message
                == "type is repeated "@ + decimal(n) + " times; consider a type alias: "@ + v
        }),
{
    occurrences_are_counted_types_with_text(cfg, ts, v);
    let s = seq![v];
    assert(s.drop_last() =~= Seq::<Seq<char>>::empty());
    assert(s.last() == v);
    assert(alias_findings(file, cfg, ts, Seq::<Seq<char>>::empty()) == Seq::<FindingView>::empty());
}

impl DuplicateTypesAliasCandidateRule {
    /// The findings of one file: for each type text, in sorted order, that is
    /// written at least `min_occurrences` times (counting only kept types), a
    /// finding at its first occurrence.
    pub fn check_types(file: &str, cfg: &DuplicateTypesAliasConfig, types: &Vec<TypeRef>) -> (r: Vec<Finding>)
        ensures
            exists|texts: Seq<Seq<char>>|
                strictly_sorted(texts) && texts.to_set() == kept_texts(*cfg, types@) && r@.map_values(
                    |f: Finding| f@,
                ) == alias_findings(file@, *cfg, types@, texts),
    {
        let mut texts: Vec<String> = Vec::new();
        let mut i: usize = 0;
        while i < types.len()
            invariant
                i <= types@.len(),
                texts@.map_values(|s: String| s@).to_set() == kept_texts(*cfg, types@.take(i as int)),
            decreases types.len() - i,
        {
            let ghost pre = types@.take(i as int);
            let ghost post = types@.take(i + 1);
            let ghost before = texts@.map_values(|s: String| s@);
            assert(forall|k: int| 0 <= k < pre.len() ==> pre[k] == #[trigger] post[k]);
            assert(post[i as int] == types@[i as int]);
            if keeps(cfg, &types[i]) {
                texts.push(types[i].value.clone());
                let ghost after = texts@.map_values(|s: String| s@);
                assert(after =~= before.push(types@[i as int].value@));
                assert(after.to_set() =~= kept_texts(*cfg, post)) by {
                    assert forall|v: Seq<char>| after.to_set().contains(v) implies kept_texts(*cfg, post).contains(v) by {
                        let k = choose|k: int| 0 <= k < after.len() && after[k] == v;
                        if k < before.len() {
                            assert(before.to_set().contains(v));
                            let m = choose|m: int| 0 <= m < pre.len() && kept(*cfg, pre[m]) && (#[trigger] pre[m]).value@ == v;
                            assert(post[m] == pre[m]);
                        } else {
                            assert(post[i as int].value@ == v);
                        }
                    }
                    assert forall|v: Seq<char>| kept_texts(*cfg, post).contains(v) implies after.to_set().contains(v) by {
                        let m = choose|m: int| 0 <= m < post.len() && kept(*cfg, post[m]) && (#[trigger] post[m]).value@ == v;
                        if m < i {
                            assert(pre[m] == post[m]);
                            assert(kept_texts(*cfg, pre).contains(v));
                            assert(before.to_set().contains(v));
                            let k = choose|k: int| 0 <= k < before.len() && before[k] == v;
                            assert(after[k] == v);
                        } else {
                            assert(after[before.len() as int] == v);
                        }
                    }
                }
            } else {
                assert(before.to_set() =~= kept_texts(*cfg, post)) by {
                    assert forall|v: Seq<char>| kept_texts(*cfg, post).contains(v) implies before.to_set().contains(v) by {
                        let m = choose|m: int| 0 <= m < post.len() && kept(*cfg, post[m]) && (#[trigger] post[m]).value@ == v;
                        assert(m != i);
                        assert(pre[m] == post[m]);
                        assert(kept_texts(*cfg, pre).contains(v));
                    }
                    assert forall|v: Seq<char>| before.to_set().contains(v) implies kept_texts(*cfg, post).contains(v) by {
                        assert(kept_texts(*cfg, pre).contains(v));
                        let m = choose|m: int| 0 <= m < pre.len() && kept(*cfg, pre[m]) && (#[trigger] pre[m]).value@ == v;
                        assert(post[m] == pre[m]);
                    }
                }
            }
            i = i + 1;
        }
        assert(types@.take(types@.len() as int) =~= types@);
        let sorted = sorted_distinct(&texts);
        let ghost sv = sorted@.map_values(|s: String| s@);
        let mut out: Vec<Finding> = Vec::new();
        let mut k: usize = 0;
        while k < sorted.len()
            invariant
                k <= sorted@.len(),
                sv == sorted@.map_values(|s: String| s@),
                out@.map_values(|f: Finding| f@) == alias_findings(file@, *cfg, types@, sv.take(k as int)),
            decreases sorted.len() - k,
        {
            assert(sv.take(k + 1).drop_last() =~= sv.take(k as int));
            let ghost before = out@.map_values(|f: Finding| f@);
            let (count, first) = count_occurrences(cfg, types, sorted[k].as_str());
            if count >= cfg.min_occurrences && count > 0 {
                match first {
                    Some(j) => {
                        let f = alias_emit(file, cfg, sorted[k].as_str(), count, types[j].start, types[j].end);
                        out.push(f);
                        assert(out@.map_values(|f: Finding| f@) =~= before.push(f@));
                    },
                    None => {},
                }
            }
            assert(out@.map_values(|f: Finding| f@) =~= alias_findings(file@, *cfg, types@, sv.take(k + 1)));
            k = k + 1;
        }
        assert(sv.take(sv.len() as int) =~= sv);
        out
    }
}

fn count_occurrences(cfg: &DuplicateTypesAliasConfig, types: &Vec<TypeRef>, v: &str) -> (r: (usize, Option<usize>))
    ensures
        r.0 == occurrences(*cfg, types@, v@).len(),
        r.0 > 0 ==> (r.1 matches Some(j) && j < types@.len() && types@[j as int] == occurrences(*cfg, types@, v@)[0]),
{
    let mut count: usize = 0;
    let mut first: Option<usize> = None;
    let mut i: usize = 0;
    while i < types.len()
        invariant
            i <= types@.len(),
            count == occurrences(*cfg, types@.take(i as int), v@).len(),
            count <= i,
            count > 0 ==> (first matches Some(j) && j < i && types@[j as int] == occurrences(
                *cfg,
                types@.take(i as int),
                v@,
            )[0]),
        decreases types.len() - i,
    {
        let ghost pre = types@.take(i as int);
        let ghost post = types@.take(i + 1);
        assert(post.drop_last() =~= pre);
        if keeps(cfg, &types[i]) && str_eq(types[i].value.as_str(), v) {
            if count == 0 {
                first = Some(i);
            }
            count = count + 1;
        }
        assert(occurrences(*cfg, post, v@) =~= occurrences(*cfg, pre, v@) + if kept(*cfg, types@[i as int])
            && types@[i as int].value@ == v@ {
            seq![types@[i as int]]
        } else {
            Seq::<TypeRef>::empty()
        });
        i = i + 1;
    }
    assert(types@.take(types@.len() as int) =~= types@);
    (count, first)
}

fn alias_emit(file: &str, cfg: &DuplicateTypesAliasConfig, v: &str, count: usize, start: LineColumn, end: LineColumn) -> (r: Finding)
    ensures
        r@ == alias_finding(*cfg, v@, count as nat, span_of(file@, start, end)),
{
    let mut m = String::from_str("type is repeated ");
    m.append(u64_to_string(count as u64).as_str());
    m.append(" times; consider a type alias: ");
    m.append(v);
    let f = Finding::from_rule(DuplicateTypesAliasCandidateRule::static_info(), cfg.level.to_severity(), m)
        .with_primary(Span::from_pm_span(file, start, end)).with_help(
        String::from_str("Add a `type` alias if the repeated type should have one name."),
    ).with_tags(vec![String::from_str("types")]);
    assert(f@.tags =~= seq!["types"@]);
    f
}

} // verus!

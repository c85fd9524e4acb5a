//! Rules that judge one name or one path at a time:
//! `design.naming_policy`, `perf.hot_path_allocations`,
//! `architecture.banned_dependencies` and `architecture.layer_direction`.
use vstd::prelude::*;
use vstd::string::*;
use crate::chars::starts_with_str;
use crate::path_pattern::{matches_path_prefix, prefix_matches};
use crate::config::level::Level;
use crate::config::read::{read_level, read_strings, spec_read_level, spec_read_strings, strings_of, views};
use crate::config::rule_options::{
    BannedDependenciesConfig, HotPathAllocationsConfig, NamingPolicyConfig, RuleOptions, spec_read_string,
};
use crate::config::value::{TableData, TomlData, TomlTable, TomlValue, str_eq, tget, view_values};
use crate::fix::starts_with;
use crate::glob::{lenient_match, lenient_globs_match};
use crate::report::{Finding, FindingView, Severity, SpanView, rule_finding_view};
use crate::rules::catalog::{
    BannedDependenciesRule, HotPathAllocationsRule, LayerDirectionRule, NamingPolicyRule, banned_dependencies_info,
    hot_path_allocations_info, layer_direction_info, naming_policy_info,
};
use crate::rules::literal_paths::ends_with;
use crate::span::{LineColumn, Span, location_of};
use crate::text::chars_of;

verus! {

pub open spec fn span_of(file: Seq<char>, start: LineColumn, end: LineColumn) -> SpanView {
    (file, location_of(start), location_of(end))
}

fn tags_one(a: &str) -> (r: Vec<String>)
    ensures
        r@.map_values(|t: String| t@) == seq![a@],
{
    let r = vec![a.to_owned()];
    assert(r@.map_values(|t: String| t@) =~= seq![a@]);
    r
}

fn tags_two(a: &str, b: &str) -> (r: Vec<String>)
    ensures
        r@.map_values(|t: String| t@) == seq![a@, b@],
{
    let r = vec![a.to_owned(), b.to_owned()];
    assert(r@.map_values(|t: String| t@) =~= seq![a@, b@]);
    r
}

fn index_of_string(list: &Vec<String>, s: &str) -> (r: Option<usize>)
    ensures
        match r {
            Some(i) => i < list@.len() && list@[i as int]@ == s@ && forall|j: int| 0 <= j < i ==> list@[j]@ != s@,
            None => forall|j: int| 0 <= j < list@.len() ==> list@[j]@ != s@,
        },
{
    let mut i: usize = 0;
    while i < list.len()
        invariant
            i <= list@.len(),
            forall|j: int| 0 <= j < i ==> list@[j]@ != s@,
        decreases list.len() - i,
    {
        if str_eq(list[i].as_str(), s) {
            return Some(i);
        }
        i = i + 1;
    }
    None
}

// ---------------------------------------------------------------------------
// design.naming_policy
// ---------------------------------------------------------------------------

/// The index of the first entry of `list` that `name` ends with, if any.
pub open spec fn first_suffix(list: Seq<Seq<char>>, name: Seq<char>) -> Option<int> {
    if exists|i: int| 0 <= i < list.len() && ends_with(name, #[trigger] list[i]) {
        Some(choose|i: int| 0 <= i < list.len() && ends_with(name, #[trigger] list[i]) && forall|j: int|
            0 <= j < i ==> !ends_with(name, #[trigger] list[j]))
    } else {
        None
    }
}

pub open spec fn naming_finding(severity: Severity, message: Seq<char>, span: SpanView) -> FindingView {
    FindingView {
        help: Some("Use a domain-specific name that states the responsibility."@),
        primary: Some(span),
        confidence: Some("medium"@),
        tags: seq!["naming"@],
        ..rule_finding_view(naming_policy_info(), severity, message)
    }
}

/// The finding for a name: a banned name, or else a name with a banned suffix
/// (the first in the list that it ends with).
pub open spec fn spec_check_name(cfg: NamingPolicyConfig, subject: Seq<char>, name: Seq<char>, span: SpanView) -> Option<FindingView> {
    let sev = cfg.level.spec_severity();
    if views(cfg.banned_names@).contains(name) {
        Some(naming_finding(sev, subject + " name `"@ + name + "` is too generic"@, span))
    } else {
        match first_suffix(views(cfg.banned_suffixes@), name) {
            Some(i) => Some(naming_finding(
                sev,
                subject + " name `"@ + name + "` uses banned suffix `"@ + views(cfg.banned_suffixes@)[i] + "`"@,
                span,
            )),
            None => None,
        }
    }
}

/// What the naming policy says of a name: a banned name is too generic; a
/// name that is not banned but ends with a banned suffix is flagged for the
/// first such suffix in the list; any other name passes.
pub proof fn naming_policy_law(cfg: NamingPolicyConfig, subject: Seq<char>, name: Seq<char>, span: SpanView, i: int)
    ensures
        views(cfg.banned_names@).contains(name) ==> (spec_check_name(cfg, subject, name, span) matches Some(f)
            && f.message == subject + " name `"@ + name + "` is too generic"@),
        !views(cfg.banned_names@).contains(name) && (forall|j: int|
            0 <= j < cfg.banned_suffixes@.len() ==> !ends_with(name, #[trigger] cfg.banned_suffixes@[j]@))
            ==> spec_check_name(cfg, subject, name, span) is None,
        !views(cfg.banned_names@).contains(name) && 0 <= i < cfg.banned_suffixes@.len() && ends_with(
            name,
            cfg.banned_suffixes@[i]@,
        ) && (forall|j: int| 0 <= j < i ==> !ends_with(name, #[trigger] cfg.banned_suffixes@[j]@))
            ==> (spec_check_name(cfg, subject, name, span) matches Some(f) && f.message == subject + " name `"@ + name
            + "` uses banned suffix `"@ + cfg.banned_suffixes@[i]@ + "`"@),
{
    let l = views(cfg.banned_suffixes@);
    assert forall|j: int| 0 <= j < l.len() implies #[trigger] l[j] == cfg.banned_suffixes@[j]@ by {}
    if !views(cfg.banned_names@).contains(name) && 0 <= i < l.len() && ends_with(name, l[i]) && (forall|j: int|
        0 <= j < i ==> !ends_with(name, #[trigger] cfg.banned_suffixes@[j]@)) {
        let c = choose|c: int| 0 <= c < l.len() && ends_with(name, #[trigger] l[c]) && forall|j: int|
            0 <= j < c ==> !ends_with(name, #[trigger] l[j]);
        if c < i {
            assert(!ends_with(name, cfg.banned_suffixes@[c]@));
        } else if c > i {
            assert(!ends_with(name, l[i]));
        }
    }
    if !views(cfg.banned_names@).contains(name) && (forall|j: int|
        0 <= j < cfg.banned_suffixes@.len() ==> !ends_with(name, #[trigger] cfg.banned_suffixes@[j]@)) {
        if exists|k: int| 0 <= k < l.len() && ends_with(name, #[trigger] l[k]) {
            let k = choose|k: int| 0 <= k < l.len() && ends_with(name, #[trigger] l[k]);
            assert(!ends_with(name, cfg.banned_suffixes@[k]@));
        }
    }
}

fn ends_with_str(s: &str, p: &str) -> (r: bool)
    ensures
        r == ends_with(s@, p@),
{
    let cs = chars_of(s);
    let ps = chars_of(p);
    if ps.len() > cs.len() {
        return false;
    }
    let off = cs.len() - ps.len();
    let mut k: usize = 0;
    while k < ps.len()
        invariant
            k <= ps@.len(),
            cs@ == s@,
            ps@ == p@,
            off + ps@.len() == cs@.len(),
            forall|q: int| 0 <= q < k ==> cs@[off + q] == ps@[q],
        decreases ps.len() - k,
    {
        assert(off + k < cs.len());
        if cs[off + k] != ps[k] {
            assert(cs@.skip(off as int)[k as int] != ps@[k as int]);
            return false;
        }
        k = k + 1;
    }
    assert(cs@.skip(off as int) =~= ps@);
    true
}

impl NamingPolicyRule {
    /// The finding for the name of a `subject` (struct, enum, function, binding).
    pub fn check_name(
        file: &str,
        cfg: &NamingPolicyConfig,
        subject: &str,
        name: &str,
        start: LineColumn,
        end: LineColumn,
    ) -> (r: Option<Finding>)
        ensures
            match spec_check_name(*cfg, subject@, name@, span_of(file@, start, end)) {
                Some(v) => r matches Some(f) && f@ == v,
                None => r is None,
            },
    {
        let sev = cfg.level.to_severity();
        let message = match index_of_string(&cfg.banned_names, name) {
            Some(i) => {
                assert(views(cfg.banned_names@)[i as int] == name@);
                let mut m = String::from_str(subject);
                m.append(" name `");
                m.append(name);
                m.append("` is too generic");
                m
            },
            None => {
                assert(!views(cfg.banned_names@).contains(name@)) by {
                    if views(cfg.banned_names@).contains(name@) {
                        let j = choose|j: int| 0 <= j < views(cfg.banned_names@).len() && views(cfg.banned_names@)[j] == name@;
                        assert(cfg.banned_names@[j]@ == name@);
                    }
                }
                let ghost list = views(cfg.banned_suffixes@);
                let mut i: usize = 0;
                let mut found: Option<usize> = None;
                while i < cfg.banned_suffixes.len()
                    invariant_except_break
                        found is None,
                        forall|j: int| 0 <= j < i ==> !ends_with(name@, #[trigger] list[j]),
                    invariant
                        i <= cfg.banned_suffixes@.len(),
                        list == views(cfg.banned_suffixes@),
                    ensures
                        found is None ==> forall|j: int| 0 <= j < list.len() ==> !ends_with(name@, #[trigger] list[j]),
                        found matches Some(k) ==> k < list.len() && ends_with(name@, list[k as int]) && forall|j: int|
                            0 <= j < k ==> !ends_with(name@, #[trigger] list[j]),
                    decreases cfg.banned_suffixes.len() - i,
                {
                    assert(list[i as int] == cfg.banned_suffixes@[i as int]@);
                    if ends_with_str(name, cfg.banned_suffixes[i].as_str()) {
                        found = Some(i);
                        break;
                    }
                    i = i + 1;
                }
                match found {
                    None => {
                        assert(first_suffix(list, name@) is None);
                        return None;
                    },
                    Some(k) => {
                        proof {
                            assert(ends_with(name@, list[k as int]));
                            let c = choose|i: int| 0 <= i < list.len() && ends_with(name@, #[trigger] list[i]) && forall|j: int|
                                0 <= j < i ==> !ends_with(name@, #[trigger] list[j]);
                            if c < k {
                            } else if c > k {
                                assert(!ends_with(name@, list[k as int]));
                            }
                            assert(first_suffix(list, name@) == Some(k as int));
                        }
                        let mut m = String::from_str(subject);
                        m.append(" name `");
                        m.append(name);
                        m.append("` uses banned suffix `");
                        m.append(cfg.banned_suffixes[k].as_str());
                        m.append("`");
                        m
                    },
                }
            },
        };
        let f = Finding::from_rule(NamingPolicyRule::static_info(), sev, message).with_primary(
            Span::from_pm_span(file, start, end),
        ).with_help(String::from_str("Use a domain-specific name that states the responsibility.")).with_confidence(
            String::from_str("medium"),
        ).with_tags(tags_one("naming"));
        Some(f)
    }
}

// ---------------------------------------------------------------------------
// perf.hot_path_allocations
// ---------------------------------------------------------------------------

pub open spec fn hot_finding(severity: Severity, operation: Seq<char>, span: SpanView) -> FindingView {
    FindingView {
        help: Some("Move allocation out of the loop or reuse storage when profiling confirms this path matters."@),
        primary: Some(span),
        confidence: Some("medium"@),
        tags: seq!["performance"@, "allocation"@],
        ..rule_finding_view(
            hot_path_allocations_info(),
            severity,
            "allocation-like operation `"@ + operation + "` inside loop"@,
        )
    }
}

fn hot_emit(file: &str, cfg: &HotPathAllocationsConfig, operation: String, start: LineColumn, end: LineColumn) -> (r: Finding)
    ensures
        r@ == hot_finding(cfg.level.spec_severity(), operation@, span_of(file@, start, end)),
{
    let mut m = String::from_str("allocation-like operation `");
    m.append(operation.as_str());
    m.append("` inside loop");
    Finding::from_rule(HotPathAllocationsRule::static_info(), cfg.level.to_severity(), m).with_primary(
        Span::from_pm_span(file, start, end),
    ).with_help(
        String::from_str("Move allocation out of the loop or reuse storage when profiling confirms this path matters."),
    ).with_confidence(String::from_str("medium")).with_tags(tags_two("performance", "allocation"))
}

impl HotPathAllocationsRule {
    /// A method call `.method()`: a finding when it is inside a loop and the
    /// method is one of the configured ones.
    pub fn check_method(
        file: &str,
        cfg: &HotPathAllocationsConfig,
        in_loop: bool,
        method: &str,
        start: LineColumn,
        end: LineColumn,
    ) -> (r: Option<Finding>)
        ensures
            (in_loop && views(cfg.methods@).contains(method@)) ==> (r matches Some(f) && f@ == hot_finding(
                cfg.level.spec_severity(),
                "."@ + method@ + "()"@,
                span_of(file@, start, end),
            )),
            !(in_loop && views(cfg.methods@).contains(method@)) ==> r is None,
    {
        if !in_loop {
            return None;
        }
        match index_of_string(&cfg.methods, method) {
            Some(i) => {
                assert(views(cfg.methods@)[i as int] == method@);
                let mut op = String::from_str(".");
                op.append(method);
                op.append("()");
                Some(hot_emit(file, cfg, op, start, end))
            },
            None => {
                assert(!views(cfg.methods@).contains(method@)) by {
                    if views(cfg.methods@).contains(method@) {
                        let j = choose|j: int| 0 <= j < views(cfg.methods@).len() && views(cfg.methods@)[j] == method@;
                        assert(cfg.methods@[j]@ == method@);
                    }
                }
                None
            },
        }
    }

    /// A macro call whose path ends in `name`: a finding when it is inside a
    /// loop and the macro is one of the configured ones.
    pub fn check_macro(
        file: &str,
        cfg: &HotPathAllocationsConfig,
        in_loop: bool,
        name: &str,
        start: LineColumn,
        end: LineColumn,
    ) -> (r: Option<Finding>)
        ensures
            (in_loop && views(cfg.macros@).contains(name@)) ==> (r matches Some(f) && f@ == hot_finding(
                cfg.level.spec_severity(),
                name@ + "!"@,
                span_of(file@, start, end),
            )),
            !(in_loop && views(cfg.macros@).contains(name@)) ==> r is None,
    {
        if !in_loop {
            return None;
        }
        match index_of_string(&cfg.macros, name) {
            Some(i) => {
                assert(views(cfg.macros@)[i as int] == name@);
                let mut op = String::from_str(name);
                op.append("!");
                Some(hot_emit(file, cfg, op, start, end))
            },
            None => {
                assert(!views(cfg.macros@).contains(name@)) by {
                    if views(cfg.macros@).contains(name@) {
                        let j = choose|j: int| 0 <= j < views(cfg.macros@).len() && views(cfg.macros@)[j] == name@;
                        assert(cfg.macros@[j]@ == name@);
                    }
                }
                None
            },
        }
    }
}

// ---------------------------------------------------------------------------
// architecture.banned_dependencies
// ---------------------------------------------------------------------------

/// The index of the first entry of `list` that `text` starts with, as a whole
/// path (the prefix ends at a segment boundary), if any.
pub open spec fn first_prefix(list: Seq<Seq<char>>, text: Seq<char>) -> Option<int> {
    if exists|i: int| 0 <= i < list.len() && prefix_matches(text, #[trigger] list[i]) {
        Some(choose|i: int| 0 <= i < list.len() && prefix_matches(text, #[trigger] list[i]) && forall|j: int|
            0 <= j < i ==> !prefix_matches(text, #[trigger] list[j]))
    } else {
        None
    }
}

pub open spec fn banned_finding(severity: Severity, text: Seq<char>, prefix: Seq<char>, span: SpanView) -> FindingView {
    FindingView {
        help: Some("Remove or replace dependency on `"@ + prefix + "`."@),
        primary: Some(span),
        tags: seq!["dependencies"@],
        ..rule_finding_view(banned_dependencies_info(), severity, "banned dependency path: "@ + text)
    }
}

fn first_prefix_exec(list: &Vec<String>, text: &str) -> (r: Option<usize>)
    ensures
        match r {
            Some(i) => first_prefix(views(list@), text@) == Some(i as int) && i < list@.len(),
            None => first_prefix(views(list@), text@) is None,
        },
{
    let ghost l = views(list@);
    let mut i: usize = 0;
    while i < list.len()
        invariant
            i <= list@.len(),
            l == views(list@),
            forall|j: int| 0 <= j < i ==> !prefix_matches(text@, #[trigger] l[j]),
        decreases list.len() - i,
    {
        assert(l[i as int] == list@[i as int]@);
        if matches_path_prefix(text, list[i].as_str()) {
            proof {
                let c = choose|q: int| 0 <= q < l.len() && prefix_matches(text@, #[trigger] l[q]) && forall|j: int|
                    0 <= j < q ==> !prefix_matches(text@, #[trigger] l[j]);
                if c > i {
                    assert(!prefix_matches(text@, l[i as int]));
                }
            }
            return Some(i);
        }
        i = i + 1;
    }
    None
}

impl BannedDependenciesRule {
    /// The rule has something to do: it is on and some prefix is banned.
    pub fn active(cfg: &BannedDependenciesConfig) -> (r: bool)
        ensures
            r == (cfg.level != Level::Allow && cfg.banned_prefixes@.len() > 0),
    {
        cfg.level.enabled() && cfg.banned_prefixes.len() > 0
    }

    /// A path with text `text` (white space removed): a finding when it names a
    /// banned path or something inside one, naming the first such prefix.
    pub fn check_path(
        file: &str,
        cfg: &BannedDependenciesConfig,
        text: &str,
        start: LineColumn,
        end: LineColumn,
    ) -> (r: Option<Finding>)
        ensures
            match first_prefix(views(cfg.banned_prefixes@), text@) {
                Some(i) => r matches Some(f) && f@ == banned_finding(
                    cfg.level.spec_severity(),
                    text@,
                    views(cfg.banned_prefixes@)[i],
                    span_of(file@, start, end),
                ),
                None => r is None,
            },
    {
        let i = match first_prefix_exec(&cfg.banned_prefixes, text) {
            Some(i) => i,
            None => return None,
        };
        let mut m = String::from_str("banned dependency path: ");
        m.append(text);
        let mut h = String::from_str("Remove or replace dependency on `");
        h.append(cfg.banned_prefixes[i].as_str());
        h.append("`.");
        let f = Finding::from_rule(BannedDependenciesRule::static_info(), cfg.level.to_severity(), m).with_primary(
            Span::from_pm_span(file, start, end),
        ).with_help(h).with_tags(tags_one("dependencies"));
        Some(f)
    }
}

// ---------------------------------------------------------------------------
// architecture.layer_direction
// ---------------------------------------------------------------------------

/// A layer: its name, the files it holds, and the layers it may depend on.
#[derive(Debug)]
pub struct LayerRuleSet {
    pub name: String,
    pub include_globs: Vec<String>,
    pub may_depend_on: Vec<String>,
}

#[derive(Debug)]
pub struct LayerDirectionConfig {
    pub level: Level,
    pub layers: Vec<LayerRuleSet>,
}

/// A layer as values.
pub type LayerData = (Seq<char>, Seq<Seq<char>>, Seq<Seq<char>>);

pub open spec fn layer_v(l: LayerRuleSet) -> LayerData {
    (l.name@, views(l.include_globs@), views(l.may_depend_on@))
}

/// The layer a table describes: a name is required.
pub open spec fn spec_layer(d: TomlData) -> Option<LayerData> {
    match d {
        TomlData::Table(t) => match (
            tget(t, "name"@),
            spec_read_strings(t, "include"@, Seq::empty()),
            spec_read_strings(t, "may_depend_on"@, Seq::empty()),
        ) {
            (Some(TomlData::Str(n)), Some(inc), Some(dep)) => Some((n, inc, dep)),
            _ => None,
        },
        _ => None,
    }
}

/// The layers an array describes, if each of its items is one.
pub open spec fn spec_layers(xs: Seq<TomlData>) -> Option<Seq<LayerData>>
    decreases xs.len(),
{
    if xs.len() == 0 {
        Some(Seq::empty())
    } else {
        match (spec_layers(xs.drop_last()), spec_layer(xs.last())) {
            (Some(ls), Some(l)) => Some(ls.push(l)),
            _ => None,
        }
    }
}

/// The layers under `layers`, none when absent.
pub open spec fn spec_read_layers(t: TableData) -> Option<Seq<LayerData>> {
    match tget(t, "layers"@) {
        None => Some(Seq::empty()),
        Some(TomlData::Array(xs)) => spec_layers(xs),
        Some(_) => None,
    }
}

fn no_strings() -> (r: Vec<String>)
    ensures
        views(r@) == Seq::<Seq<char>>::empty(),
{
    let r: Vec<String> = Vec::new();
    assert(views(r@) =~= Seq::<Seq<char>>::empty());
    r
}

fn read_layer(v: &TomlValue) -> (r: Option<LayerRuleSet>)
    ensures
        match r {
            Some(l) => spec_layer(v@) == Some(layer_v(l)),
            None => spec_layer(v@) is None,
        },
{
    match v {
        TomlValue::Table(t) => {
            let name = match t.get("name") {
                Some(TomlValue::String(n)) => n.clone(),
                _ => return None,
            };
            let include_globs = match read_strings(t, "include", no_strings()) {
                Ok(x) => x,
                Err(_) => return None,
            };
            let may_depend_on = match read_strings(t, "may_depend_on", no_strings()) {
                Ok(x) => x,
                Err(_) => return None,
            };
            Some(LayerRuleSet { name, include_globs, may_depend_on })
        },
        _ => None,
    }
}

proof fn lemma_layers_fail(d: Seq<TomlData>, k: int)
    requires
        0 <= k <= d.len(),
        spec_layers(d.take(k)) is None,
    ensures
        spec_layers(d) is None,
    decreases d.len() - k,
{
    if k < d.len() {
        assert(d.take(k + 1).drop_last() =~= d.take(k));
        lemma_layers_fail(d, k + 1);
    } else {
        assert(d.take(k) =~= d);
    }
}

fn read_layers(t: &TomlTable) -> (r: Result<Vec<LayerRuleSet>, String>)
    ensures
        match r {
            Ok(ls) => spec_read_layers(t@) == Some(ls@.map_values(|l: LayerRuleSet| layer_v(l))),
            Err(_) => spec_read_layers(t@) is None,
        },
{
    match t.get("layers") {
        None => {
            let v: Vec<LayerRuleSet> = Vec::new();
            assert(v@.map_values(|l: LayerRuleSet| layer_v(l)) =~= Seq::<LayerData>::empty());
            Ok(v)
        },
        Some(TomlValue::Array(xs)) => {
            let ghost d = view_values(xs@);
            let mut out: Vec<LayerRuleSet> = Vec::new();
            let mut i: usize = 0;
            assert(d.take(0) =~= Seq::<TomlData>::empty());
            assert(out@.map_values(|l: LayerRuleSet| layer_v(l)) =~= Seq::<LayerData>::empty());
            while i < xs.len()
                invariant
                    i <= xs@.len(),
                    d == view_values(xs@),
                    tget(t@, "layers"@) == Some(TomlData::Array(d)),
                    spec_layers(d.take(i as int)) == Some(out@.map_values(|l: LayerRuleSet| layer_v(l))),
                decreases xs.len() - i,
            {
                assert(d.take(i + 1).drop_last() =~= d.take(i as int));
                assert(d.take(i + 1).last() == xs@[i as int]@);
                match read_layer(&xs[i]) {
                    Some(l) => {
                        let ghost before = out@.map_values(|l: LayerRuleSet| layer_v(l));
                        out.push(l);
                        assert(out@.map_values(|l: LayerRuleSet| layer_v(l)) =~= before.push(layer_v(l)));
                    },
                    None => {
                        proof {
                            lemma_layers_fail(d, i + 1);
                        }
                        return Err(String::from_str("invalid value for key `layers`"));
                    },
                }
                i = i + 1;
            }
            assert(d.take(xs@.len() as int) =~= d);
            Ok(out)
        },
        Some(_) => Err(String::from_str("invalid value for key `layers`")),
    }
}

impl RuleOptions for LayerDirectionConfig {
    open spec fn spec_default_level() -> Level {
        Level::Allow
    }

    open spec fn decodable(t: TableData) -> bool {
        &&& spec_read_level(t, "level"@, Level::Allow) is Some
        &&& spec_read_layers(t) is Some
    }

    open spec fn decodes(t: TableData, v: Self) -> bool {
        &&& spec_read_level(t, "level"@, Level::Allow) == Some(v.level)
        &&& spec_read_layers(t) == Some(v.layers@.map_values(|l: LayerRuleSet| layer_v(l)))
    }

    fn default_level() -> (r: Level) {
        Level::Allow
    }

    fn from_table(t: &TomlTable) -> (r: Result<Self, String>) {
        let level = read_level(t, "level", Level::Allow);
        let layers = read_layers(t);
        match (level, layers) {
            (Ok(level), Ok(layers)) => Ok(LayerDirectionConfig { level, layers }),
            (Err(e), _) => Err(e),
            (_, Err(e)) => Err(e),
        }
    }
}

/// The index of the first layer whose include_globs globs match `path`.
pub open spec fn spec_match_layer(layers: Seq<LayerRuleSet>, path: Seq<char>) -> Option<int> {
    if exists|i: int| 0 <= i < layers.len() && lenient_match(views(#[trigger] layers[i].include_globs@), path) {
        Some(choose|i: int| 0 <= i < layers.len() && lenient_match(views(#[trigger] layers[i].include_globs@), path)
            && forall|j: int| 0 <= j < i ==> !lenient_match(views(#[trigger] layers[j].include_globs@), path))
    } else {
        None
    }
}

/// The index of the first layer that the file at `path` belongs to.
pub fn match_layer(layers: &Vec<LayerRuleSet>, path: &str) -> (r: Option<usize>)
    ensures
        match r {
            Some(i) => spec_match_layer(layers@, path@) == Some(i as int) && i < layers@.len(),
            None => spec_match_layer(layers@, path@) is None,
        },
{
    let mut i: usize = 0;
    while i < layers.len()
        invariant
            i <= layers@.len(),
            forall|j: int| 0 <= j < i ==> !lenient_match(views(#[trigger] layers@[j].include_globs@), path@),
        decreases layers.len() - i,
    {
        if lenient_globs_match(&layers[i].include_globs, path) {
            proof {
                let c = choose|q: int| 0 <= q < layers@.len() && lenient_match(views(#[trigger] layers@[q].include_globs@), path@)
                    && forall|j: int| 0 <= j < q ==> !lenient_match(views(#[trigger] layers@[j].include_globs@), path@);
                if c > i {
                    assert(!lenient_match(views(layers@[i as int].include_globs@), path@));
                }
            }
            return Some(i);
        }
        i = i + 1;
    }
    None
}

/// The index of the first layer `L` such that `text` starts with `crate::L`.
pub open spec fn spec_target_layer(layers: Seq<LayerRuleSet>, text: Seq<char>) -> Option<int> {
    if exists|i: int| 0 <= i < layers.len() && starts_with(text, "crate::"@ + (#[trigger] layers[i]).name@) {
        Some(choose|i: int| 0 <= i < layers.len() && starts_with(text, "crate::"@ + (#[trigger] layers[i]).name@)
            && forall|j: int| 0 <= j < i ==> !starts_with(text, "crate::"@ + (#[trigger] layers[j]).name@))
    } else {
        None
    }
}

pub open spec fn layer_finding(severity: Severity, current: Seq<char>, target: Seq<char>, text: Seq<char>, span: SpanView) -> FindingView {
    FindingView {
        help: Some("Move the dependency behind an allowed boundary."@),
        primary: Some(span),
        tags: seq!["architecture"@, "layers"@],
        ..rule_finding_view(
            layer_direction_info(),
            severity,
            "layer `"@ + current + "` cannot depend on `"@ + target + "` through `"@ + text + "`"@,
        )
    }
}

/// The finding for a `use` of `text` from a file of layer `current`: the first
/// layer the path names, when it is neither `current` nor one `current` may depend on.
pub open spec fn spec_check_layer(cfg: LayerDirectionConfig, current: int, text: Seq<char>, span: SpanView) -> Option<FindingView> {
    match spec_target_layer(cfg.layers@, text) {
        Some(t) => {
            let cur = cfg.layers@[current];
            let target = cfg.layers@[t];
            if target.name@ == cur.name@ || views(cur.may_depend_on@).contains(target.name@) {
                None
            } else {
                Some(layer_finding(cfg.level.spec_severity(), cur.name@, target.name@, text, span))
            }
        },
        None => None,
    }
}

/// The direction between layers: a `use` from a file of layer `current`
/// whose path names `crate::<name>` of layer `t` (the first layer so named)
/// is allowed when `t` is the current layer or one it may depend on, and is
/// otherwise flagged with both layers' names; a path that names no layer is
/// allowed.
pub proof fn layer_direction_law(cfg: LayerDirectionConfig, current: int, text: Seq<char>, span: SpanView, t: int)
    requires
        0 <= current < cfg.layers@.len(),
    ensures
        (forall|j: int| 0 <= j < cfg.layers@.len() ==> !starts_with(text, "crate::"@ + (#[trigger] cfg.layers@[j]).name@))
            ==> spec_check_layer(cfg, current, text, span) is None,
        0 <= t < cfg.layers@.len() && starts_with(text, "crate::"@ + cfg.layers@[t].name@) && (forall|j: int|
            0 <= j < t ==> !starts_with(text, "crate::"@ + (#[trigger] cfg.layers@[j]).name@)) ==> {
            let cur = cfg.layers@[current];
            let target = cfg.layers@[t];
            &&& (target.name@ == cur.name@ || views(cur.may_depend_on@).contains(target.name@))
                ==> spec_check_layer(cfg, current, text, span) is None
            &&& !(target.name@ == cur.name@ || views(cur.may_depend_on@).contains(target.name@)) ==> (spec_check_layer(
                cfg,
                current,
                text,
                span,
            ) matches Some(f) && f.message == "layer `"@ + cur.name@ + "` cannot depend on `"@ + target.name@
                + "` through `"@ + text + "`"@)
        },
{
    let ls = cfg.layers@;
    if 0 <= t < ls.len() && starts_with(text, "crate::"@ + ls[t].name@) && (forall|j: int|
        0 <= j < t ==> !starts_with(text, "crate::"@ + (#[trigger] ls[j]).name@)) {
        let c = choose|c: int| 0 <= c < ls.len() && starts_with(text, "crate::"@ + (#[trigger] ls[c]).name@)
            && forall|j: int| 0 <= j < c ==> !starts_with(text, "crate::"@ + (#[trigger] ls[j]).name@);
        if c < t {
            assert(!starts_with(text, "crate::"@ + ls[c].name@));
        } else if c > t {
            assert(!starts_with(text, "crate::"@ + ls[t].name@));
        }
    }
}

/// Banned dependencies: a path that names a banned prefix (itself or
/// something inside it) is flagged with its text, and the help names the
/// first such prefix in the list; a path that names none is not flagged.
pub proof fn banned_dependency_law(cfg: BannedDependenciesConfig, text: Seq<char>, i: int, span: SpanView)
    ensures
        (forall|j: int| 0 <= j < cfg.banned_prefixes@.len() ==> !prefix_matches(text, #[trigger] cfg.banned_prefixes@[j]@))
            ==> first_prefix(views(cfg.banned_prefixes@), text) is None,
        0 <= i < cfg.banned_prefixes@.len() && prefix_matches(text, cfg.banned_prefixes@[i]@) && (forall|j: int|
            0 <= j < i ==> !prefix_matches(text, #[trigger] cfg.banned_prefixes@[j]@)) ==> first_prefix(
            views(cfg.banned_prefixes@),
            text,
        ) == Some(i) && banned_finding(cfg.level.spec_severity(), text, views(cfg.banned_prefixes@)[i], span).message
            == "banned dependency path: "@ + text && banned_finding(
            cfg.level.spec_severity(),
            text,
            views(cfg.banned_prefixes@)[i],
            span,
        ).help == Some("Remove or replace dependency on `"@ + cfg.banned_prefixes@[i]@ + "`."@),
{
    let l = views(cfg.banned_prefixes@);
    assert forall|j: int| 0 <= j < l.len() implies #[trigger] l[j] == cfg.banned_prefixes@[j]@ by {}
    if 0 <= i < l.len() && prefix_matches(text, l[i]) && (forall|j: int|
        0 <= j < i ==> !prefix_matches(text, #[trigger] cfg.banned_prefixes@[j]@)) {
        let c = choose|c: int| 0 <= c < l.len() && prefix_matches(text, #[trigger] l[c]) && forall|j: int|
            0 <= j < c ==> !prefix_matches(text, #[trigger] l[j]);
        if c < i {
            assert(!prefix_matches(text, cfg.banned_prefixes@[c]@));
        } else if c > i {
            assert(!prefix_matches(text, l[i]));
        }
    }
    if forall|j: int| 0 <= j < cfg.banned_prefixes@.len() ==> !prefix_matches(text, #[trigger] cfg.banned_prefixes@[j]@) {
        if exists|k: int| 0 <= k < l.len() && prefix_matches(text, #[trigger] l[k]) {
            let k = choose|k: int| 0 <= k < l.len() && prefix_matches(text, #[trigger] l[k]);
            assert(!prefix_matches(text, cfg.banned_prefixes@[k]@));
        }
    }
}

impl LayerDirectionRule {
    /// The rule has something to do: it is on and has layers.
    pub fn active(cfg: &LayerDirectionConfig) -> (r: bool)
        ensures
            r == (cfg.level != Level::Allow && cfg.layers@.len() > 0),
    {
        cfg.level.enabled() && cfg.layers.len() > 0
    }

    /// A `use` of the path with text `text` in a file of layer `current`.
    pub fn check_use(
        file: &str,
        cfg: &LayerDirectionConfig,
        current: usize,
        text: &str,
        start: LineColumn,
        end: LineColumn,
    ) -> (r: Option<Finding>)
        requires
            current < cfg.layers@.len(),
        ensures
            match spec_check_layer(*cfg, current as int, text@, span_of(file@, start, end)) {
                Some(v) => r matches Some(f) && f@ == v,
                None => r is None,
            },
    {
        let layers = &cfg.layers;
        let mut i: usize = 0;
        let mut target: Option<usize> = None;
        while i < layers.len()
            invariant_except_break
                target is None,
                forall|j: int| 0 <= j < i ==> !starts_with(text@, "crate::"@ + (#[trigger] layers@[j]).name@),
            invariant
                i <= layers@.len(),
            ensures
                target is None ==> forall|j: int| 0 <= j < layers@.len() ==> !starts_with(text@, "crate::"@ + (#[trigger] layers@[j]).name@),
                target matches Some(t) ==> t < layers@.len() && starts_with(text@, "crate::"@ + layers@[t as int].name@)
                    && forall|j: int| 0 <= j < t ==> !starts_with(text@, "crate::"@ + (#[trigger] layers@[j]).name@),
            decreases layers.len() - i,
        {
            let mut full = String::from_str("crate::");
            full.append(layers[i].name.as_str());
            if starts_with_str(text, full.as_str()) {
                target = Some(i);
                break;
            }
            i = i + 1;
        }
        let t = match target {
            Some(t) => t,
            None => {
                assert(spec_target_layer(layers@, text@) is None);
                return None;
            },
        };
        proof {
            let c = choose|q: int| 0 <= q < layers@.len() && starts_with(text@, "crate::"@ + (#[trigger] layers@[q]).name@)
                && forall|j: int| 0 <= j < q ==> !starts_with(text@, "crate::"@ + (#[trigger] layers@[j]).name@);
            if c > t {
                assert(!starts_with(text@, "crate::"@ + layers@[t as int].name@));
            }
            assert(spec_target_layer(layers@, text@) == Some(t as int));
        }
        let cur = &layers[current];
        let target_name = layers[t].name.as_str();
        if str_eq(target_name, cur.name.as_str()) {
            return None;
        }
        match index_of_string(&cur.may_depend_on, target_name) {
            Some(k) => {
                assert(views(cur.may_depend_on@)[k as int] == target_name@);
                return None;
            },
            None => {
                assert(!views(cur.may_depend_on@).contains(target_name@)) by {
                    if views(cur.may_depend_on@).contains(target_name@) {
                        let j = choose|j: int| 0 <= j < views(cur.may_depend_on@).len() && views(cur.may_depend_on@)[j] == target_name@;
                        assert(cur.may_depend_on@[j]@ == target_name@);
                    }
                }
            },
        }
        let mut m = String::from_str("layer `");
        m.append(cur.name.as_str());
        m.append("` cannot depend on `");
        m.append(target_name);
        m.append("` through `");
        m.append(text);
        m.append("`");
        let f = Finding::from_rule(LayerDirectionRule::static_info(), cfg.level.to_severity(), m).with_primary(
            Span::from_pm_span(file, start, end),
        ).with_help(String::from_str("Move the dependency behind an allowed boundary.")).with_tags(
            tags_two("architecture", "layers"),
        );
        Some(f)
    }
}

} // verus!

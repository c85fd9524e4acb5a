//! Rules that look at the top-level items of a file: `design.god_object`,
//! `shape.responsibility_split`, `design.public_api_errors` and
//! `testing.external_test_modules`.
use vstd::prelude::*;
use vstd::string::*;
use crate::chars::has_sub;
use crate::config::read::views;
use crate::config::rule_options::{
    ExternalTestModulesConfig, GodObjectConfig, PublicApiErrorsConfig, SrpHeuristicConfig,
};
use crate::path_pattern::{matches_path_prefix, prefix_matches};
use crate::report::{Finding, FindingLabel, FindingLabelKind, FindingView, Severity, SpanView, rule_finding_view};
use crate::rules::catalog::{
    ExternalTestModulesRule, GodObjectRule, PublicApiErrorsRule, SrpHeuristicRule, external_test_modules_info,
    god_object_info, public_api_errors_info, responsibility_split_info,
};
use crate::span::{LineColumn, Span, location_of};
use crate::text::{decimal, u64_to_string};

verus! {

/// An attribute as text: its path and its whole meta, white space removed
/// from the path.
#[derive(Debug)]
pub struct AttrText {
    pub path: String,
    pub tokens: String,
}

/// A generic argument of a return type's last path segment: whether it is a
/// type, and its text with white space removed.
#[derive(Debug)]
pub struct GenericArgText {
    pub is_type: bool,
    pub text: String,
}

/// The return type of a function, as far as the rules read it.
#[derive(Debug)]
pub enum ReturnText {
    /// No return type, or one that is not a path.
    Other,
    /// A path type: its last segment's name and, when written with angle
    /// brackets, that segment's generic arguments.
    Path { last_ident: String, args: Option<Vec<GenericArgText>> },
}

/// A top-level item of a file, as far as the rules read it.
#[derive(Debug)]
pub enum TopItem {
    Struct { name: String, fields: usize, start: LineColumn, end: LineColumn },
    Enum { name: String, variants: usize, start: LineColumn, end: LineColumn },
    /// An impl block; each of its items is marked `true` when it is a function.
    Impl { items_are_fns: Vec<bool>, start: LineColumn, end: LineColumn },
    /// A function; the span is that of its name.
    Fn { name: String, public: bool, output: ReturnText, start: LineColumn, end: LineColumn },
    /// A module, with its attributes; `inline` when it has a body.
    Mod { name: String, attrs: Vec<AttrText>, inline: bool, start: LineColumn, end: LineColumn },
    Other,
}

pub open spec fn span_of(file: Seq<char>, start: LineColumn, end: LineColumn) -> SpanView {
    (file, location_of(start), location_of(end))
}

/// The number of `true` entries.
pub open spec fn count_true(s: Seq<bool>) -> nat
    decreases s.len(),
{
    if s.len() == 0 {
        0
    } else {
        count_true(s.drop_last()) + if s.last() { 1nat } else { 0nat }
    }
}

fn count_fns(items: &Vec<bool>) -> (r: usize)
    ensures
        r == count_true(items@),
{
    let mut n: usize = 0;
    let mut i: usize = 0;
    while i < items.len()
        invariant
            i <= items@.len(),
            n == count_true(items@.take(i as int)),
            n <= i,
        decreases items.len() - i,
    {
        assert(items@.take(i + 1).drop_last() =~= items@.take(i as int));
        assert(items@.take(i + 1).last() == items@[i as int]);
        if items[i] {
            n = n + 1;
        }
        i = i + 1;
    }
    assert(items@.take(items@.len() as int) =~= items@);
    n
}

fn tags_of(a: &str, b: Option<&str>) -> (r: Vec<String>)
    ensures
        r@.map_values(|t: String| t@) == match b {
            Some(b) => seq![a@, b@],
            None => seq![a@],
        },
{
    let r = match b {
        Some(b) => vec![a.to_owned(), b.to_owned()],
        None => vec![a.to_owned()],
    };
    proof {
        match b {
            Some(bb) => assert(r@.map_values(|t: String| t@) =~= seq![a@, bb@]),
            None => assert(r@.map_values(|t: String| t@) =~= seq![a@]),
        }
    }
    r
}

// ---------------------------------------------------------------------------
// design.god_object
// ---------------------------------------------------------------------------

pub open spec fn god_help() -> Seq<char> {
    "Split storage, normalization, checking, diagnostics, and effects into focused types."@
}

pub open spec fn god_finding(severity: Severity, message: Seq<char>, span: SpanView) -> FindingView {
    FindingView {
        help: Some(god_help()),
        primary: Some(span),
        confidence: Some("medium"@),
        tags: seq!["srp"@, "shape"@],
        ..rule_finding_view(god_object_info(), severity, message)
    }
}

/// The finding for one item: a struct with more fields, an enum with more
/// variants, or an impl with more methods than allowed.
pub open spec fn spec_god_item(file: Seq<char>, cfg: GodObjectConfig, item: TopItem) -> Option<FindingView> {
    let sev = cfg.level.spec_severity();
    match item {
        TopItem::Struct { name, fields, start, end } => if fields > cfg.max_fields {
            Some(god_finding(sev, "struct `"@ + name@ + "` has "@ + decimal(fields as nat) + " fields"@, span_of(file, start, end)))
        } else {
            None
        },
        TopItem::Enum { name, variants, start, end } => if variants > cfg.max_variants {
            Some(god_finding(sev, "enum `"@ + name@ + "` has "@ + decimal(variants as nat) + " variants"@, span_of(file, start, end)))
        } else {
            None
        },
        TopItem::Impl { items_are_fns, start, end } => if count_true(items_are_fns@) > cfg.max_methods {
            Some(god_finding(sev, "impl block has "@ + decimal(count_true(items_are_fns@)) + " methods"@, span_of(file, start, end)))
        } else {
            None
        },
        _ => None,
    }
}

proof fn lemma_count_true_filter(s: Seq<bool>)
    ensures
        count_true(s) == s.filter(|b: bool| b).len(),
    decreases s.len(),
{
    reveal(Seq::filter);
    if s.len() > 0 {
        lemma_count_true_filter(s.drop_last());
    }
}

/// An impl block is a god object exactly when it has more functions than
/// `max_methods`, and the finding says how many it has; the other limits
/// (`max_fields`, `max_variants`) play no part in it.
pub proof fn impl_blocks_judged_by_method_count(file: Seq<char>, cfg: GodObjectConfig, other: GodObjectConfig, item: TopItem)
    requires
        item is Impl,
        other.level == cfg.level,
        other.max_methods == cfg.max_methods,
    ensures
        ({
            let n = item->items_are_fns@.filter(|b: bool| b).len();
            &&& spec_god_item(file, cfg, item) is Some <==> n > cfg.max_methods
            &&& spec_god_item(file, cfg, item) matches Some(v) ==> v.message == "impl block has "@ + decimal(n)
                + " methods"@
            &&& spec_god_item(file, other, item) == spec_god_item(file, cfg, item)
        }),
{
    lemma_count_true_filter(item->items_are_fns@);
}

/// A struct is a god object exactly when it has more fields than
/// `max_fields`, and an enum exactly when it has more variants than
/// `max_variants`; each finding names the item and its count, and no other
/// limit plays a part.
pub proof fn structs_and_enums_judged_by_their_own_limit(
    file: Seq<char>,
    cfg: GodObjectConfig,
    other: GodObjectConfig,
    item: TopItem,
)
    requires
        other.level == cfg.level,
    ensures
        item is Struct ==> {
            &&& spec_god_item(file, cfg, item) is Some <==> item->Struct_fields > cfg.max_fields
            &&& spec_god_item(file, cfg, item) matches Some(v) ==> v.message == "struct `"@ + item->Struct_name@
                + "` has "@ + decimal(item->Struct_fields as nat) + " fields"@
            &&& other.max_fields == cfg.max_fields ==> spec_god_item(file, other, item) == spec_god_item(file, cfg, item)
        },
        item is Enum ==> {
            &&& spec_god_item(file, cfg, item) is Some <==> item->variants > cfg.max_variants
            &&& spec_god_item(file, cfg, item) matches Some(v) ==> v.message == "enum `"@ + item->Enum_name@
                + "` has "@ + decimal(item->variants as nat) + " variants"@
            &&& other.max_variants == cfg.max_variants ==> spec_god_item(file, other, item) == spec_god_item(
                file,
                cfg,
                item,
            )
        },
{
}

fn god_emit(file: &str, cfg: &GodObjectConfig, message: String, start: LineColumn, end: LineColumn) -> (r: Finding)
    ensures
        r@ == god_finding(cfg.level.spec_severity(), message@, span_of(file@, start, end)),
{
    Finding::from_rule(GodObjectRule::static_info(), cfg.level.to_severity(), message).with_primary(
        Span::from_pm_span(file, start, end),
    ).with_help(
        String::from_str("Split storage, normalization, checking, diagnostics, and effects into focused types."),
    ).with_confidence(String::from_str("medium")).with_tags(tags_of("srp", Some("shape")))
}

fn named_count(prefix: &str, name: &str, middle: &str, count: usize, suffix: &str) -> (r: String)
    ensures
        r@ == prefix@ + name@ + middle@ + decimal(count as nat) + suffix@,
{
    let mut m = String::from_str(prefix);
    m.append(name);
    m.append(middle);
    m.append(u64_to_string(count as u64).as_str());
    m.append(suffix);
    m
}

fn count_text(prefix: &str, count: usize, suffix: &str) -> (r: String)
    ensures
        r@ == prefix@ + decimal(count as nat) + suffix@,
{
    let mut m = String::from_str(prefix);
    m.append(u64_to_string(count as u64).as_str());
    m.append(suffix);
    m
}

impl GodObjectRule {
    /// The finding for one top-level item, if it is too large.
    pub fn check_item(file: &str, cfg: &GodObjectConfig, item: &TopItem) -> (r: Option<Finding>)
        ensures
            match spec_god_item(file@, *cfg, *item) {
                Some(v) => r matches Some(f) && f@ == v,
                None => r is None,
            },
    {
        match item {
            TopItem::Struct { name, fields, start, end } => {
                if *fields > cfg.max_fields {
                    let m = named_count("struct `", name.as_str(), "` has ", *fields, " fields");
                    Some(god_emit(file, cfg, m, *start, *end))
                } else {
                    None
                }
            },
            TopItem::Enum { name, variants, start, end } => {
                if *variants > cfg.max_variants {
                    let m = named_count("enum `", name.as_str(), "` has ", *variants, " variants");
                    Some(god_emit(file, cfg, m, *start, *end))
                } else {
                    None
                }
            },
            TopItem::Impl { items_are_fns, start, end } => {
                let n = count_fns(items_are_fns);
                if n > cfg.max_methods {
                    let m = count_text("impl block has ", n, " methods");
                    Some(god_emit(file, cfg, m, *start, *end))
                } else {
                    None
                }
            },
            _ => None,
        }
    }

    /// The findings for the top-level items of a file, in order; none when the
    /// rule is off.
    pub fn check_items(file: &str, cfg: &GodObjectConfig, items: &Vec<TopItem>) -> (r: Vec<Finding>)
        ensures
            r@.map_values(|f: Finding| f@) == if cfg.level.spec_severity() == Severity::Info {
                Seq::empty()
            } else {
                god_findings(file@, *cfg, items@)
            },
    {
        let mut out: Vec<Finding> = Vec::new();
        if !cfg.level.enabled() {
            assert(out@.map_values(|f: Finding| f@) =~= Seq::<FindingView>::empty());
            return out;
        }
        let mut i: usize = 0;
        assert(out@.map_values(|f: Finding| f@) =~= god_findings(file@, *cfg, items@.take(0)));
        while i < items.len()
            invariant
                i <= items@.len(),
                out@.map_values(|f: Finding| f@) == god_findings(file@, *cfg, items@.take(i as int)),
            decreases items.len() - i,
        {
            assert(items@.take(i + 1).drop_last() =~= items@.take(i as int));
            assert(items@.take(i + 1).last() == items@[i as int]);
            let ghost before = out@.map_values(|f: Finding| f@);
            match GodObjectRule::check_item(file, cfg, &items[i]) {
                Some(f) => {
                    out.push(f);
                    assert(out@.map_values(|f: Finding| f@) =~= before.push(f@));
                },
                None => {},
            }
            i = i + 1;
        }
        assert(items@.take(items@.len() as int) =~= items@);
        out
    }
}

/// The findings for the items, in order.
pub open spec fn god_findings(file: Seq<char>, cfg: GodObjectConfig, items: Seq<TopItem>) -> Seq<FindingView>
    decreases items.len(),
{
    if items.len() == 0 {
        Seq::empty()
    } else {
        god_findings(file, cfg, items.drop_last()) + match spec_god_item(file, cfg, items.last()) {
            Some(v) => seq![v],
            None => Seq::empty(),
        }
    }
}

// ---------------------------------------------------------------------------
// shape.responsibility_split
// ---------------------------------------------------------------------------

pub open spec fn srp_finding(severity: Severity, methods: nat, span: SpanView) -> FindingView {
    FindingView {
        help: Some("This is a heuristic; verify SRP boundaries with domain context."@),
        primary: Some(span),
        tags: seq!["design"@],
        ..rule_finding_view(
            responsibility_split_info(),
            severity,
            "impl block has "@ + decimal(methods) + " methods; consider splitting responsibilities"@,
        )
    }
}

/// The findings for the impl blocks with more methods than the threshold, in order.
pub open spec fn srp_findings(file: Seq<char>, cfg: SrpHeuristicConfig, items: Seq<TopItem>) -> Seq<FindingView>
    decreases items.len(),
{
    if items.len() == 0 {
        Seq::empty()
    } else {
        srp_findings(file, cfg, items.drop_last()) + match items.last() {
            TopItem::Impl { items_are_fns, start, end } => if count_true(items_are_fns@) > cfg.method_count_threshold {
                seq![srp_finding(cfg.level.spec_severity(), count_true(items_are_fns@), span_of(file, start, end))]
            } else {
                Seq::empty()
            },
            _ => Seq::empty(),
        }
    }
}

/// The responsibility-split heuristic flags an impl block exactly when it
/// has more functions than `method_count_threshold`, saying how many; it
/// flags no other item.
pub proof fn srp_flags_impls_over_threshold(file: Seq<char>, cfg: SrpHeuristicConfig, item: TopItem)
    ensures
        item is Impl ==> ({
            let n = item->items_are_fns@.filter(|b: bool| b).len();
            &&& srp_findings(file, cfg, seq![item]).len() == if n > cfg.method_count_threshold { 1int } else { 0int }
            &&& n > cfg.method_count_threshold ==> srp_findings(file, cfg, seq![item])[0].message == "impl block has "@
                + decimal(n) + " methods; consider splitting responsibilities"@
        }),
        !(item is Impl) ==> srp_findings(file, cfg, seq![item]).len() == 0,
{
    let s = seq![item];
    assert(s.drop_last() =~= Seq::<TopItem>::empty());
    assert(s.last() == item);
    assert(srp_findings(file, cfg, Seq::<TopItem>::empty()) == Seq::<FindingView>::empty());
    assert(srp_findings(file, cfg, s) == srp_findings(file, cfg, s.drop_last()) + match s.last() {
        TopItem::Impl { items_are_fns, start, end } => if count_true(items_are_fns@) > cfg.method_count_threshold {
            seq![srp_finding(cfg.level.spec_severity(), count_true(items_are_fns@), span_of(file, start, end))]
        } else {
            Seq::empty()
        },
        _ => Seq::empty(),
    });
    if item is Impl {
        lemma_count_true_filter(item->items_are_fns@);
    }
}

impl SrpHeuristicRule {
    /// The findings for the impl blocks among the top-level items of a file.
    pub fn check_items(file: &str, cfg: &SrpHeuristicConfig, items: &Vec<TopItem>) -> (r: Vec<Finding>)
        ensures
            r@.map_values(|f: Finding| f@) == srp_findings(file@, *cfg, items@),
    {
        let mut out: Vec<Finding> = Vec::new();
        let mut i: usize = 0;
        assert(out@.map_values(|f: Finding| f@) =~= srp_findings(file@, *cfg, items@.take(0)));
        while i < items.len()
            invariant
                i <= items@.len(),
                out@.map_values(|f: Finding| f@) == srp_findings(file@, *cfg, items@.take(i as int)),
            decreases items.len() - i,
        {
            assert(items@.take(i + 1).drop_last() =~= items@.take(i as int));
            assert(items@.take(i + 1).last() == items@[i as int]);
            let ghost before = out@.map_values(|f: Finding| f@);
            match &items[i] {
                TopItem::Impl { items_are_fns, start, end } => {
                    let methods = count_fns(items_are_fns);
                    if methods > cfg.method_count_threshold {
                        let m = count_text("impl block has ", methods, " methods; consider splitting responsibilities");
                        let f = Finding::from_rule(SrpHeuristicRule::static_info(), cfg.level.to_severity(), m).with_primary(
                            Span::from_pm_span(file, *start, *end),
                        ).with_help(String::from_str("This is a heuristic; verify SRP boundaries with domain context.")).with_tags(
                            tags_of("design", None),
                        );
                        out.push(f);
                        assert(out@.map_values(|f: Finding| f@) =~= before.push(f@));
                    }
                },
                _ => {},
            }
            i = i + 1;
        }
        assert(items@.take(items@.len() as int) =~= items@);
        out
    }
}

// ---------------------------------------------------------------------------
// design.public_api_errors
// ---------------------------------------------------------------------------

/// The type arguments among the generic arguments, in order.
pub open spec fn type_args(args: Seq<GenericArgText>) -> Seq<Seq<char>>
    decreases args.len(),
{
    if args.len() == 0 {
        Seq::empty()
    } else {
        type_args(args.drop_last()) + if args.last().is_type {
            seq![args.last().text@]
        } else {
            Seq::empty()
        }
    }
}

/// The error type of a `Result` return type: the second type argument of a last
/// segment named `Result`.
pub open spec fn spec_error_type(out: ReturnText) -> Option<Seq<char>> {
    match out {
        ReturnText::Path { last_ident, args: Some(args) } => if last_ident@ == "Result"@ && type_args(args@).len() >= 2 {
            Some(type_args(args@)[1])
        } else {
            None
        },
        _ => None,
    }
}

fn error_type(out: &ReturnText) -> (r: Option<String>)
    ensures
        match spec_error_type(*out) {
            Some(e) => r matches Some(s) && s@ == e,
            None => r is None,
        },
{
    match out {
        ReturnText::Path { last_ident, args: Some(args) } => {
            if !crate::config::value::str_eq(last_ident.as_str(), "Result") {
                return None;
            }
            let mut found: Vec<String> = Vec::new();
            let mut i: usize = 0;
            while i < args.len()
                invariant
                    i <= args@.len(),
                    views(found@) == type_args(args@.take(i as int)),
                decreases args.len() - i,
            {
                assert(args@.take(i + 1).drop_last() =~= args@.take(i as int));
                assert(args@.take(i + 1).last() == args@[i as int]);
                let ghost before = views(found@);
                if args[i].is_type {
                    found.push(args[i].text.clone());
                    assert(views(found@) =~= before + seq![args@[i as int].text@]);
                } else {
                    assert(before + Seq::<Seq<char>>::empty() =~= before);
                }
                i = i + 1;
            }
            assert(args@.take(args@.len() as int) =~= args@);
            if found.len() >= 2 {
                assert(views(found@)[1] == found@[1]@);
                Some(found[1].clone())
            } else {
                None
            }
        },
        _ => None,
    }
}

/// Some allowed type is a path prefix of `ty`.
pub open spec fn error_allowed(ty: Seq<char>, allowed: Seq<Seq<char>>) -> bool {
    exists|i: int| 0 <= i < allowed.len() && prefix_matches(ty, #[trigger] allowed[i])
}

pub open spec fn api_finding(severity: Severity, ty: Seq<char>, name: Seq<char>, span: SpanView) -> FindingView {
    FindingView {
        help: Some("Return an approved error type from this public API."@),
        primary: Some(span),
        tags: seq!["api"@, "errors"@],
        ..rule_finding_view(
            public_api_errors_info(),
            severity,
            "public API returns disallowed error type `"@ + ty + "` in `"@ + name + "`"@,
        )
    }
}

/// The finding for one item: a public function returning a `Result` whose error
/// type no allowed type covers.
pub open spec fn spec_api_item(file: Seq<char>, cfg: PublicApiErrorsConfig, item: TopItem) -> Option<FindingView> {
    match item {
        TopItem::Fn { name, public, output, start, end } => if public {
            match spec_error_type(output) {
                Some(ty) => if error_allowed(ty, views(cfg.allowed_error_types@)) {
                    None
                } else {
                    Some(api_finding(cfg.level.spec_severity(), ty, name@, span_of(file, start, end)))
                },
                None => None,
            }
        } else {
            None
        },
        _ => None,
    }
}

pub open spec fn api_findings(file: Seq<char>, cfg: PublicApiErrorsConfig, items: Seq<TopItem>) -> Seq<FindingView>
    decreases items.len(),
{
    if items.len() == 0 {
        Seq::empty()
    } else {
        api_findings(file, cfg, items.drop_last()) + match spec_api_item(file, cfg, items.last()) {
            Some(v) => seq![v],
            None => Seq::empty(),
        }
    }
}

impl PublicApiErrorsRule {
    /// The finding for one top-level item.
    pub fn check_item(file: &str, cfg: &PublicApiErrorsConfig, item: &TopItem) -> (r: Option<Finding>)
        ensures
            match spec_api_item(file@, *cfg, *item) {
                Some(v) => r matches Some(f) && f@ == v,
                None => r is None,
            },
    {
        match item {
            TopItem::Fn { name, public, output, start, end } => {
                if !*public {
                    return None;
                }
                let ty = match error_type(output) {
                    Some(t) => t,
                    None => return None,
                };
                let mut i: usize = 0;
                while i < cfg.allowed_error_types.len()
                    invariant
                        i <= cfg.allowed_error_types@.len(),
                        *item == (TopItem::Fn { name: *name, public: *public, output: *output, start: *start, end: *end }),
                        *public,
                        spec_error_type(*output) == Some(ty@),
                        forall|j: int| 0 <= j < i ==> !prefix_matches(ty@, #[trigger] views(cfg.allowed_error_types@)[j]),
                    decreases cfg.allowed_error_types.len() - i,
                {
                    assert(views(cfg.allowed_error_types@)[i as int] == cfg.allowed_error_types@[i as int]@);
                    if matches_path_prefix(ty.as_str(), cfg.allowed_error_types[i].as_str()) {
                        assert(prefix_matches(ty@, views(cfg.allowed_error_types@)[i as int]));
                        return None;
                    }
                    i = i + 1;
                }
                let mut m = String::from_str("public API returns disallowed error type `");
                m.append(ty.as_str());
                m.append("` in `");
                m.append(name.as_str());
                m.append("`");
                let f = Finding::from_rule(PublicApiErrorsRule::static_info(), cfg.level.to_severity(), m).with_primary(
                    Span::from_pm_span(file, *start, *end),
                ).with_help(String::from_str("Return an approved error type from this public API.")).with_tags(
                    tags_of("api", Some("errors")),
                );
                Some(f)
            },
            _ => None,
        }
    }

    /// The findings for the top-level items of a file, in order; none when the
    /// rule is off.
    pub fn check_items(file: &str, cfg: &PublicApiErrorsConfig, items: &Vec<TopItem>) -> (r: Vec<Finding>)
        ensures
            r@.map_values(|f: Finding| f@) == if cfg.level.spec_severity() == Severity::Info {
                Seq::empty()
            } else {
                api_findings(file@, *cfg, items@)
            },
    {
        let mut out: Vec<Finding> = Vec::new();
        if !cfg.level.enabled() {
            assert(out@.map_values(|f: Finding| f@) =~= Seq::<FindingView>::empty());
            return out;
        }
        let mut i: usize = 0;
        assert(out@.map_values(|f: Finding| f@) =~= api_findings(file@, *cfg, items@.take(0)));
        while i < items.len()
            invariant
                i <= items@.len(),
                out@.map_values(|f: Finding| f@) == api_findings(file@, *cfg, items@.take(i as int)),
            decreases items.len() - i,
        {
            assert(items@.take(i + 1).drop_last() =~= items@.take(i as int));
            assert(items@.take(i + 1).last() == items@[i as int]);
            let ghost before = out@.map_values(|f: Finding| f@);
            match PublicApiErrorsRule::check_item(file, cfg, &items[i]) {
                Some(f) => {
                    out.push(f);
                    assert(out@.map_values(|f: Finding| f@) =~= before.push(f@));
                },
                None => {},
            }
            i = i + 1;
        }
        assert(items@.take(items@.len() as int) =~= items@);
        out
    }
}

// ---------------------------------------------------------------------------
// testing.external_test_modules
// ---------------------------------------------------------------------------

/// An attribute `cfg(..)` that mentions `test`.
pub open spec fn is_cfg_test(a: AttrText) -> bool {
    a.path@ == "cfg"@ && has_sub(a.tokens@, "test"@)
}

pub open spec fn spec_has_cfg_test(attrs: Seq<AttrText>) -> bool {
    exists|i: int| 0 <= i < attrs.len() && is_cfg_test(#[trigger] attrs[i])
}

pub fn has_cfg_test(attrs: &Vec<AttrText>) -> (r: bool)
    ensures
        r == spec_has_cfg_test(attrs@),
{
    let mut i: usize = 0;
    while i < attrs.len()
        invariant
            i <= attrs@.len(),
            forall|j: int| 0 <= j < i ==> !is_cfg_test(#[trigger] attrs@[j]),
        decreases attrs.len() - i,
    {
        if crate::config::value::str_eq(attrs[i].path.as_str(), "cfg") && crate::chars::contains_str(
            attrs[i].tokens.as_str(),
            "test",
        ) {
            assert(is_cfg_test(attrs@[i as int]));
            return true;
        }
        i = i + 1;
    }
    false
}

/// Where a module's external test file is expected, next to the source file
/// `source`: beside it for `lib.rs`, `main.rs` and `mod.rs`, in a directory named
/// after it otherwise. Paths use `/`; `None` for an empty path.
pub open spec fn spec_expected_path(source: Seq<char>, expected: Seq<char>) -> Option<Seq<char>> {
    if source.len() == 0 {
        None
    } else {
        let cut = last_slash(source);
        let parent = if cut < 0 { Seq::empty() } else if cut == 0 { "/"@ } else { source.take(cut) };
        let name = source.skip(cut + 1);
        let stem = file_stem(name);
        let dir = if stem == "lib"@ || stem == "main"@ || stem == "mod"@ {
            parent
        } else {
            join_path(parent, stem)
        };
        Some(join_path(dir, expected))
    }
}

/// The index of the last `/` in `s`, or -1.
pub open spec fn last_slash(s: Seq<char>) -> int
    decreases s.len(),
{
    if s.len() == 0 {
        -1
    } else if s.last() == '/' {
        s.len() - 1
    } else {
        last_slash(s.drop_last())
    }
}

/// The index of the last `.` in `s`, or -1.
pub open spec fn last_dot(s: Seq<char>) -> int
    decreases s.len(),
{
    if s.len() == 0 {
        -1
    } else if s.last() == '.' {
        s.len() - 1
    } else {
        last_dot(s.drop_last())
    }
}

/// A file name without its extension (a name whose only dot leads keeps it).
pub open spec fn file_stem(name: Seq<char>) -> Seq<char> {
    if last_dot(name) <= 0 {
        name
    } else {
        name.take(last_dot(name))
    }
}

/// `child` under `dir`.
pub open spec fn join_path(dir: Seq<char>, child: Seq<char>) -> Seq<char> {
    if dir.len() == 0 {
        child
    } else if dir.last() == '/' {
        dir + child
    } else {
        dir + "/"@ + child
    }
}

proof fn lemma_last_bounds(s: Seq<char>)
    ensures
        -1 <= last_slash(s) < s.len(),
        last_slash(s) >= 0 ==> s[last_slash(s)] == '/',
        forall|j: int| last_slash(s) < j < s.len() ==> s[j] != '/',
        -1 <= last_dot(s) < s.len(),
        forall|j: int| last_dot(s) < j < s.len() ==> s[j] != '.',
    decreases s.len(),
{
    if s.len() > 0 {
        let t = s.drop_last();
        lemma_last_bounds(t);
        assert forall|j: int| last_slash(s) < j < s.len() implies s[j] != '/' by {
            if j < s.len() - 1 {
                assert(s[j] == t[j]);
            }
        }
        assert forall|j: int| last_dot(s) < j < s.len() implies s[j] != '.' by {
            if j < s.len() - 1 {
                assert(s[j] == t[j]);
            }
        }
        if last_slash(s) >= 0 && last_slash(s) < s.len() - 1 {
            assert(s[last_slash(s)] == t[last_slash(s)]);
        }
    }
}

fn find_last(cs: &Vec<char>, c: char) -> (r: i64)
    requires
        cs@.len() < i64::MAX,
        c == '/' || c == '.',
    ensures
        c == '/' ==> r == last_slash(cs@),
        c == '.' ==> r == last_dot(cs@),
{
    let mut i: usize = cs.len();
    assert(cs@.take(cs@.len() as int) =~= cs@);
    while i > 0
        invariant
            i <= cs@.len() < i64::MAX,
            c == '/' ==> last_slash(cs@) == last_slash(cs@.take(i as int)),
            c == '.' ==> last_dot(cs@) == last_dot(cs@.take(i as int)),
        decreases i,
    {
        assert(cs@.take(i as int).last() == cs@[i - 1]);
        assert(cs@.take(i as int).drop_last() =~= cs@.take(i - 1));
        if cs[i - 1] == c {
            return (i - 1) as i64;
        }
        i = i - 1;
    }
    assert(cs@.take(0) =~= Seq::<char>::empty());
    -1
}

fn join_path_exec(dir: &Vec<char>, child: &Vec<char>) -> (r: Vec<char>)
    ensures
        r@ == join_path(dir@, child@),
{
    let mut out = crate::chars::slice_chars(dir, 0, dir.len());
    assert(out@ =~= dir@);
    if dir.len() > 0 && dir[dir.len() - 1] != '/' {
        out.push('/');
    }
    let mut i: usize = 0;
    let ghost base = out@;
    while i < child.len()
        invariant
            i <= child@.len(),
            out@ == base + child@.take(i as int),
        decreases child.len() - i,
    {
        out.push(child[i]);
        assert(child@.take(i + 1) =~= child@.take(i as int).push(child@[i as int]));
        assert(out@ =~= base + child@.take(i + 1));
        i = i + 1;
    }
    assert(child@.take(child@.len() as int) =~= child@);
    proof {
        if dir@.len() == 0 {
            assert(out@ =~= child@);
        } else if dir@.last() == '/' {
        } else {
            assert(base =~= dir@ + "/"@) by {
                reveal_strlit("/");
            }
            assert(out@ =~= dir@ + "/"@ + child@);
        }
    }
    out
}

/// Where a module's external test file is expected next to `source_path`.
pub fn expected_test_file_path(source_path: &str, expected_file: &str) -> (r: Option<String>)
    requires
        source_path@.len() < i64::MAX,
    ensures
        match spec_expected_path(source_path@, expected_file@) {
            Some(p) => r matches Some(s) && s@ == p,
            None => r is None,
        },
{
    let cs = crate::text::chars_of(source_path);
    if cs.len() == 0 {
        return None;
    }
    let cut = find_last(&cs, '/');
    proof {
        lemma_last_bounds(cs@);
    }
    let parent: Vec<char> = if cut < 0 {
        Vec::new()
    } else if cut == 0 {
        vec!['/']
    } else {
        crate::chars::slice_chars(&cs, 0, cut as usize)
    };
    proof {
        reveal_strlit("/");
        if cut < 0 {
            assert(parent@ =~= Seq::<char>::empty());
        } else if cut == 0 {
            assert(parent@ =~= "/"@);
        }
    }
    let name = crate::chars::slice_chars(&cs, (cut + 1) as usize, cs.len());
    assert(name@ =~= cs@.skip(cut + 1));
    let dot = find_last(&name, '.');
    let stem = if dot <= 0 {
        crate::chars::slice_chars(&name, 0, name.len())
    } else {
        proof {
            lemma_last_bounds(name@);
        }
        crate::chars::slice_chars(&name, 0, dot as usize)
    };
    proof {
        if dot <= 0 {
            assert(stem@ =~= name@);
        } else {
            assert(stem@ =~= name@.take(dot as int));
        }
    }
    let stem_s = crate::text::string_of(&stem);
    let keep = crate::config::value::str_eq(stem_s.as_str(), "lib") || crate::config::value::str_eq(
        stem_s.as_str(),
        "main",
    ) || crate::config::value::str_eq(stem_s.as_str(), "mod");
    let dir = if keep {
        parent
    } else {
        join_path_exec(&parent, &stem)
    };
    let exp = crate::text::chars_of(expected_file);
    let full = join_path_exec(&dir, &exp);
    Some(crate::text::string_of(&full))
}

pub open spec fn test_module_finding(
    cfg: ExternalTestModulesConfig,
    message: Seq<char>,
    help: Seq<char>,
    span: SpanView,
) -> FindingView {
    FindingView {
        help: Some(help),
        primary: Some(span),
        confidence: Some("high"@),
        tags: seq!["tests"@, "layout"@],
        labels: seq![(FindingLabelKind::Primary, span, Some(message))],
        ..rule_finding_view(external_test_modules_info(), cfg.level.spec_severity(), message)
    }
}

/// The finding for one item: a `#[cfg(test)]` module of the configured name
/// that is inline, or that is external while its expected file is missing.
pub open spec fn spec_test_item(file: Seq<char>, cfg: ExternalTestModulesConfig, item: TopItem, expected_exists: bool) -> Option<FindingView> {
    match item {
        TopItem::Mod { name, attrs, inline, start, end } => if name@ != cfg.module_name@ || !spec_has_cfg_test(attrs@) {
            None
        } else if inline {
            Some(test_module_finding(
                cfg,
                "inline `#[cfg(test)] mod "@ + cfg.module_name@ + "` block must move to `"@ + cfg.expected_file@ + "`"@,
                "Use `#[cfg(test)] mod "@ + cfg.module_name@ + ";` and place tests in `"@ + cfg.expected_file@ + "`."@,
                span_of(file, start, end),
            ))
        } else if !expected_exists {
            Some(test_module_finding(
                cfg,
                "external test module `"@ + cfg.module_name@ + "` has no sibling `"@ + cfg.expected_file@ + "`"@,
                "Create `"@ + cfg.expected_file@ + "` next to this source file."@,
                span_of(file, start, end),
            ))
        } else {
            None
        },
        _ => None,
    }
}

pub open spec fn test_findings(file: Seq<char>, cfg: ExternalTestModulesConfig, items: Seq<TopItem>, expected_exists: bool) -> Seq<FindingView>
    decreases items.len(),
{
    if items.len() == 0 {
        Seq::empty()
    } else {
        test_findings(file, cfg, items.drop_last(), expected_exists) + match spec_test_item(file, cfg, items.last(), expected_exists) {
            Some(v) => seq![v],
            None => Seq::empty(),
        }
    }
}

fn test_module_emit(file: &str, cfg: &ExternalTestModulesConfig, message: String, help: String, start: LineColumn, end: LineColumn) -> (r: Finding)
    ensures
        r@ == test_module_finding(*cfg, message@, help@, span_of(file@, start, end)),
{
    let label = FindingLabel { kind: FindingLabelKind::Primary, span: Span::from_pm_span(file, start, end), message: Some(message.clone()) };
    let labels = vec![label];
    let f = Finding::from_rule(ExternalTestModulesRule::static_info(), cfg.level.to_severity(), message).with_primary(
        Span::from_pm_span(file, start, end),
    ).with_help(help).with_confidence(String::from_str("high")).with_tags(tags_of("tests", Some("layout"))).with_labels(labels);
    assert(f@.labels =~= seq![(FindingLabelKind::Primary, span_of(file@, start, end), Some(f@.message))]);
    f
}

impl ExternalTestModulesRule {
    /// The finding for one top-level item; `expected_exists` tells whether the
    /// file's expected test file is there.
    pub fn check_item(file: &str, cfg: &ExternalTestModulesConfig, item: &TopItem, expected_exists: bool) -> (r: Option<Finding>)
        ensures
            match spec_test_item(file@, *cfg, *item, expected_exists) {
                Some(v) => r matches Some(f) && f@ == v,
                None => r is None,
            },
    {
        match item {
            TopItem::Mod { name, attrs, inline, start, end } => {
                if !crate::config::value::str_eq(name.as_str(), cfg.module_name.as_str()) || !has_cfg_test(attrs) {
                    return None;
                }
                if *inline {
                    let mut m = String::from_str("inline `#[cfg(test)] mod ");
                    m.append(cfg.module_name.as_str());
                    m.append("` block must move to `");
                    m.append(cfg.expected_file.as_str());
                    m.append("`");
                    let mut h = String::from_str("Use `#[cfg(test)] mod ");
                    h.append(cfg.module_name.as_str());
                    h.append(";` and place tests in `");
                    h.append(cfg.expected_file.as_str());
                    h.append("`.");
                    Some(test_module_emit(file, cfg, m, h, *start, *end))
                } else if !expected_exists {
                    let mut m = String::from_str("external test module `");
                    m.append(cfg.module_name.as_str());
                    m.append("` has no sibling `");
                    m.append(cfg.expected_file.as_str());
                    m.append("`");
                    let mut h = String::from_str("Create `");
                    h.append(cfg.expected_file.as_str());
                    h.append("` next to this source file.");
                    Some(test_module_emit(file, cfg, m, h, *start, *end))
                } else {
                    None
                }
            },
            _ => None,
        }
    }

    /// The findings for the top-level items of a file, in order; none when the
    /// rule is off.
    pub fn check_items(file: &str, cfg: &ExternalTestModulesConfig, items: &Vec<TopItem>, expected_exists: bool) -> (r: Vec<Finding>)
        ensures
            r@.map_values(|f: Finding| f@) == if cfg.level.spec_severity() == Severity::Info {
                Seq::empty()
            } else {
                test_findings(file@, *cfg, items@, expected_exists)
            },
    {
        let mut out: Vec<Finding> = Vec::new();
        if !cfg.level.enabled() {
            assert(out@.map_values(|f: Finding| f@) =~= Seq::<FindingView>::empty());
            return out;
        }
        let mut i: usize = 0;
        assert(out@.map_values(|f: Finding| f@) =~= test_findings(file@, *cfg, items@.take(0), expected_exists));
        while i < items.len()
            invariant
                i <= items@.len(),
                out@.map_values(|f: Finding| f@) == test_findings(file@, *cfg, items@.take(i as int), expected_exists),
            decreases items.len() - i,
        {
            assert(items@.take(i + 1).drop_last() =~= items@.take(i as int));
            assert(items@.take(i + 1).last() == items@[i as int]);
            let ghost before = out@.map_values(|f: Finding| f@);
            match ExternalTestModulesRule::check_item(file, cfg, &items[i], expected_exists) {
                Some(f) => {
                    out.push(f);
                    assert(out@.map_values(|f: Finding| f@) =~= before.push(f@));
                },
                None => {},
            }
            i = i + 1;
        }
        assert(items@.take(items@.len() as int) =~= items@);
        out
    }
}

} // verus!

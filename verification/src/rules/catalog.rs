//! The rules and their descriptions.
use vstd::prelude::*;
use crate::config::Level;
use super::{RuleBackend, RuleFamily, RuleInfo};
use crate::report::RuleCatalogEntry;
use crate::config::value::TomlTable;
use crate::config::policy::{Policy, RuleEntry, RuleSettings, enabled_anywhere};

verus! {

/// The description of `architecture.qualified_module_paths`.
pub open spec fn qualified_module_paths_info() -> RuleInfo {
    RuleInfo {
        id: "architecture.qualified_module_paths",
        family: RuleFamily::Architecture,
        backend: RuleBackend::Syntax,
        summary: "Flags direct `std::`, `crate::`, and `::` paths in code.",
        default_level: Level::Deny,
        schema: "level, allow_prefixes, roots, allow_crate_root_macros, allow_crate_root_consts, allow_crate_root_fn_calls",
        config_example: "[rules.\"architecture.qualified_module_paths\"]\nlevel = \"deny\"\nroots = [\"std\", \"core\", \"alloc\", \"crate\"]",
        fixable: true,
    }
}

pub struct AbsoluteModulePathsRule;

impl AbsoluteModulePathsRule {
    pub fn static_info() -> (r: RuleInfo)
        ensures
            r == qualified_module_paths_info(),
    {
        RuleInfo {
            id: "architecture.qualified_module_paths",
            family: RuleFamily::Architecture,
            backend: RuleBackend::Syntax,
            summary: "Flags direct `std::`, `crate::`, and `::` paths in code.",
            default_level: Level::Deny,
            schema: "level, allow_prefixes, roots, allow_crate_root_macros, allow_crate_root_consts, allow_crate_root_fn_calls",
            config_example: "[rules.\"architecture.qualified_module_paths\"]\nlevel = \"deny\"\nroots = [\"std\", \"core\", \"alloc\", \"crate\"]",
            fixable: true,
        }
    }
}

/// The description of `portability.absolute_literal_paths`.
pub open spec fn absolute_literal_paths_info() -> RuleInfo {
    RuleInfo {
        id: "portability.absolute_literal_paths",
        family: RuleFamily::Portability,
        backend: RuleBackend::Syntax,
        summary: "Flags absolute filesystem paths inside string literals (Unix/Windows/UNC).",
        default_level: Level::Warn,
        schema: "level, allow_globs, allow_regex, check_comments",
        config_example: "[rules.\"portability.absolute_literal_paths\"]\nlevel = \"warn\"\ncheck_comments = false",
        fixable: false,
    }
}

pub struct AbsoluteFilesystemPathsRule;

impl AbsoluteFilesystemPathsRule {
    pub fn static_info() -> (r: RuleInfo)
        ensures
            r == absolute_literal_paths_info(),
    {
        RuleInfo {
            id: "portability.absolute_literal_paths",
            family: RuleFamily::Portability,
            backend: RuleBackend::Syntax,
            summary: "Flags absolute filesystem paths inside string literals (Unix/Windows/UNC).",
            default_level: Level::Warn,
            schema: "level, allow_globs, allow_regex, check_comments",
            config_example: "[rules.\"portability.absolute_literal_paths\"]\nlevel = \"warn\"\ncheck_comments = false",
            fixable: false,
        }
    }
}

/// The description of `shape.file_complexity`.
pub open spec fn file_complexity_info() -> RuleInfo {
    RuleInfo {
        id: "shape.file_complexity",
        family: RuleFamily::Shape,
        backend: RuleBackend::Syntax,
        summary: "Measures file and function complexity against configured limits.",
        default_level: Level::Warn,
        schema: "level, mode, max_file, max_fn, count_question, match_arms",
        config_example: "[rules.\"shape.file_complexity\"]\nlevel = \"warn\"\nmode = \"cyclomatic\"\nmax_file = 200\nmax_fn = 25",
        fixable: false,
    }
}

pub struct FileComplexityRule;

impl FileComplexityRule {
    pub fn static_info() -> (r: RuleInfo)
        ensures
            r == file_complexity_info(),
    {
        RuleInfo {
            id: "shape.file_complexity",
            family: RuleFamily::Shape,
            backend: RuleBackend::Syntax,
            summary: "Measures file and function complexity against configured limits.",
            default_level: Level::Warn,
            schema: "level, mode, max_file, max_fn, count_question, match_arms",
            config_example: "[rules.\"shape.file_complexity\"]\nlevel = \"warn\"\nmode = \"cyclomatic\"\nmax_file = 200\nmax_fn = 25",
            fixable: false,
        }
    }
}

/// The description of `shape.duplicate_logic`.
pub open spec fn duplicate_logic_info() -> RuleInfo {
    RuleInfo {
        id: "shape.duplicate_logic",
        family: RuleFamily::Shape,
        backend: RuleBackend::Syntax,
        summary: "Reports similar function bodies with token fingerprints.",
        default_level: Level::Warn,
        schema: "level, min_tokens, threshold, max_results, exclude_globs, kgram",
        config_example: "[rules.\"shape.duplicate_logic\"]\nlevel = \"warn\"\nmin_tokens = 80\nthreshold = 0.8",
        fixable: false,
    }
}

pub struct DuplicateLogicRule;

impl DuplicateLogicRule {
    pub fn static_info() -> (r: RuleInfo)
        ensures
            r == duplicate_logic_info(),
    {
        RuleInfo {
            id: "shape.duplicate_logic",
            family: RuleFamily::Shape,
            backend: RuleBackend::Syntax,
            summary: "Reports similar function bodies with token fingerprints.",
            default_level: Level::Warn,
            schema: "level, min_tokens, threshold, max_results, exclude_globs, kgram",
            config_example: "[rules.\"shape.duplicate_logic\"]\nlevel = \"warn\"\nmin_tokens = 80\nthreshold = 0.8",
            fixable: false,
        }
    }
}

/// The description of `design.repeated_type_aliases`.
pub open spec fn repeated_type_aliases_info() -> RuleInfo {
    RuleInfo {
        id: "design.repeated_type_aliases",
        family: RuleFamily::Design,
        backend: RuleBackend::Syntax,
        summary: "Reports repeated type annotations that may need a `type` alias.",
        default_level: Level::Allow,
        schema: "level, min_occurrences, min_len, exclude_outer",
        config_example: "[rules.\"design.repeated_type_aliases\"]\nlevel = \"warn\"\nmin_occurrences = 3",
        fixable: false,
    }
}

pub struct DuplicateTypesAliasCandidateRule;

impl DuplicateTypesAliasCandidateRule {
    pub fn static_info() -> (r: RuleInfo)
        ensures
            r == repeated_type_aliases_info(),
    {
        RuleInfo {
            id: "design.repeated_type_aliases",
            family: RuleFamily::Design,
            backend: RuleBackend::Syntax,
            summary: "Reports repeated type annotations that may need a `type` alias.",
            default_level: Level::Allow,
            schema: "level, min_occurrences, min_len, exclude_outer",
            config_example: "[rules.\"design.repeated_type_aliases\"]\nlevel = \"warn\"\nmin_occurrences = 3",
            fixable: false,
        }
    }
}

/// The description of `shape.responsibility_split`.
pub open spec fn responsibility_split_info() -> RuleInfo {
    RuleInfo {
        id: "shape.responsibility_split",
        family: RuleFamily::Shape,
        backend: RuleBackend::Syntax,
        summary: "Flags impl blocks with many methods as a responsibility-split heuristic.",
        default_level: Level::Allow,
        schema: "level, method_count_threshold",
        config_example: "[rules.\"shape.responsibility_split\"]\nlevel = \"warn\"\nmethod_count_threshold = 25",
        fixable: false,
    }
}

pub struct SrpHeuristicRule;

impl SrpHeuristicRule {
    pub fn static_info() -> (r: RuleInfo)
        ensures
            r == responsibility_split_info(),
    {
        RuleInfo {
            id: "shape.responsibility_split",
            family: RuleFamily::Shape,
            backend: RuleBackend::Syntax,
            summary: "Flags impl blocks with many methods as a responsibility-split heuristic.",
            default_level: Level::Allow,
            schema: "level, method_count_threshold",
            config_example: "[rules.\"shape.responsibility_split\"]\nlevel = \"warn\"\nmethod_count_threshold = 25",
            fixable: false,
        }
    }
}

/// The description of `architecture.banned_dependencies`.
pub open spec fn banned_dependencies_info() -> RuleInfo {
    RuleInfo {
        id: "architecture.banned_dependencies",
        family: RuleFamily::Architecture,
        backend: RuleBackend::Syntax,
        summary: "Blocks configured module, crate, type, or function path prefixes.",
        default_level: Level::Allow,
        schema: "level, banned_prefixes",
        config_example: "[rules.\"architecture.banned_dependencies\"]\nlevel = \"deny\"\nbanned_prefixes = [\"std::sync::Mutex\", \"crate::legacy\"]",
        fixable: false,
    }
}

pub struct BannedDependenciesRule;

impl BannedDependenciesRule {
    pub fn static_info() -> (r: RuleInfo)
        ensures
            r == banned_dependencies_info(),
    {
        RuleInfo {
            id: "architecture.banned_dependencies",
            family: RuleFamily::Architecture,
            backend: RuleBackend::Syntax,
            summary: "Blocks configured module, crate, type, or function path prefixes.",
            default_level: Level::Allow,
            schema: "level, banned_prefixes",
            config_example: "[rules.\"architecture.banned_dependencies\"]\nlevel = \"deny\"\nbanned_prefixes = [\"std::sync::Mutex\", \"crate::legacy\"]",
            fixable: false,
        }
    }
}

/// The description of `design.public_api_errors`.
pub open spec fn public_api_errors_info() -> RuleInfo {
    RuleInfo {
        id: "design.public_api_errors",
        family: RuleFamily::Design,
        backend: RuleBackend::Syntax,
        summary: "Checks public Result error types against an allow-list.",
        default_level: Level::Allow,
        schema: "level, allowed_error_types",
        config_example: "[rules.\"design.public_api_errors\"]\nlevel = \"deny\"\nallowed_error_types = [\"crate::Error\"]",
        fixable: false,
    }
}

pub struct PublicApiErrorsRule;

impl PublicApiErrorsRule {
    pub fn static_info() -> (r: RuleInfo)
        ensures
            r == public_api_errors_info(),
    {
        RuleInfo {
            id: "design.public_api_errors",
            family: RuleFamily::Design,
            backend: RuleBackend::Syntax,
            summary: "Checks public Result error types against an allow-list.",
            default_level: Level::Allow,
            schema: "level, allowed_error_types",
            config_example: "[rules.\"design.public_api_errors\"]\nlevel = \"deny\"\nallowed_error_types = [\"crate::Error\"]",
            fixable: false,
        }
    }
}

/// The description of `architecture.layer_direction`.
pub open spec fn layer_direction_info() -> RuleInfo {
    RuleInfo {
        id: "architecture.layer_direction",
        family: RuleFamily::Architecture,
        backend: RuleBackend::Syntax,
        summary: "Checks path-scoped layer dependencies against configured direction rules.",
        default_level: Level::Allow,
        schema: "level, layers = [{ name, include, may_depend_on }]",
        config_example: "[rules.\"architecture.layer_direction\"]\nlevel = \"deny\"\nlayers = [{ name = \"api\", include = [\"src/api/**\"], may_depend_on = [\"domain\"] }]",
        fixable: false,
    }
}

pub struct LayerDirectionRule;

impl LayerDirectionRule {
    pub fn static_info() -> (r: RuleInfo)
        ensures
            r == layer_direction_info(),
    {
        RuleInfo {
            id: "architecture.layer_direction",
            family: RuleFamily::Architecture,
            backend: RuleBackend::Syntax,
            summary: "Checks path-scoped layer dependencies against configured direction rules.",
            default_level: Level::Allow,
            schema: "level, layers = [{ name, include, may_depend_on }]",
            config_example: "[rules.\"architecture.layer_direction\"]\nlevel = \"deny\"\nlayers = [{ name = \"api\", include = [\"src/api/**\"], may_depend_on = [\"domain\"] }]",
            fixable: false,
        }
    }
}

/// The description of `testing.external_test_modules`.
pub open spec fn external_test_modules_info() -> RuleInfo {
    RuleInfo {
        id: "testing.external_test_modules",
        family: RuleFamily::Testing,
        backend: RuleBackend::Syntax,
        summary: "Requires test modules to live in sibling test files instead of inline blocks.",
        default_level: Level::Allow,
        schema: "level, module_name, expected_file",
        config_example: "[rules.\"testing.external_test_modules\"]\nlevel = \"deny\"\nmodule_name = \"tests\"\nexpected_file = \"tests.rs\"",
        fixable: false,
    }
}

pub struct ExternalTestModulesRule;

impl ExternalTestModulesRule {
    pub fn static_info() -> (r: RuleInfo)
        ensures
            r == external_test_modules_info(),
    {
        RuleInfo {
            id: "testing.external_test_modules",
            family: RuleFamily::Testing,
            backend: RuleBackend::Syntax,
            summary: "Requires test modules to live in sibling test files instead of inline blocks.",
            default_level: Level::Allow,
            schema: "level, module_name, expected_file",
            config_example: "[rules.\"testing.external_test_modules\"]\nlevel = \"deny\"\nmodule_name = \"tests\"\nexpected_file = \"tests.rs\"",
            fixable: false,
        }
    }
}

/// The description of `design.naming_policy`.
pub open spec fn naming_policy_info() -> RuleInfo {
    RuleInfo {
        id: "design.naming_policy",
        family: RuleFamily::Design,
        backend: RuleBackend::Syntax,
        summary: "Flags generic names and banned design suffixes that hide responsibility.",
        default_level: Level::Allow,
        schema: "level, banned_names, banned_suffixes",
        config_example: "[rules.\"design.naming_policy\"]\nlevel = \"warn\"\nbanned_names = [\"data\", \"result\"]\nbanned_suffixes = [\"Manager\", \"Helper\"]",
        fixable: false,
    }
}

pub struct NamingPolicyRule;

impl NamingPolicyRule {
    pub fn static_info() -> (r: RuleInfo)
        ensures
            r == naming_policy_info(),
    {
        RuleInfo {
            id: "design.naming_policy",
            family: RuleFamily::Design,
            backend: RuleBackend::Syntax,
            summary: "Flags generic names and banned design suffixes that hide responsibility.",
            default_level: Level::Allow,
            schema: "level, banned_names, banned_suffixes",
            config_example: "[rules.\"design.naming_policy\"]\nlevel = \"warn\"\nbanned_names = [\"data\", \"result\"]\nbanned_suffixes = [\"Manager\", \"Helper\"]",
            fixable: false,
        }
    }
}

/// The description of `design.god_object`.
pub open spec fn god_object_info() -> RuleInfo {
    RuleInfo {
        id: "design.god_object",
        family: RuleFamily::Design,
        backend: RuleBackend::Syntax,
        summary: "Flags large structs, enums, and impls that likely own unrelated responsibilities.",
        default_level: Level::Allow,
        schema: "level, max_fields, max_variants, max_methods",
        config_example: "[rules.\"design.god_object\"]\nlevel = \"warn\"\nmax_fields = 12\nmax_methods = 20",
        fixable: false,
    }
}

pub struct GodObjectRule;

impl GodObjectRule {
    pub fn static_info() -> (r: RuleInfo)
        ensures
            r == god_object_info(),
    {
        RuleInfo {
            id: "design.god_object",
            family: RuleFamily::Design,
            backend: RuleBackend::Syntax,
            summary: "Flags large structs, enums, and impls that likely own unrelated responsibilities.",
            default_level: Level::Allow,
            schema: "level, max_fields, max_variants, max_methods",
            config_example: "[rules.\"design.god_object\"]\nlevel = \"warn\"\nmax_fields = 12\nmax_methods = 20",
            fixable: false,
        }
    }
}

/// The description of `perf.hot_path_allocations`.
pub open spec fn hot_path_allocations_info() -> RuleInfo {
    RuleInfo {
        id: "perf.hot_path_allocations",
        family: RuleFamily::Performance,
        backend: RuleBackend::Syntax,
        summary: "Flags common allocation-producing calls and macros inside loops.",
        default_level: Level::Allow,
        schema: "level, methods, macros",
        config_example: "[rules.\"perf.hot_path_allocations\"]\nlevel = \"warn\"\nmethods = [\"clone\", \"to_string\", \"collect\"]",
        fixable: false,
    }
}

pub struct HotPathAllocationsRule;

impl HotPathAllocationsRule {
    pub fn static_info() -> (r: RuleInfo)
        ensures
            r == hot_path_allocations_info(),
    {
        RuleInfo {
            id: "perf.hot_path_allocations",
            family: RuleFamily::Performance,
            backend: RuleBackend::Syntax,
            summary: "Flags common allocation-producing calls and macros inside loops.",
            default_level: Level::Allow,
            schema: "level, methods, macros",
            config_example: "[rules.\"perf.hot_path_allocations\"]\nlevel = \"warn\"\nmethods = [\"clone\", \"to_string\", \"collect\"]",
            fixable: false,
        }
    }
}

/// The description of `pattern.custom`.
pub open spec fn custom_pattern_info() -> RuleInfo {
    RuleInfo {
        id: "pattern.custom",
        family: RuleFamily::Design,
        backend: RuleBackend::Syntax,
        summary: "Runs configured text patterns with rscheck diagnostics and scopes.",
        default_level: Level::Allow,
        schema: "level, patterns = [{ name, regex, message, include, exclude }]",
        config_example: "[rules.\"pattern.custom\"]\nlevel = \"warn\"\npatterns = [{ name = \"todo\", regex = \"TODO\", message = \"remove TODO\" }]",
        fixable: false,
    }
}

pub struct CustomPatternRule;

impl CustomPatternRule {
    pub fn static_info() -> (r: RuleInfo)
        ensures
            r == custom_pattern_info(),
    {
        RuleInfo {
            id: "pattern.custom",
            family: RuleFamily::Design,
            backend: RuleBackend::Syntax,
            summary: "Runs configured text patterns with rscheck diagnostics and scopes.",
            default_level: Level::Allow,
            schema: "level, patterns = [{ name, regex, message, include, exclude }]",
            config_example: "[rules.\"pattern.custom\"]\nlevel = \"warn\"\npatterns = [{ name = \"todo\", regex = \"TODO\", message = \"remove TODO\" }]",
            fixable: false,
        }
    }
}

/// Every rule, in the order in which a run takes them.
pub open spec fn catalog() -> Seq<RuleInfo> {
    seq![
        qualified_module_paths_info(),
        absolute_literal_paths_info(),
        file_complexity_info(),
        duplicate_logic_info(),
        repeated_type_aliases_info(),
        responsibility_split_info(),
        banned_dependencies_info(),
        public_api_errors_info(),
        layer_direction_info(),
        external_test_modules_info(),
        naming_policy_info(),
        god_object_info(),
        hot_path_allocations_info(),
        custom_pattern_info(),
    ]
}

/// The descriptions of every rule, in catalogue order.
pub fn rule_catalog() -> (r: Vec<RuleInfo>)
    ensures
        r@ == catalog(),
{
    let r = vec![
        AbsoluteModulePathsRule::static_info(),
        AbsoluteFilesystemPathsRule::static_info(),
        FileComplexityRule::static_info(),
        DuplicateLogicRule::static_info(),
        DuplicateTypesAliasCandidateRule::static_info(),
        SrpHeuristicRule::static_info(),
        BannedDependenciesRule::static_info(),
        PublicApiErrorsRule::static_info(),
        LayerDirectionRule::static_info(),
        ExternalTestModulesRule::static_info(),
        NamingPolicyRule::static_info(),
        GodObjectRule::static_info(),
        HotPathAllocationsRule::static_info(),
        CustomPatternRule::static_info(),
    ];
    assert(r@ =~= catalog());
    r
}

/// The catalogue entry of a rule: its description with owned text.
pub open spec fn entry_of(e: RuleCatalogEntry, info: RuleInfo) -> bool {
    &&& e.id@ == info.id@
    &&& e.family == info.family
    &&& e.backend == info.backend
    &&& e.default_level == info.default_level
    &&& e.summary@ == info.summary@
    &&& e.fixable == info.fixable
}

/// The catalogue as it is listed in a report.
pub fn rule_catalog_entries() -> (r: Vec<RuleCatalogEntry>)
    ensures
        r@.len() == catalog().len(),
        forall|i: int| 0 <= i < r@.len() ==> entry_of(#[trigger] r@[i], catalog()[i]),
{
    let infos = rule_catalog();
    let mut out: Vec<RuleCatalogEntry> = Vec::new();
    let mut i: usize = 0;
    while i < infos.len()
        invariant
            infos@ == catalog(),
            i <= infos@.len(),
            out@.len() == i,
            forall|j: int| 0 <= j < i ==> entry_of(#[trigger] out@[j], catalog()[j]),
        decreases infos.len() - i,
    {
        let info = infos[i];
        out.push(RuleCatalogEntry {
            id: info.id.to_owned(),
            family: info.family,
            backend: info.backend,
            default_level: info.default_level,
            summary: info.summary.to_owned(),
            fixable: info.fixable,
        });
        i = i + 1;
    }
    out
}

/// Every rule at its default level, with no options.
pub fn default_rule_settings() -> (r: Vec<RuleEntry>)
    ensures
        r@.len() == catalog().len(),
        forall|i: int|
            0 <= i < r@.len() ==> (#[trigger] r@[i]).id@ == catalog()[i].id@ && r@[i].settings.level
                == Some(catalog()[i].default_level) && r@[i].settings.options@.len() == 0,
{
    let infos = rule_catalog();
    let mut out: Vec<RuleEntry> = Vec::new();
    let mut i: usize = 0;
    while i < infos.len()
        invariant
            infos@ == catalog(),
            i <= infos@.len(),
            out@.len() == i,
            forall|j: int|
                0 <= j < i ==> (#[trigger] out@[j]).id@ == catalog()[j].id@ && out@[j].settings.level
                    == Some(catalog()[j].default_level) && out@[j].settings.options@.len() == 0,
        decreases infos.len() - i,
    {
        let info = infos[i];
        let settings = RuleSettings { level: Some(info.default_level), options: TomlTable::new() };
        out.push(RuleEntry { id: info.id.to_owned(), settings });
        i = i + 1;
    }
    out
}

/// The rules that run somewhere under `policy`, in catalogue order.
pub open spec fn enabled_catalog(policy: Policy) -> Seq<RuleInfo> {
    catalog().filter(|info: RuleInfo| enabled_anywhere(policy, info.id@, info.default_level))
}

/// The rules that run somewhere under `policy`: at the top level or in a scope.
pub fn enabled_rules(policy: &Policy) -> (r: Vec<RuleInfo>)
    ensures
        r@ == enabled_catalog(*policy),
{
    let infos = rule_catalog();
    let ghost pred = |info: RuleInfo| enabled_anywhere(*policy, info.id@, info.default_level);
    let mut out: Vec<RuleInfo> = Vec::new();
    let mut i: usize = 0;
    assert(infos@.take(0) =~= Seq::<RuleInfo>::empty());
    proof {
        reveal(Seq::filter);
    }
    while i < infos.len()
        invariant
            infos@ == catalog(),
            i <= infos@.len(),
            pred == (|info: RuleInfo| enabled_anywhere(*policy, info.id@, info.default_level)),
            out@ == infos@.take(i as int).filter(pred),
        decreases infos.len() - i,
    {
        let info = infos[i];
        assert(infos@.take(i + 1).drop_last() =~= infos@.take(i as int));
        assert(infos@.take(i + 1).last() == info);
        proof {
            reveal(Seq::filter);
        }
        if policy.rule_enabled_anywhere(info.id, info.default_level) {
            out.push(info);
        }
        i = i + 1;
    }
    assert(infos@.take(infos@.len() as int) =~= infos@);
    out
}

/// The rules of the first catalogue: module paths, literal paths, complexity,
/// duplicate logic, repeated types and responsibility split.
pub fn all_rule_infos() -> (r: Vec<RuleInfo>)
    ensures
        r@ == catalog().take(6),
{
    let r = vec![
        AbsoluteModulePathsRule::static_info(),
        AbsoluteFilesystemPathsRule::static_info(),
        FileComplexityRule::static_info(),
        DuplicateLogicRule::static_info(),
        DuplicateTypesAliasCandidateRule::static_info(),
        SrpHeuristicRule::static_info(),
    ];
    assert(r@ =~= catalog().take(6));
    r
}

} // verus!

//! The options of each rule, read from its resolved settings.
use vstd::prelude::*;
use vstd::string::*;
use super::level::{Level, level_name};
use super::value::{TableData, TomlData, TomlTable, TomlValue, tget, tinsert, view_values};
use super::read::{
    read_bool, read_level, read_opt_string, read_strings, read_u32, read_usize, spec_read_bool,
    spec_read_level, spec_read_opt_string, spec_read_strings, spec_read_u32, spec_read_usize, views,
};
use super::policy::{ConfigError, Policy, SettingsData, resolved_settings};

verus! {

/// The options of a rule: its default level, and how they are read from the
/// table of its resolved settings.
pub trait RuleOptions: Sized {
    /// The level the rule runs at when nothing sets one.
    spec fn spec_default_level() -> Level;

    /// The table holds valid options.
    spec fn decodable(t: TableData) -> bool;

    /// `v` holds the options that the table gives.
    spec fn decodes(t: TableData, v: Self) -> bool;

    fn default_level() -> (r: Level)
        ensures
            r == Self::spec_default_level(),
    ;

    fn from_table(t: &TomlTable) -> (r: Result<Self, String>)
        ensures
            r is Ok <==> Self::decodable(t@),
            r matches Ok(v) ==> Self::decodes(t@, v),
    ;
}

/// The table that a rule's options are read from: its options, with its level
/// (when set) under `level`.
pub open spec fn settings_table(s: SettingsData) -> TableData {
    match s.0 {
        Some(l) => tinsert(s.1, "level"@, TomlData::Str(level_name(l))),
        None => s.1,
    }
}

impl Policy {
    /// The options of rule `rule_id` for the file at `file_path`, read from its
    /// resolved settings; an error names the rule when they are not valid.
    pub fn decode_rule<T: RuleOptions>(&self, rule_id: &str, file_path: Option<&str>) -> (r: Result<T, ConfigError>)
        ensures
            ({
                let t = settings_table(
                    resolved_settings(
                        *self,
                        rule_id@,
                        match file_path {
                            Some(p) => Some(p@),
                            None => None::<Seq<char>>,
                        },
                        T::spec_default_level(),
                    ),
                );
                &&& r is Ok <==> T::decodable(t)
                &&& r matches Ok(v) ==> T::decodes(t, v)
                &&& r matches Err(e) ==> (e matches ConfigError::RuleDecode { rule_id: id, .. } && id@ == rule_id@)
            }),
    {
        let settings = self.rule_settings(rule_id, file_path, T::default_level());
        let mut table = settings.options;
        if let Some(level) = settings.level {
            let mut name = String::from_str(level.as_str());
            assert(name@ == level_name(level));
            table.insert(String::from_str("level"), TomlValue::String(name));
        }
        match T::from_table(&table) {
            Ok(v) => Ok(v),
            Err(message) => Err(ConfigError::RuleDecode { rule_id: rule_id.to_owned(), message }),
        }
    }
}

fn no_strings() -> (r: Vec<String>)
    ensures
        views(r@) == Seq::<Seq<char>>::empty(),
{
    let r: Vec<String> = Vec::new();
    assert(views(r@) =~= Seq::<Seq<char>>::empty());
    r
}

fn strings(items: &[&str]) -> (r: Vec<String>)
    ensures
        views(r@) == items@.map_values(|s: &str| s@),
{
    let mut out: Vec<String> = Vec::new();
    let mut i: usize = 0;
    while i < items.len()
        invariant
            i <= items@.len(),
            views(out@) == items@.take(i as int).map_values(|s: &str| s@),
        decreases items.len() - i,
    {
        let ghost before = out@;
        out.push(items[i].to_owned());
        assert(views(out@) =~= views(before).push(items@[i as int]@));
        assert(items@.take(i + 1).map_values(|s: &str| s@) =~= items@.take(i as int).map_values(|s: &str| s@).push(
            items@[i as int]@,
        ));
        i = i + 1;
    }
    assert(items@.take(items@.len() as int) =~= items@);
    out
}

// ---------------------------------------------------------------------------
// architecture.qualified_module_paths
// ---------------------------------------------------------------------------

#[derive(Debug)]
pub struct AbsoluteModulePathsConfig {
    pub level: Level,
    pub allow_prefixes: Vec<String>,
    pub roots: Vec<String>,
    pub allow_crate_root_macros: bool,
    pub allow_crate_root_consts: bool,
    pub allow_crate_root_fn_calls: bool,
}

pub open spec fn default_roots() -> Seq<Seq<char>> {
    seq!["std"@, "core"@, "alloc"@, "crate"@]
}

impl RuleOptions for AbsoluteModulePathsConfig {
    open spec fn spec_default_level() -> Level {
        Level::Deny
    }

    open spec fn decodable(t: TableData) -> bool {
        &&& spec_read_level(t, "level"@, Level::Deny) is Some
        &&& spec_read_strings(t, "allow_prefixes"@, Seq::empty()) is Some
        &&& spec_read_strings(t, "roots"@, default_roots()) is Some
        &&& spec_read_bool(t, "allow_crate_root_macros"@, true) is Some
        &&& spec_read_bool(t, "allow_crate_root_consts"@, true) is Some
        &&& spec_read_bool(t, "allow_crate_root_fn_calls"@, true) is Some
    }

    open spec fn decodes(t: TableData, v: Self) -> bool {
        &&& spec_read_level(t, "level"@, Level::Deny) == Some(v.level)
        &&& spec_read_strings(t, "allow_prefixes"@, Seq::empty()) == Some(views(v.allow_prefixes@))
        &&& spec_read_strings(t, "roots"@, default_roots()) == Some(views(v.roots@))
        &&& spec_read_bool(t, "allow_crate_root_macros"@, true) == Some(v.allow_crate_root_macros)
        &&& spec_read_bool(t, "allow_crate_root_consts"@, true) == Some(v.allow_crate_root_consts)
        &&& spec_read_bool(t, "allow_crate_root_fn_calls"@, true) == Some(v.allow_crate_root_fn_calls)
    }

    fn default_level() -> (r: Level) {
        Level::Deny
    }

    fn from_table(t: &TomlTable) -> (r: Result<Self, String>) {
        let level = read_level(t, "level", Level::Deny);
        let allow_prefixes = read_strings(t, "allow_prefixes", no_strings());
        let roots_default = strings(&["std", "core", "alloc", "crate"]);
        assert(views(roots_default@) =~= default_roots());
        let roots = read_strings(t, "roots", roots_default);
        let macros = read_bool(t, "allow_crate_root_macros", true);
        let consts = read_bool(t, "allow_crate_root_consts", true);
        let calls = read_bool(t, "allow_crate_root_fn_calls", true);
        match (level, allow_prefixes, roots, macros, consts, calls) {
            (Ok(level), Ok(allow_prefixes), Ok(roots), Ok(m), Ok(c), Ok(f)) => Ok(
                AbsoluteModulePathsConfig {
                    level,
                    allow_prefixes,
                    roots,
                    allow_crate_root_macros: m,
                    allow_crate_root_consts: c,
                    allow_crate_root_fn_calls: f,
                },
            ),
            (Err(e), _, _, _, _, _) => Err(e),
            (_, Err(e), _, _, _, _) => Err(e),
            (_, _, Err(e), _, _, _) => Err(e),
            (_, _, _, Err(e), _, _) => Err(e),
            (_, _, _, _, Err(e), _) => Err(e),
            (_, _, _, _, _, Err(e)) => Err(e),
        }
    }
}

// ---------------------------------------------------------------------------
// portability.absolute_literal_paths
// ---------------------------------------------------------------------------

#[derive(Debug)]
pub struct AbsoluteFilesystemPathsConfig {
    pub level: Level,
    pub allow_globs: Vec<String>,
    pub allow_regex: Vec<String>,
    pub check_comments: bool,
}

impl RuleOptions for AbsoluteFilesystemPathsConfig {
    open spec fn spec_default_level() -> Level {
        Level::Warn
    }

    open spec fn decodable(t: TableData) -> bool {
        &&& spec_read_level(t, "level"@, Level::Warn) is Some
        &&& spec_read_strings(t, "allow_globs"@, Seq::empty()) is Some
        &&& spec_read_strings(t, "allow_regex"@, Seq::empty()) is Some
        &&& spec_read_bool(t, "check_comments"@, false) is Some
    }

    open spec fn decodes(t: TableData, v: Self) -> bool {
        &&& spec_read_level(t, "level"@, Level::Warn) == Some(v.level)
        &&& spec_read_strings(t, "allow_globs"@, Seq::empty()) == Some(views(v.allow_globs@))
        &&& spec_read_strings(t, "allow_regex"@, Seq::empty()) == Some(views(v.allow_regex@))
        &&& spec_read_bool(t, "check_comments"@, false) == Some(v.check_comments)
    }

    fn default_level() -> (r: Level) {
        Level::Warn
    }

    fn from_table(t: &TomlTable) -> (r: Result<Self, String>) {
        let level = read_level(t, "level", Level::Warn);
        let allow_globs = read_strings(t, "allow_globs", no_strings());
        let allow_regex = read_strings(t, "allow_regex", no_strings());
        let check_comments = read_bool(t, "check_comments", false);
        match (level, allow_globs, allow_regex, check_comments) {
            (Ok(level), Ok(allow_globs), Ok(allow_regex), Ok(check_comments)) => Ok(
                AbsoluteFilesystemPathsConfig { level, allow_globs, allow_regex, check_comments },
            ),
            (Err(e), _, _, _) => Err(e),
            (_, Err(e), _, _) => Err(e),
            (_, _, Err(e), _) => Err(e),
            (_, _, _, Err(e)) => Err(e),
        }
    }
}

// ---------------------------------------------------------------------------
// shape.file_complexity
// ---------------------------------------------------------------------------

/// What the file-complexity rule measures.
#[derive(Debug, Clone, Copy, PartialEq, Eq, Structural)]
pub enum ComplexityMode {
    Cyclomatic,
    PhysicalLoc,
    LogicalLoc,
}

/// The mode under `mode`, `cyclomatic` when absent.
pub open spec fn spec_read_mode(t: TableData) -> Option<ComplexityMode> {
    match tget(t, "mode"@) {
        None => Some(ComplexityMode::Cyclomatic),
        Some(TomlData::Str(s)) => if s == "cyclomatic"@ {
            Some(ComplexityMode::Cyclomatic)
        } else if s == "physical_loc"@ {
            Some(ComplexityMode::PhysicalLoc)
        } else if s == "logical_loc"@ {
            Some(ComplexityMode::LogicalLoc)
        } else {
            None
        },
        Some(_) => None,
    }
}

fn read_mode(t: &TomlTable) -> (r: Result<ComplexityMode, String>)
    ensures
        match r {
            Ok(m) => spec_read_mode(t@) == Some(m),
            Err(_) => spec_read_mode(t@) is None,
        },
{
    match t.get("mode") {
        None => Ok(ComplexityMode::Cyclomatic),
        Some(TomlValue::String(s)) => {
            if super::value::str_eq(s.as_str(), "cyclomatic") {
                Ok(ComplexityMode::Cyclomatic)
            } else if super::value::str_eq(s.as_str(), "physical_loc") {
                Ok(ComplexityMode::PhysicalLoc)
            } else if super::value::str_eq(s.as_str(), "logical_loc") {
                Ok(ComplexityMode::LogicalLoc)
            } else {
                Err(String::from_str("invalid value for key `mode`"))
            }
        },
        Some(_) => Err(String::from_str("invalid value for key `mode`")),
    }
}

#[derive(Debug)]
pub struct FileComplexityConfig {
    pub level: Level,
    pub mode: ComplexityMode,
    pub max_file: u32,
    pub max_fn: u32,
    pub count_question: bool,
    pub match_arms: bool,
}

impl RuleOptions for FileComplexityConfig {
    open spec fn spec_default_level() -> Level {
        Level::Warn
    }

    open spec fn decodable(t: TableData) -> bool {
        &&& spec_read_level(t, "level"@, Level::Warn) is Some
        &&& spec_read_mode(t) is Some
        &&& spec_read_u32(t, "max_file"@, 200) is Some
        &&& spec_read_u32(t, "max_fn"@, 25) is Some
        &&& spec_read_bool(t, "count_question"@, false) is Some
        &&& spec_read_bool(t, "match_arms"@, true) is Some
    }

    open spec fn decodes(t: TableData, v: Self) -> bool {
        &&& spec_read_level(t, "level"@, Level::Warn) == Some(v.level)
        &&& spec_read_mode(t) == Some(v.mode)
        &&& spec_read_u32(t, "max_file"@, 200) == Some(v.max_file)
        &&& spec_read_u32(t, "max_fn"@, 25) == Some(v.max_fn)
        &&& spec_read_bool(t, "count_question"@, false) == Some(v.count_question)
        &&& spec_read_bool(t, "match_arms"@, true) == Some(v.match_arms)
    }

    fn default_level() -> (r: Level) {
        Level::Warn
    }

    fn from_table(t: &TomlTable) -> (r: Result<Self, String>) {
        let level = read_level(t, "level", Level::Warn);
        let mode = read_mode(t);
        let max_file = read_u32(t, "max_file", 200);
        let max_fn = read_u32(t, "max_fn", 25);
        let count_question = read_bool(t, "count_question", false);
        let match_arms = read_bool(t, "match_arms", true);
        match (level, mode, max_file, max_fn, count_question, match_arms) {
            (Ok(level), Ok(mode), Ok(max_file), Ok(max_fn), Ok(count_question), Ok(match_arms)) => Ok(
                FileComplexityConfig { level, mode, max_file, max_fn, count_question, match_arms },
            ),
            (Err(e), _, _, _, _, _) => Err(e),
            (_, Err(e), _, _, _, _) => Err(e),
            (_, _, Err(e), _, _, _) => Err(e),
            (_, _, _, Err(e), _, _) => Err(e),
            (_, _, _, _, Err(e), _) => Err(e),
            (_, _, _, _, _, Err(e)) => Err(e),
        }
    }
}

// ---------------------------------------------------------------------------
// Rules whose options are a level and lists of names
// ---------------------------------------------------------------------------

#[derive(Debug)]
pub struct DuplicateTypesAliasConfig {
    pub level: Level,
    pub min_occurrences: usize,
    pub min_len: usize,
    pub exclude_outer: Vec<String>,
}

impl RuleOptions for DuplicateTypesAliasConfig {
    open spec fn spec_default_level() -> Level {
        Level::Allow
    }

    open spec fn decodable(t: TableData) -> bool {
        &&& spec_read_level(t, "level"@, Level::Allow) is Some
        &&& spec_read_usize(t, "min_occurrences"@, 3) is Some
        &&& spec_read_usize(t, "min_len"@, 25) is Some
        &&& spec_read_strings(t, "exclude_outer"@, seq!["Option"@]) is Some
    }

    open spec fn decodes(t: TableData, v: Self) -> bool {
        &&& spec_read_level(t, "level"@, Level::Allow) == Some(v.level)
        &&& spec_read_usize(t, "min_occurrences"@, 3) == Some(v.min_occurrences)
        &&& spec_read_usize(t, "min_len"@, 25) == Some(v.min_len)
        &&& spec_read_strings(t, "exclude_outer"@, seq!["Option"@]) == Some(views(v.exclude_outer@))
    }

    fn default_level() -> (r: Level) {
        Level::Allow
    }

    fn from_table(t: &TomlTable) -> (r: Result<Self, String>) {
        let level = read_level(t, "level", Level::Allow);
        let min_occurrences = read_usize(t, "min_occurrences", 3);
        let min_len = read_usize(t, "min_len", 25);
        let d = strings(&["Option"]);
        assert(views(d@) =~= seq!["Option"@]);
        let exclude_outer = read_strings(t, "exclude_outer", d);
        match (level, min_occurrences, min_len, exclude_outer) {
            (Ok(level), Ok(min_occurrences), Ok(min_len), Ok(exclude_outer)) => Ok(
                DuplicateTypesAliasConfig { level, min_occurrences, min_len, exclude_outer },
            ),
            (Err(e), _, _, _) => Err(e),
            (_, Err(e), _, _) => Err(e),
            (_, _, Err(e), _) => Err(e),
            (_, _, _, Err(e)) => Err(e),
        }
    }
}

#[derive(Debug)]
pub struct SrpHeuristicConfig {
    pub level: Level,
    pub method_count_threshold: usize,
}

impl RuleOptions for SrpHeuristicConfig {
    open spec fn spec_default_level() -> Level {
        Level::Allow
    }

    open spec fn decodable(t: TableData) -> bool {
        &&& spec_read_level(t, "level"@, Level::Allow) is Some
        &&& spec_read_usize(t, "method_count_threshold"@, 25) is Some
    }

    open spec fn decodes(t: TableData, v: Self) -> bool {
        &&& spec_read_level(t, "level"@, Level::Allow) == Some(v.level)
        &&& spec_read_usize(t, "method_count_threshold"@, 25) == Some(v.method_count_threshold)
    }

    fn default_level() -> (r: Level) {
        Level::Allow
    }

    fn from_table(t: &TomlTable) -> (r: Result<Self, String>) {
        let level = read_level(t, "level", Level::Allow);
        let threshold = read_usize(t, "method_count_threshold", 25);
        match (level, threshold) {
            (Ok(level), Ok(method_count_threshold)) => Ok(SrpHeuristicConfig { level, method_count_threshold }),
            (Err(e), _) => Err(e),
            (_, Err(e)) => Err(e),
        }
    }
}

#[derive(Debug)]
pub struct BannedDependenciesConfig {
    pub level: Level,
    pub banned_prefixes: Vec<String>,
}

impl RuleOptions for BannedDependenciesConfig {
    open spec fn spec_default_level() -> Level {
        Level::Allow
    }

    open spec fn decodable(t: TableData) -> bool {
        &&& spec_read_level(t, "level"@, Level::Allow) is Some
        &&& spec_read_strings(t, "banned_prefixes"@, Seq::empty()) is Some
    }

    open spec fn decodes(t: TableData, v: Self) -> bool {
        &&& spec_read_level(t, "level"@, Level::Allow) == Some(v.level)
        &&& spec_read_strings(t, "banned_prefixes"@, Seq::empty()) == Some(views(v.banned_prefixes@))
    }

    fn default_level() -> (r: Level) {
        Level::Allow
    }

    fn from_table(t: &TomlTable) -> (r: Result<Self, String>) {
        let level = read_level(t, "level", Level::Allow);
        let banned = read_strings(t, "banned_prefixes", no_strings());
        match (level, banned) {
            (Ok(level), Ok(banned_prefixes)) => Ok(BannedDependenciesConfig { level, banned_prefixes }),
            (Err(e), _) => Err(e),
            (_, Err(e)) => Err(e),
        }
    }
}

#[derive(Debug)]
pub struct PublicApiErrorsConfig {
    pub level: Level,
    pub allowed_error_types: Vec<String>,
}

pub open spec fn default_allowed_error_types() -> Seq<Seq<char>> {
    seq!["crate::Error"@, "crate::error::Error"@]
}

impl RuleOptions for PublicApiErrorsConfig {
    open spec fn spec_default_level() -> Level {
        Level::Allow
    }

    open spec fn decodable(t: TableData) -> bool {
        &&& spec_read_level(t, "level"@, Level::Allow) is Some
        &&& spec_read_strings(t, "allowed_error_types"@, default_allowed_error_types()) is Some
    }

    open spec fn decodes(t: TableData, v: Self) -> bool {
        &&& spec_read_level(t, "level"@, Level::Allow) == Some(v.level)
        &&& spec_read_strings(t, "allowed_error_types"@, default_allowed_error_types()) == Some(
            views(v.allowed_error_types@),
        )
    }

    fn default_level() -> (r: Level) {
        Level::Allow
    }

    fn from_table(t: &TomlTable) -> (r: Result<Self, String>) {
        let level = read_level(t, "level", Level::Allow);
        let d = strings(&["crate::Error", "crate::error::Error"]);
        assert(views(d@) =~= default_allowed_error_types());
        let allowed = read_strings(t, "allowed_error_types", d);
        match (level, allowed) {
            (Ok(level), Ok(allowed_error_types)) => Ok(PublicApiErrorsConfig { level, allowed_error_types }),
            (Err(e), _) => Err(e),
            (_, Err(e)) => Err(e),
        }
    }
}

#[derive(Debug)]
pub struct ExternalTestModulesConfig {
    pub level: Level,
    pub module_name: String,
    pub expected_file: String,
}

/// The string under `key`, or `default` when absent.
pub open spec fn spec_read_string(t: TableData, key: Seq<char>, default: Seq<char>) -> Option<Seq<char>> {
    match spec_read_opt_string(t, key) {
        Some(Some(s)) => Some(s),
        Some(None) => Some(default),
        None => None,
    }
}

fn read_string(t: &TomlTable, key: &str, default: &str) -> (r: Result<String, String>)
    ensures
        match r {
            Ok(s) => spec_read_string(t@, key@, default@) == Some(s@),
            Err(_) => spec_read_string(t@, key@, default@) is None,
        },
{
    match read_opt_string(t, key) {
        Ok(Some(s)) => Ok(s),
        Ok(None) => Ok(default.to_owned()),
        Err(e) => Err(e),
    }
}

impl RuleOptions for ExternalTestModulesConfig {
    open spec fn spec_default_level() -> Level {
        Level::Allow
    }

    open spec fn decodable(t: TableData) -> bool {
        &&& spec_read_level(t, "level"@, Level::Allow) is Some
        &&& spec_read_string(t, "module_name"@, "tests"@) is Some
        &&& spec_read_string(t, "expected_file"@, "tests.rs"@) is Some
    }

    open spec fn decodes(t: TableData, v: Self) -> bool {
        &&& spec_read_level(t, "level"@, Level::Allow) == Some(v.level)
        &&& spec_read_string(t, "module_name"@, "tests"@) == Some(v.module_name@)
        &&& spec_read_string(t, "expected_file"@, "tests.rs"@) == Some(v.expected_file@)
    }

    fn default_level() -> (r: Level) {
        Level::Allow
    }

    fn from_table(t: &TomlTable) -> (r: Result<Self, String>) {
        let level = read_level(t, "level", Level::Allow);
        let module_name = read_string(t, "module_name", "tests");
        let expected_file = read_string(t, "expected_file", "tests.rs");
        match (level, module_name, expected_file) {
            (Ok(level), Ok(module_name), Ok(expected_file)) => Ok(
                ExternalTestModulesConfig { level, module_name, expected_file },
            ),
            (Err(e), _, _) => Err(e),
            (_, Err(e), _) => Err(e),
            (_, _, Err(e)) => Err(e),
        }
    }
}

#[derive(Debug)]
pub struct NamingPolicyConfig {
    pub level: Level,
    pub banned_names: Vec<String>,
    pub banned_suffixes: Vec<String>,
}

pub open spec fn default_banned_names() -> Seq<Seq<char>> {
    seq!["data"@, "result"@]
}

pub open spec fn default_banned_suffixes() -> Seq<Seq<char>> {
    seq!["Manager"@, "Helper"@]
}

impl RuleOptions for NamingPolicyConfig {
    open spec fn spec_default_level() -> Level {
        Level::Allow
    }

    open spec fn decodable(t: TableData) -> bool {
        &&& spec_read_level(t, "level"@, Level::Allow) is Some
        &&& spec_read_strings(t, "banned_names"@, default_banned_names()) is Some
        &&& spec_read_strings(t, "banned_suffixes"@, default_banned_suffixes()) is Some
    }

    open spec fn decodes(t: TableData, v: Self) -> bool {
        &&& spec_read_level(t, "level"@, Level::Allow) == Some(v.level)
        &&& spec_read_strings(t, "banned_names"@, default_banned_names()) == Some(views(v.banned_names@))
        &&& spec_read_strings(t, "banned_suffixes"@, default_banned_suffixes()) == Some(
            views(v.banned_suffixes@),
        )
    }

    fn default_level() -> (r: Level) {
        Level::Allow
    }

    fn from_table(t: &TomlTable) -> (r: Result<Self, String>) {
        let level = read_level(t, "level", Level::Allow);
        let dn = strings(&["data", "result"]);
        assert(views(dn@) =~= default_banned_names());
        let ds = strings(&["Manager", "Helper"]);
        assert(views(ds@) =~= default_banned_suffixes());
        let names = read_strings(t, "banned_names", dn);
        let suffixes = read_strings(t, "banned_suffixes", ds);
        match (level, names, suffixes) {
            (Ok(level), Ok(banned_names), Ok(banned_suffixes)) => Ok(
                NamingPolicyConfig { level, banned_names, banned_suffixes },
            ),
            (Err(e), _, _) => Err(e),
            (_, Err(e), _) => Err(e),
            (_, _, Err(e)) => Err(e),
        }
    }
}

#[derive(Debug)]
pub struct GodObjectConfig {
    pub level: Level,
    pub max_fields: usize,
    pub max_variants: usize,
    pub max_methods: usize,
}

impl RuleOptions for GodObjectConfig {
    open spec fn spec_default_level() -> Level {
        Level::Allow
    }

    open spec fn decodable(t: TableData) -> bool {
        &&& spec_read_level(t, "level"@, Level::Allow) is Some
        &&& spec_read_usize(t, "max_fields"@, 12) is Some
        &&& spec_read_usize(t, "max_variants"@, 20) is Some
        &&& spec_read_usize(t, "max_methods"@, 20) is Some
    }

    open spec fn decodes(t: TableData, v: Self) -> bool {
        &&& spec_read_level(t, "level"@, Level::Allow) == Some(v.level)
        &&& spec_read_usize(t, "max_fields"@, 12) == Some(v.max_fields)
        &&& spec_read_usize(t, "max_variants"@, 20) == Some(v.max_variants)
        &&& spec_read_usize(t, "max_methods"@, 20) == Some(v.max_methods)
    }

    fn default_level() -> (r: Level) {
        Level::Allow
    }

    fn from_table(t: &TomlTable) -> (r: Result<Self, String>) {
        let level = read_level(t, "level", Level::Allow);
        let max_fields = read_usize(t, "max_fields", 12);
        let max_variants = read_usize(t, "max_variants", 20);
        let max_methods = read_usize(t, "max_methods", 20);
        match (level, max_fields, max_variants, max_methods) {
            (Ok(level), Ok(max_fields), Ok(max_variants), Ok(max_methods)) => Ok(
                GodObjectConfig { level, max_fields, max_variants, max_methods },
            ),
            (Err(e), _, _, _) => Err(e),
            (_, Err(e), _, _) => Err(e),
            (_, _, Err(e), _) => Err(e),
            (_, _, _, Err(e)) => Err(e),
        }
    }
}

#[derive(Debug)]
pub struct HotPathAllocationsConfig {
    pub level: Level,
    pub methods: Vec<String>,
    pub macros: Vec<String>,
}

pub open spec fn default_hot_methods() -> Seq<Seq<char>> {
    seq!["clone"@, "to_string"@, "collect"@]
}

pub open spec fn default_hot_macros() -> Seq<Seq<char>> {
    seq!["format"@, "vec"@]
}

impl RuleOptions for HotPathAllocationsConfig {
    open spec fn spec_default_level() -> Level {
        Level::Allow
    }

    open spec fn decodable(t: TableData) -> bool {
        &&& spec_read_level(t, "level"@, Level::Allow) is Some
        &&& spec_read_strings(t, "methods"@, default_hot_methods()) is Some
        &&& spec_read_strings(t, "macros"@, default_hot_macros()) is Some
    }

    open spec fn decodes(t: TableData, v: Self) -> bool {
        &&& spec_read_level(t, "level"@, Level::Allow) == Some(v.level)
        &&& spec_read_strings(t, "methods"@, default_hot_methods()) == Some(views(v.methods@))
        &&& spec_read_strings(t, "macros"@, default_hot_macros()) == Some(views(v.macros@))
    }

    fn default_level() -> (r: Level) {
        Level::Allow
    }

    fn from_table(t: &TomlTable) -> (r: Result<Self, String>) {
        let level = read_level(t, "level", Level::Allow);
        let dm = strings(&["clone", "to_string", "collect"]);
        assert(views(dm@) =~= default_hot_methods());
        let dx = strings(&["format", "vec"]);
        assert(views(dx@) =~= default_hot_macros());
        let methods = read_strings(t, "methods", dm);
        let macros = read_strings(t, "macros", dx);
        match (level, methods, macros) {
            (Ok(level), Ok(methods), Ok(macros)) => Ok(HotPathAllocationsConfig { level, methods, macros }),
            (Err(e), _, _) => Err(e),
            (_, Err(e), _) => Err(e),
            (_, _, Err(e)) => Err(e),
        }
    }
}

} // verus!

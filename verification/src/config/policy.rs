//! The policy: what a policy file configures, and how a rule's settings are
//! resolved for a file.
use vstd::prelude::*;
use super::level::Level;
use super::value::{TableData, TomlData, TomlEntry, TomlTable, TomlValue, tget, tremove, str_eq};
use super::merge::{merge_data, merge_tables};
use super::read::{views, spec_read_level};
use crate::glob::{lenient_match, lenient_globs_match};

verus! {

/// The policy version this library reads.
pub const CURRENT_POLICY_VERSION: u32 = 3;

#[derive(Debug, Clone, Copy, PartialEq, Eq, Structural)]
pub enum EngineMode {
    Auto,
    Require,
    Off,
}

#[derive(Debug, Clone, Copy, PartialEq, Eq, Structural)]
pub enum ToolchainMode {
    Stable,
    Auto,
    Nightly,
}

#[derive(Debug, Clone, Copy, PartialEq, Eq, Structural)]
pub enum AdapterToolchainMode {
    Inherit,
    Stable,
    Auto,
    Nightly,
}

#[derive(Debug, Clone, Copy, PartialEq, Eq, Structural)]
pub enum OutputFormat {
    Text,
    Json,
    Sarif,
    Html,
}

impl OutputFormat {
    /// The format's name.
    pub fn name(self) -> (r: &'static str)
        ensures
            r@ == match self {
                OutputFormat::Text => "text"@,
                OutputFormat::Json => "json"@,
                OutputFormat::Sarif => "sarif"@,
                OutputFormat::Html => "html"@,
            },
    {
        match self {
            OutputFormat::Text => "text",
            OutputFormat::Json => "json",
            OutputFormat::Sarif => "sarif",
            OutputFormat::Html => "html",
        }
    }
}

#[derive(Debug)]
pub struct EngineConfig {
    pub semantic: EngineMode,
    pub toolchain: ToolchainMode,
    pub nightly_toolchain: String,
}

impl EngineConfig {
    pub fn default() -> (r: EngineConfig)
        ensures
            r.semantic == EngineMode::Auto,
            r.toolchain == ToolchainMode::Stable,
            r.nightly_toolchain@ == "nightly"@,
    {
        EngineConfig {
            semantic: EngineMode::Auto,
            toolchain: ToolchainMode::Stable,
            nightly_toolchain: String::from_str("nightly"),
        }
    }
}

#[derive(Debug)]
pub struct WorkspaceConfig {
    pub include_globs: Vec<String>,
    pub exclude_globs: Vec<String>,
}

impl WorkspaceConfig {
    pub fn default_include() -> (r: Vec<String>)
        ensures
            views(r@) == seq!["**/*.rs"@],
    {
        let r = vec![String::from_str("**/*.rs")];
        assert(views(r@) =~= seq!["**/*.rs"@]);
        r
    }

    pub fn default_exclude() -> (r: Vec<String>)
        ensures
            views(r@) == seq!["target/**"@, ".git/**"@],
    {
        let r = vec![String::from_str("target/**"), String::from_str(".git/**")];
        assert(views(r@) =~= seq!["target/**"@, ".git/**"@]);
        r
    }

    pub fn default() -> (r: WorkspaceConfig)
        ensures
            views(r.include_globs@) == seq!["**/*.rs"@],
            views(r.exclude_globs@) == seq!["target/**"@, ".git/**"@],
    {
        WorkspaceConfig { include_globs: Self::default_include(), exclude_globs: Self::default_exclude() }
    }
}

#[derive(Debug)]
pub struct OutputConfig {
    pub format: OutputFormat,
    pub output: Option<String>,
}

#[derive(Debug)]
pub struct ClippyAdapterConfig {
    pub enabled: bool,
    pub args: Vec<String>,
    pub toolchain: AdapterToolchainMode,
}

impl ClippyAdapterConfig {
    pub fn default() -> (r: ClippyAdapterConfig)
        ensures
            r.enabled,
            r.args@.len() == 0,
            r.toolchain == AdapterToolchainMode::Inherit,
    {
        ClippyAdapterConfig {
            enabled: true,
            args: Vec::new(),
            toolchain: AdapterToolchainMode::Inherit,
        }
    }
}

#[derive(Debug)]
pub struct AdaptersConfig {
    pub clippy: ClippyAdapterConfig,
}

/// A rule's level and options.
#[derive(Debug)]
pub struct RuleSettings {
    pub level: Option<Level>,
    pub options: TomlTable,
}

/// The level and options of a rule, as mathematical values.
pub type SettingsData = (Option<Level>, TableData);

impl RuleSettings {
    pub open spec fn data(&self) -> SettingsData {
        (self.level, self.options@)
    }

    /// No level and no options.
    pub fn empty() -> (r: RuleSettings)
        ensures
            r.level is None,
            r.options@.len() == 0,
    {
        RuleSettings { level: None, options: TomlTable::new() }
    }

    /// An exact copy.
    pub fn copy(&self) -> (r: RuleSettings)
        ensures
            r.data() == self.data(),
    {
        RuleSettings { level: self.level, options: self.options.copy() }
    }

    /// These settings with `override_settings` layered over them: its level, when
    /// it has one, and its options merged over these.
    pub fn merge(&self, override_settings: &RuleSettings) -> (r: RuleSettings)
        ensures
            r.data() == merge_settings(self.data(), override_settings.data()),
    {
        let mut options = self.options.copy();
        merge_tables(&mut options, &override_settings.options);
        let level = match override_settings.level {
            Some(l) => Some(l),
            None => self.level,
        };
        RuleSettings { level, options }
    }

    /// These settings with `default_level` filled in when no level is set.
    pub fn with_default_level(self, default_level: Level) -> (r: RuleSettings)
        ensures
            r.data() == with_default(self.data(), default_level),
    {
        let mut s = self;
        if s.level.is_none() {
            s.level = Some(default_level);
        }
        s
    }
}

/// `over` layered over `base`.
pub open spec fn merge_settings(base: SettingsData, over: SettingsData) -> SettingsData {
    (
        match over.0 {
            Some(l) => Some(l),
            None => base.0,
        },
        merge_data(base.1, over.1),
    )
}

/// `s` with `d` as its level when it has none.
pub open spec fn with_default(s: SettingsData, d: Level) -> SettingsData {
    (
        match s.0 {
            Some(l) => Some(l),
            None => Some(d),
        },
        s.1,
    )
}

/// A rule id with its settings.
#[derive(Debug)]
pub struct RuleEntry {
    pub id: String,
    pub settings: RuleSettings,
}

/// The settings of the first entry for `id`.
pub open spec fn rule_lookup(rules: Seq<RuleEntry>, id: Seq<char>) -> Option<SettingsData>
    decreases rules.len(),
{
    if rules.len() == 0 {
        None
    } else if rules[0].id@ == id {
        Some(rules[0].settings.data())
    } else {
        rule_lookup(rules.drop_first(), id)
    }
}

/// The entry for `id`.
pub fn find_rule<'a>(rules: &'a Vec<RuleEntry>, id: &str) -> (r: Option<&'a RuleSettings>)
    ensures
        match r {
            Some(s) => rule_lookup(rules@, id@) == Some(s.data()),
            None => rule_lookup(rules@, id@) is None,
        },
{
    let mut i: usize = 0;
    assert(rules@.skip(0) =~= rules@);
    while i < rules.len()
        invariant
            i <= rules@.len(),
            rule_lookup(rules@, id@) == rule_lookup(rules@.skip(i as int), id@),
        decreases rules.len() - i,
    {
        assert(rules@.skip(i as int)[0] == rules@[i as int]);
        assert(rules@.skip(i as int).drop_first() =~= rules@.skip(i + 1));
        if str_eq(rules[i].id.as_str(), id) {
            return Some(&rules[i].settings);
        }
        i = i + 1;
    }
    None
}

/// Settings that apply only to files matching the include globs and not the exclude globs.
#[derive(Debug)]
pub struct ScopeConfig {
    pub include_globs: Vec<String>,
    pub exclude_globs: Vec<String>,
    pub rules: Vec<RuleEntry>,
}

/// Whether the scope covers the file at `path` (a scope never covers "no file").
pub open spec fn scope_covers(scope: ScopeConfig, path: Option<Seq<char>>) -> bool {
    match path {
        None => false,
        Some(p) => {
            &&& (scope.include_globs@.len() == 0 || lenient_match(views(scope.include_globs@), p))
            &&& (scope.exclude_globs@.len() == 0 || !lenient_match(views(scope.exclude_globs@), p))
        },
    }
}

/// Whether the scope covers the file at `path`.
pub fn scope_matches(scope: &ScopeConfig, file_path: Option<&str>) -> (r: bool)
    ensures
        r == scope_covers(
            *scope,
            match file_path {
                Some(p) => Some(p@),
                None => None::<Seq<char>>,
            },
        ),
{
    let Some(p) = file_path else {
        return false;
    };
    if scope.include_globs.len() > 0 && !lenient_globs_match(&scope.include_globs, p) {
        return false;
    }
    if scope.exclude_globs.len() > 0 && lenient_globs_match(&scope.exclude_globs, p) {
        return false;
    }
    true
}

/// The settings of `id` from `base` with the settings of every covering scope
/// layered over them, in order.
pub open spec fn resolve_scopes(
    base: SettingsData,
    scopes: Seq<ScopeConfig>,
    id: Seq<char>,
    path: Option<Seq<char>>,
) -> SettingsData
    decreases scopes.len(),
{
    if scopes.len() == 0 {
        base
    } else {
        let next = if scope_covers(scopes[0], path) {
            match rule_lookup(scopes[0].rules@, id) {
                Some(s) => merge_settings(base, s),
                None => base,
            }
        } else {
            base
        };
        resolve_scopes(next, scopes.drop_first(), id, path)
    }
}

/// A complete policy.
#[derive(Debug)]
pub struct Policy {
    pub version: u32,
    pub extends: Vec<String>,
    pub engine: EngineConfig,
    pub workspace: WorkspaceConfig,
    pub output: OutputConfig,
    pub adapters: AdaptersConfig,
    pub rules: Vec<RuleEntry>,
    pub scopes: Vec<ScopeConfig>,
}

/// The settings the policy resolves for rule `id` on the file at `path`.
pub open spec fn resolved_settings(
    p: Policy,
    id: Seq<char>,
    path: Option<Seq<char>>,
    default_level: Level,
) -> SettingsData {
    let base = match rule_lookup(p.rules@, id) {
        Some(s) => s,
        None => (None, Seq::<(Seq<char>, TomlData)>::empty()),
    };
    with_default(resolve_scopes(base, p.scopes@, id, path), default_level)
}

/// The level a scope sets for `id`, or `default_level`.
pub open spec fn scope_level(scope: ScopeConfig, id: Seq<char>, default_level: Level) -> Level {
    match rule_lookup(scope.rules@, id) {
        Some(s) => match s.0 {
            Some(l) => l,
            None => default_level,
        },
        None => default_level,
    }
}

/// The rule runs somewhere: by its top-level setting, or in some scope.
pub open spec fn enabled_anywhere(p: Policy, id: Seq<char>, default_level: Level) -> bool {
    resolved_settings(p, id, None, default_level).0 != Some(Level::Allow) || exists|i: int|
        0 <= i < p.scopes@.len() && #[trigger] scope_level(p.scopes@[i], id, default_level)
            != Level::Allow
}

/// Why a policy cannot be used.
#[derive(Debug)]
pub enum ConfigError {
    Read { path: String, message: String },
    Parse { path: String, message: String },
    Serialize { message: String },
    Write { path: String, message: String },
    UnsupportedVersion { path: String, version: u32 },
    LegacyKey { path: String, key: String, message: String },
    RuleDecode { rule_id: String, message: String },
    Glob { pattern: String, message: String },
}

impl Policy {
    /// The default policy with the given rule settings.
    pub fn default_with_rules(default_rules: Vec<RuleEntry>) -> (r: Policy)
        ensures
            r.version == CURRENT_POLICY_VERSION,
            r.extends@.len() == 0,
            r.engine.semantic == EngineMode::Auto,
            r.engine.toolchain == ToolchainMode::Stable,
            r.engine.nightly_toolchain@ == "nightly"@,
            views(r.workspace.include_globs@) == seq!["**/*.rs"@],
            views(r.workspace.exclude_globs@) == seq!["target/**"@, ".git/**"@],
            r.output.format == OutputFormat::Text,
            r.output.output is None,
            r.adapters.clippy.enabled,
            r.adapters.clippy.args@.len() == 0,
            r.adapters.clippy.toolchain == AdapterToolchainMode::Inherit,
            r.rules == default_rules,
            r.scopes@.len() == 0,
    {
        Policy {
            version: CURRENT_POLICY_VERSION,
            extends: Vec::new(),
            engine: EngineConfig::default(),
            workspace: WorkspaceConfig::default(),
            output: OutputConfig { format: OutputFormat::Text, output: None },
            adapters: AdaptersConfig { clippy: ClippyAdapterConfig::default() },
            rules: default_rules,
            scopes: Vec::new(),
        }
    }

    /// The default policy: no rule settings.
    pub fn default() -> (r: Policy)
        ensures
            r.version == CURRENT_POLICY_VERSION,
            r.rules@.len() == 0,
            r.scopes@.len() == 0,
            r.extends@.len() == 0,
            r.engine.semantic == EngineMode::Auto,
            r.engine.toolchain == ToolchainMode::Stable,
            r.engine.nightly_toolchain@ == "nightly"@,
            views(r.workspace.include_globs@) == seq!["**/*.rs"@],
            views(r.workspace.exclude_globs@) == seq!["target/**"@, ".git/**"@],
            r.output.format == OutputFormat::Text,
            r.output.output is None,
            r.adapters.clippy.enabled,
            r.adapters.clippy.args@.len() == 0,
            r.adapters.clippy.toolchain == AdapterToolchainMode::Inherit,
    {
        Policy::default_with_rules(Vec::new())
    }

    /// The policy's version must be the one this library reads.
    pub fn validate(&self, path: &str) -> (r: Result<(), ConfigError>)
        ensures
            r is Ok <==> self.version == CURRENT_POLICY_VERSION,
            r matches Err(ConfigError::UnsupportedVersion { path: p, version }) ==> p@ == path@
                && version == self.version,
            r is Err ==> r matches Err(ConfigError::UnsupportedVersion { .. }),
    {
        if self.version != CURRENT_POLICY_VERSION {
            return Err(
                ConfigError::UnsupportedVersion { path: path.to_owned(), version: self.version },
            );
        }
        Ok(())
    }

    /// The settings of rule `rule_id` for the file at `file_path`: the top-level
    /// settings, every matching scope's settings layered over them in order, and
    /// `default_level` when no level is set.
    pub fn rule_settings(&self, rule_id: &str, file_path: Option<&str>, default_level: Level) -> (r:
        RuleSettings)
        ensures
            r.data() == resolved_settings(
                *self,
                rule_id@,
                match file_path {
                    Some(p) => Some(p@),
                    None => None::<Seq<char>>,
                },
                default_level,
            ),
    {
        let ghost path = match file_path {
            Some(p) => Some(p@),
            None => None::<Seq<char>>,
        };
        let mut resolved = match find_rule(&self.rules, rule_id) {
            Some(s) => s.copy(),
            None => RuleSettings::empty(),
        };
        assert(resolved.options@ =~= Seq::<(Seq<char>, TomlData)>::empty() || rule_lookup(self.rules@, rule_id@) is Some);
        let ghost base = resolved.data();
        let mut i: usize = 0;
        assert(self.scopes@.skip(0) =~= self.scopes@);
        while i < self.scopes.len()
            invariant
                i <= self.scopes@.len(),
                path == match file_path {
                    Some(p) => Some(p@),
                    None => None::<Seq<char>>,
                },
                resolve_scopes(base, self.scopes@, rule_id@, path) == resolve_scopes(
                    resolved.data(),
                    self.scopes@.skip(i as int),
                    rule_id@,
                    path,
                ),
            decreases self.scopes.len() - i,
        {
            assert(self.scopes@.skip(i as int)[0] == self.scopes@[i as int]);
            assert(self.scopes@.skip(i as int).drop_first() =~= self.scopes@.skip(i + 1));
            let scope = &self.scopes[i];
            if scope_matches(scope, file_path) {
                if let Some(s) = find_rule(&scope.rules, rule_id) {
                    resolved = resolved.merge(s);
                }
            }
            i = i + 1;
        }
        resolved.with_default_level(default_level)
    }

    /// Whether rule `rule_id` runs anywhere: at the top level, or in some scope.
    pub fn rule_enabled_anywhere(&self, rule_id: &str, default_level: Level) -> (r: bool)
        ensures
            r == enabled_anywhere(*self, rule_id@, default_level),
    {
        let top = self.rule_settings(rule_id, None, default_level);
        let top_level = match top.level {
            Some(l) => l,
            None => default_level,
        };
        if top_level.enabled() {
            return true;
        }
        let mut i: usize = 0;
        while i < self.scopes.len()
            invariant
                i <= self.scopes@.len(),
                resolved_settings(*self, rule_id@, None, default_level).0 == Some(Level::Allow),
                forall|j: int|
                    0 <= j < i ==> #[trigger] scope_level(self.scopes@[j], rule_id@, default_level)
                        == Level::Allow,
            decreases self.scopes.len() - i,
        {
            let lvl = match find_rule(&self.scopes[i].rules, rule_id) {
                Some(s) => match s.level {
                    Some(l) => l,
                    None => default_level,
                },
                None => default_level,
            };
            if lvl.enabled() {
                assert(scope_level(self.scopes@[i as int], rule_id@, default_level) != Level::Allow);
                return true;
            }
            i = i + 1;
        }
        false
    }
}

} // verus!

//! The command line's arguments and the decisions the `rscheck` command takes
//! on them.
use vstd::prelude::*;
use vstd::string::*;
use crate::config::level::Level;
use crate::config::policy::{OutputFormat, Policy, ToolchainMode};
use crate::config::value::str_eq;
use crate::report::{AdapterRun, Report, worst_of, severity_rank};
use crate::rules::catalog::{catalog, rule_catalog};
use crate::rules::{RuleBackend, RuleFamily, RuleInfo};

verus! {

/// The process exit code of a command.
#[derive(Clone, Copy, Debug, PartialEq, Eq, Structural)]
pub struct ExitCode(pub i32);

impl From<i32> for ExitCode {
    fn from(value: i32) -> (r: Self) {
        ExitCode(value)
    }
}

impl vstd::std_specs::convert::FromSpecImpl<i32> for ExitCode {
    open spec fn obeys_from_spec() -> bool {
        true
    }

    open spec fn from_spec(v: i32) -> Self {
        ExitCode(v)
    }
}

/// The command line.
#[derive(Debug)]
pub struct Cli {
    pub cmd: Command,
}

#[derive(Debug)]
pub enum Command {
    Check(CheckArgs),
    ListRules,
    Explain { rule_id: String },
    Init(InitArgs),
}

/// Where the configuration comes from and where and how the report goes.
#[derive(Debug)]
pub struct CommonOutputArgs {
    pub config: Option<String>,
    pub format: Option<FormatArg>,
    pub output: Option<String>,
}

#[derive(Debug, Clone, Copy, PartialEq, Eq, Structural)]
pub enum FormatArg {
    Text,
    Json,
    Sarif,
    Html,
}

pub open spec fn spec_format(value: FormatArg) -> OutputFormat {
    match value {
        FormatArg::Text => OutputFormat::Text,
        FormatArg::Json => OutputFormat::Json,
        FormatArg::Sarif => OutputFormat::Sarif,
        FormatArg::Html => OutputFormat::Html,
    }
}

impl From<FormatArg> for OutputFormat {
    fn from(value: FormatArg) -> (r: Self) {
        match value {
            FormatArg::Text => OutputFormat::Text,
            FormatArg::Json => OutputFormat::Json,
            FormatArg::Sarif => OutputFormat::Sarif,
            FormatArg::Html => OutputFormat::Html,
        }
    }
}

impl vstd::std_specs::convert::FromSpecImpl<FormatArg> for OutputFormat {
    open spec fn obeys_from_spec() -> bool {
        true
    }

    open spec fn from_spec(v: FormatArg) -> Self {
        spec_format(v)
    }
}

/// The arguments of `rscheck check`.
#[derive(Debug)]
pub struct CheckArgs {
    pub out: CommonOutputArgs,
    pub rscheck: bool,
    pub write: bool,
    pub unsafe_fixes: bool,
    pub dry_run: bool,
    pub max_fix_iterations: u32,
    pub toolchain: Option<ToolchainArg>,
    pub cargo_args: Vec<String>,
}

/// The toolchain asked for on the command line; `Current` is the stable
/// toolchain that cargo runs by default.
#[derive(Debug, Clone, Copy, PartialEq, Eq, Structural)]
pub enum ToolchainArg {
    Current,
    Auto,
    Nightly,
}

pub open spec fn spec_toolchain(value: ToolchainArg) -> ToolchainMode {
    match value {
        ToolchainArg::Current => ToolchainMode::Stable,
        ToolchainArg::Auto => ToolchainMode::Auto,
        ToolchainArg::Nightly => ToolchainMode::Nightly,
    }
}

impl From<ToolchainArg> for ToolchainMode {
    fn from(value: ToolchainArg) -> (r: Self) {
        match value {
            ToolchainArg::Current => ToolchainMode::Stable,
            ToolchainArg::Auto => ToolchainMode::Auto,
            ToolchainArg::Nightly => ToolchainMode::Nightly,
        }
    }
}

impl vstd::std_specs::convert::FromSpecImpl<ToolchainArg> for ToolchainMode {
    open spec fn obeys_from_spec() -> bool {
        true
    }

    open spec fn from_spec(v: ToolchainArg) -> Self {
        spec_toolchain(v)
    }
}

/// The arguments of `rscheck init`.
#[derive(Debug)]
pub struct InitArgs {
    pub path: Option<String>,
}

/// The exit code of a run that failed before it could check anything.
pub open spec fn failure_code() -> ExitCode {
    ExitCode(2)
}

/// `--write` and `--dry-run` exclude each other.
pub fn validate_check_args(args: &CheckArgs) -> (r: Result<(), ExitCode>)
    ensures
        r is Err <==> (args.write && args.dry_run),
        r matches Err(c) ==> c == failure_code(),
{
    if args.write && args.dry_run {
        return Err(ExitCode(2));
    }
    Ok(())
}

/// How many check passes a run makes: up to `max_fix_iterations` (at least
/// one) when it writes or previews fixes, else one.
pub open spec fn spec_iteration_count(args: CheckArgs) -> u32 {
    if args.write || args.dry_run {
        if args.max_fix_iterations >= 1 {
            args.max_fix_iterations
        } else {
            1
        }
    } else {
        1
    }
}

pub fn iteration_count(args: &CheckArgs) -> (r: u32)
    ensures
        r == spec_iteration_count(*args),
        r >= 1,
{
    if args.write || args.dry_run {
        if args.max_fix_iterations >= 1 {
            args.max_fix_iterations
        } else {
            1
        }
    } else {
        1
    }
}

/// `path` joined below `root`, as `Path::join` does for a relative path: a
/// `/` is put between them unless `root` is empty or ends in one.
pub open spec fn joined(root: Seq<char>, path: Seq<char>) -> Seq<char> {
    if root.len() == 0 || root.last() == '/' {
        root + path
    } else {
        root + "/"@ + path
    }
}

/// The configuration file of a workspace: `.rscheck.toml` at its root.
pub fn default_config_path(workspace_root: &str) -> (r: String)
    ensures
        r@ == joined(workspace_root@, ".rscheck.toml"@),
{
    let cs = crate::text::chars_of(workspace_root);
    let mut out = workspace_root.to_owned();
    if cs.len() > 0 && cs[cs.len() - 1] != '/' {
        out.append("/");
    }
    out.append(".rscheck.toml");
    out
}

/// The configuration file of a check: the one named on the command line,
/// else the workspace's.
pub fn config_path(args: &CheckArgs, workspace_root: &str) -> (r: String)
    ensures
        r@ == match args.out.config {
            Some(c) => c@,
            None => joined(workspace_root@, ".rscheck.toml"@),
        },
{
    match &args.out.config {
        Some(c) => c.clone(),
        None => default_config_path(workspace_root),
    }
}

/// The format and output file given on the command line take the place of
/// the policy's; nothing else of the policy changes.
pub fn apply_output_args(policy: &mut Policy, out: &CommonOutputArgs)
    ensures
        final(policy).output.format == match out.format {
            Some(f) => spec_format(f),
            None => old(policy).output.format,
        },
        crate::report::opt_text(final(policy).output.output) == match out.output {
            Some(o) => Some(o@),
            None => crate::report::opt_text(old(policy).output.output),
        },
        final(policy).version == old(policy).version,
        final(policy).extends == old(policy).extends,
        final(policy).engine == old(policy).engine,
        final(policy).workspace == old(policy).workspace,
        final(policy).adapters == old(policy).adapters,
        final(policy).rules == old(policy).rules,
        final(policy).scopes == old(policy).scopes,
{
    match out.format {
        Some(f) => {
            policy.output.format = OutputFormat::from(f);
        },
        None => {},
    }
    match &out.output {
        Some(o) => {
            policy.output.output = Some(o.clone());
        },
        None => {},
    }
}

/// What one check pass does with its report.
#[derive(Debug, Clone, Copy, PartialEq, Eq, Structural)]
pub enum IterationStep {
    /// Show the planned edits as a diff, write the report and stop.
    DryRun,
    /// Write the report and stop.
    Report,
    /// Apply the planned edits and go on with the next pass.
    Apply,
}

pub fn iteration_step(args: &CheckArgs) -> (r: IterationStep)
    ensures
        r == if args.dry_run {
            IterationStep::DryRun
        } else if !args.write {
            IterationStep::Report
        } else {
            IterationStep::Apply
        },
{
    if args.dry_run {
        IterationStep::DryRun
    } else if !args.write {
        IterationStep::Report
    } else {
        IterationStep::Apply
    }
}

/// A preview exits with 1 when applying the edits would change a file.
pub fn dry_run_exit_code(would_change: bool) -> (r: ExitCode)
    ensures
        r == ExitCode(if would_change { 1 } else { 0 }),
{
    ExitCode::from(if would_change { 1 } else { 0 })
}

/// A finished check exits with the code of its worst finding.
pub fn report_exit_code(report: &Report) -> (r: ExitCode)
    ensures
        r == ExitCode(severity_rank(worst_of(report.findings@))),
{
    ExitCode::from(report.worst_severity().exit_code())
}

pub open spec fn names_clippy(r: AdapterRun) -> bool {
    r.name@ == "clippy"@
}

/// The index of the first run named `clippy`.
pub open spec fn clippy_run_index(runs: Seq<AdapterRun>) -> Option<int>
    decreases runs.len(),
{
    if runs.len() == 0 {
        None
    } else {
        match clippy_run_index(runs.drop_last()) {
            Some(i) => Some(i),
            None => if names_clippy(runs.last()) {
                Some(runs.len() - 1)
            } else {
                None
            },
        }
    }
}

proof fn lemma_clippy_run_index(runs: Seq<AdapterRun>)
    ensures
        match clippy_run_index(runs) {
            Some(i) => 0 <= i < runs.len() && names_clippy(runs[i]) && forall|j: int|
                0 <= j < i ==> !names_clippy(#[trigger] runs[j]),
            None => forall|j: int| 0 <= j < runs.len() ==> !names_clippy(#[trigger] runs[j]),
        },
    decreases runs.len(),
{
    if runs.len() > 0 {
        lemma_clippy_run_index(runs.drop_last());
        assert(forall|j: int| 0 <= j < runs.len() - 1 ==> runs.drop_last()[j] == runs[j]);
    }
}

fn find_clippy_run(runs: &Vec<AdapterRun>) -> (r: Option<usize>)
    ensures
        match clippy_run_index(runs@) {
            Some(i) => r matches Some(k) && k as int == i && 0 <= i < runs@.len(),
            None => r is None,
        },
{
    proof {
        lemma_clippy_run_index(runs@);
    }
    let mut i: usize = 0;
    while i < runs.len()
        invariant
            i <= runs@.len(),
            forall|j: int| 0 <= j < i ==> !names_clippy(#[trigger] runs@[j]),
            match clippy_run_index(runs@) {
                Some(k) => 0 <= k < runs@.len() && names_clippy(runs@[k]) && forall|j: int|
                    0 <= j < k ==> !names_clippy(#[trigger] runs@[j]),
                None => forall|j: int| 0 <= j < runs@.len() ==> !names_clippy(#[trigger] runs@[j]),
            },
        decreases runs.len() - i,
    {
        proof {
            reveal_strlit("clippy");
        }
        if str_eq(runs[i].name.as_str(), "clippy") {
            return Some(i);
        }
        i = i + 1;
    }
    None
}

/// The report records a run of the clippy adapter: one is added, enabled and
/// with nothing else known, unless a run named `clippy` is there already.
pub fn ensure_clippy_adapter_run(report: &mut Report)
    ensures
        clippy_run_index(old(report).summary.adapter_runs@) is Some ==> final(report).summary.adapter_runs@
            == old(report).summary.adapter_runs@,
        clippy_run_index(old(report).summary.adapter_runs@) is None ==> ({
            let runs = final(report).summary.adapter_runs@;
            &&& runs.len() == old(report).summary.adapter_runs@.len() + 1
            &&& runs.drop_last() == old(report).summary.adapter_runs@
            &&& runs.last().name@ == "clippy"@
            &&& runs.last().enabled
            &&& runs.last().toolchain is None
            &&& runs.last().status is None
        }),
        final(report).findings == old(report).findings,
        final(report).metrics == old(report).metrics,
        final(report).rule_catalog == old(report).rule_catalog,
        final(report).summary.engine_used == old(report).summary.engine_used,
        final(report).summary.semantic_backend_available == old(report).summary.semantic_backend_available,
        final(report).summary.semantic_backend_reason == old(report).summary.semantic_backend_reason,
        final(report).summary.toolchain == old(report).summary.toolchain,
        final(report).summary.skipped_rules == old(report).summary.skipped_rules,
{
    match find_clippy_run(&report.summary.adapter_runs) {
        Some(_) => {},
        None => {
            let ghost before = report.summary.adapter_runs@;
            report.summary.adapter_runs.push(
                AdapterRun { name: String::from_str("clippy"), enabled: true, toolchain: None, status: None },
            );
            assert(report.summary.adapter_runs@.drop_last() =~= before);
        },
    }
}

/// The run records the toolchain `runtime` and the status `ok`.
pub open spec fn ran_ok(run: AdapterRun, runtime: Seq<char>) -> bool {
    &&& crate::report::opt_text(run.toolchain) == Some(runtime)
    &&& crate::report::opt_text(run.status) == Some("ok"@)
}

/// The first run named `clippy` records the toolchain it ran on and the
/// status `ok`; no other run changes.
pub fn set_clippy_adapter_status(report: &mut Report, runtime: String)
    ensures
        final(report).summary.adapter_runs@.len() == old(report).summary.adapter_runs@.len(),
        clippy_run_index(old(report).summary.adapter_runs@) matches Some(i) ==> final(report).summary.adapter_runs@[i].name@
            == old(report).summary.adapter_runs@[i].name@,
        clippy_run_index(old(report).summary.adapter_runs@) matches Some(i) ==> final(report).summary.adapter_runs@[i].enabled
            == old(report).summary.adapter_runs@[i].enabled,
        clippy_run_index(old(report).summary.adapter_runs@) matches Some(i) ==> ran_ok(
            final(report).summary.adapter_runs@[i],
            runtime@,
        ),
        forall|j: int|
            0 <= j < old(report).summary.adapter_runs@.len() && clippy_run_index(old(report).summary.adapter_runs@)
                != Some(j) ==> final(report).summary.adapter_runs@[j] == old(report).summary.adapter_runs@[j],
        final(report).findings == old(report).findings,
        final(report).metrics == old(report).metrics,
        final(report).rule_catalog == old(report).rule_catalog,
        final(report).summary.engine_used == old(report).summary.engine_used,
        final(report).summary.semantic_backend_available == old(report).summary.semantic_backend_available,
        final(report).summary.semantic_backend_reason == old(report).summary.semantic_backend_reason,
        final(report).summary.toolchain == old(report).summary.toolchain,
        final(report).summary.skipped_rules == old(report).summary.skipped_rules,
{
    let found = find_clippy_run(&report.summary.adapter_runs);
    if let Some(i) = found {
        let name = report.summary.adapter_runs[i].name.clone();
        let enabled = report.summary.adapter_runs[i].enabled;
        let run = AdapterRun { name, enabled, toolchain: Some(runtime), status: Some(String::from_str("ok")) };
        report.summary.adapter_runs.set(i, run);
    }
}

/// The arguments clippy runs with: the policy's, then those of the command line.
pub fn clippy_args(policy: &Policy, cargo_args: &Vec<String>) -> (r: Vec<String>)
    ensures
        r@.map_values(|s: String| s@) == policy.adapters.clippy.args@.map_values(|s: String| s@)
            + cargo_args@.map_values(|s: String| s@),
{
    let ghost base = policy.adapters.clippy.args@.map_values(|s: String| s@);
    let ghost extra = cargo_args@.map_values(|s: String| s@);
    let mut out: Vec<String> = Vec::new();
    let mut i: usize = 0;
    while i < policy.adapters.clippy.args.len()
        invariant
            i <= policy.adapters.clippy.args@.len(),
            base == policy.adapters.clippy.args@.map_values(|s: String| s@),
            out@.map_values(|s: String| s@) == base.take(i as int),
        decreases policy.adapters.clippy.args.len() - i,
    {
        let ghost before = out@.map_values(|s: String| s@);
        out.push(policy.adapters.clippy.args[i].clone());
        assert(out@.map_values(|s: String| s@) =~= before.push(base[i as int]));
        assert(base.take(i + 1) =~= base.take(i as int).push(base[i as int]));
        i = i + 1;
    }
    assert(base.take(base.len() as int) =~= base);
    let mut k: usize = 0;
    while k < cargo_args.len()
        invariant
            k <= cargo_args@.len(),
            extra == cargo_args@.map_values(|s: String| s@),
            out@.map_values(|s: String| s@) == base + extra.take(k as int),
        decreases cargo_args.len() - k,
    {
        let ghost before = out@.map_values(|s: String| s@);
        out.push(cargo_args[k].clone());
        assert(out@.map_values(|s: String| s@) =~= before.push(extra[k as int]));
        assert(extra.take(k + 1) =~= extra.take(k as int).push(extra[k as int]));
        k = k + 1;
    }
    assert(extra.take(extra.len() as int) =~= extra);
    out
}

// ---------------------------------------------------------------------------
// Listing and explaining rules
// ---------------------------------------------------------------------------

pub open spec fn family_name(f: RuleFamily) -> Seq<char> {
    match f {
        RuleFamily::Architecture => "Architecture"@,
        RuleFamily::Design => "Design"@,
        RuleFamily::Shape => "Shape"@,
        RuleFamily::Portability => "Portability"@,
        RuleFamily::Testing => "Testing"@,
        RuleFamily::Performance => "Performance"@,
    }
}

fn family_text(f: RuleFamily) -> (r: &'static str)
    ensures
        r@ == family_name(f),
{
    match f {
        RuleFamily::Architecture => "Architecture",
        RuleFamily::Design => "Design",
        RuleFamily::Shape => "Shape",
        RuleFamily::Portability => "Portability",
        RuleFamily::Testing => "Testing",
        RuleFamily::Performance => "Performance",
    }
}

pub open spec fn backend_name(b: RuleBackend) -> Seq<char> {
    match b {
        RuleBackend::Syntax => "Syntax"@,
        RuleBackend::Semantic => "Semantic"@,
        RuleBackend::Adapter => "Adapter"@,
    }
}

fn backend_text(b: RuleBackend) -> (r: &'static str)
    ensures
        r@ == backend_name(b),
{
    match b {
        RuleBackend::Syntax => "Syntax",
        RuleBackend::Semantic => "Semantic",
        RuleBackend::Adapter => "Adapter",
    }
}

pub open spec fn level_name(l: Level) -> Seq<char> {
    match l {
        Level::Allow => "Allow"@,
        Level::Warn => "Warn"@,
        Level::Deny => "Deny"@,
    }
}

fn level_text(l: Level) -> (r: &'static str)
    ensures
        r@ == level_name(l),
{
    match l {
        Level::Allow => "Allow",
        Level::Warn => "Warn",
        Level::Deny => "Deny",
    }
}

/// The line `rscheck list-rules` prints for a rule: id, family, backend,
/// default level and summary, separated by tabs.
pub open spec fn rule_line_text(info: RuleInfo) -> Seq<char> {
    info.id@ + "\t"@ + family_name(info.family) + "\t"@ + backend_name(info.backend) + "\t"@ + level_name(
        info.default_level,
    ) + "\t"@ + info.summary@
}

pub fn rule_line(info: &RuleInfo) -> (r: String)
    ensures
        r@ == rule_line_text(*info),
{
    let mut out = info.id.to_owned();
    out.append("\t");
    out.append(family_text(info.family));
    out.append("\t");
    out.append(backend_text(info.backend));
    out.append("\t");
    out.append(level_text(info.default_level));
    out.append("\t");
    out.append(info.summary);
    out
}

/// What `rscheck explain` prints for a rule.
pub open spec fn explain_text(info: RuleInfo) -> Seq<char> {
    info.id@ + "\n\nfamily: "@ + family_name(info.family) + "\nbackend: "@ + backend_name(info.backend)
        + "\ndefault: "@ + level_name(info.default_level) + "\nschema: "@ + info.schema@ + "\n\n"@
        + info.config_example@ + "\n"@
}

pub fn explain_rule(info: &RuleInfo) -> (r: String)
    ensures
        r@ == explain_text(*info),
{
    let mut out = info.id.to_owned();
    out.append("\n\nfamily: ");
    out.append(family_text(info.family));
    out.append("\nbackend: ");
    out.append(backend_text(info.backend));
    out.append("\ndefault: ");
    out.append(level_text(info.default_level));
    out.append("\nschema: ");
    out.append(info.schema);
    out.append("\n\n");
    out.append(info.config_example);
    out.append("\n");
    out
}

/// The catalogue's first rule with id `id`.
pub open spec fn catalog_index(rules: Seq<RuleInfo>, id: Seq<char>) -> Option<int>
    decreases rules.len(),
{
    if rules.len() == 0 {
        None
    } else {
        match catalog_index(rules.drop_last(), id) {
            Some(i) => Some(i),
            None => if rules.last().id@ == id {
                Some(rules.len() - 1)
            } else {
                None
            },
        }
    }
}

/// The rule of the catalogue with id `rule_id`, if there is one.
pub fn find_rule_info(rule_id: &str) -> (r: Option<RuleInfo>)
    ensures
        match catalog_index(catalog(), rule_id@) {
            Some(i) => r == Some(catalog()[i]),
            None => r is None,
        },
{
    let rules = rule_catalog();
    let mut i: usize = 0;
    while i < rules.len()
        invariant
            i <= rules@.len(),
            rules@ == catalog(),
            catalog_index(rules@.take(i as int), rule_id@) is None,
        decreases rules.len() - i,
    {
        assert(rules@.take(i + 1).drop_last() =~= rules@.take(i as int));
        if str_eq(rules[i].id, rule_id) {
            proof {
                lemma_catalog_index_prefix(rules@, (i + 1) as int, rule_id@);
            }
            return Some(rules[i]);
        }
        i = i + 1;
    }
    assert(rules@.take(rules@.len() as int) =~= rules@);
    None
}

proof fn lemma_catalog_index_prefix(rules: Seq<RuleInfo>, n: int, id: Seq<char>)
    requires
        0 < n <= rules.len(),
        catalog_index(rules.take(n), id) == Some(n - 1),
    ensures
        catalog_index(rules, id) == Some(n - 1),
    decreases rules.len(),
{
    if rules.len() > n {
        assert(rules.drop_last().take(n) =~= rules.take(n));
        lemma_catalog_index_prefix(rules.drop_last(), n, id);
    } else {
        assert(rules.take(n) =~= rules);
    }
}

} // verus!

use rscheck::cli::{
    apply_output_args, clippy_args, config_path, default_config_path, dry_run_exit_code, ensure_clippy_adapter_run,
    explain_rule, find_rule_info, iteration_count, iteration_step, report_exit_code, rule_line,
    set_clippy_adapter_status, validate_check_args, CheckArgs, CommonOutputArgs, ExitCode, FormatArg, IterationStep,
    ToolchainArg,
};
use rscheck::config::policy::{OutputFormat, Policy, ToolchainMode};
use rscheck::report::{AdapterRun, Report};

fn check_args(write: bool, dry_run: bool, max_fix_iterations: u32) -> CheckArgs {
    CheckArgs {
        out: CommonOutputArgs { config: None, format: None, output: None },
        rscheck: true,
        write,
        unsafe_fixes: false,
        dry_run,
        max_fix_iterations,
        toolchain: None,
        cargo_args: Vec::new(),
    }
}

#[test]
fn write_and_dry_run_exclude_each_other() {
    assert_eq!(validate_check_args(&check_args(true, true, 10)).err(), Some(ExitCode(2)));
    assert!(validate_check_args(&check_args(true, false, 10)).is_ok());
}

#[test]
fn fixing_runs_several_passes() {
    assert_eq!(iteration_count(&check_args(false, false, 10)), 1);
    assert_eq!(iteration_count(&check_args(true, false, 10)), 10);
    assert_eq!(iteration_count(&check_args(false, true, 0)), 1);
    assert_eq!(iteration_step(&check_args(false, true, 3)), IterationStep::DryRun);
    assert_eq!(iteration_step(&check_args(false, false, 3)), IterationStep::Report);
    assert_eq!(iteration_step(&check_args(true, false, 3)), IterationStep::Apply);
}

#[test]
fn config_path_defaults_to_workspace_file() {
    assert_eq!(default_config_path("/work/space"), "/work/space/.rscheck.toml");
    assert_eq!(default_config_path("/work/space/"), "/work/space/.rscheck.toml");
    let mut args = check_args(false, false, 1);
    assert_eq!(config_path(&args, "/w"), "/w/.rscheck.toml");
    args.out.config = Some("custom.toml".to_string());
    assert_eq!(config_path(&args, "/w"), "custom.toml");
}

#[test]
fn command_line_output_overrides_policy() {
    let mut policy = Policy::default();
    let out = CommonOutputArgs { config: None, format: Some(FormatArg::Sarif), output: Some("out.sarif".to_string()) };
    apply_output_args(&mut policy, &out);
    assert_eq!(policy.output.format, OutputFormat::Sarif);
    assert_eq!(policy.output.output.as_deref(), Some("out.sarif"));
    assert_eq!(ToolchainMode::from(ToolchainArg::Current), ToolchainMode::Stable);
    assert_eq!(ExitCode::from(3), ExitCode(3));
}

#[test]
fn exit_codes_follow_outcome() {
    assert_eq!(dry_run_exit_code(true), ExitCode(1));
    assert_eq!(dry_run_exit_code(false), ExitCode(0));
    assert_eq!(report_exit_code(&Report::empty()), ExitCode(0));
}

#[test]
fn clippy_adapter_run_is_recorded_once() {
    let mut report = Report::empty();
    ensure_clippy_adapter_run(&mut report);
    ensure_clippy_adapter_run(&mut report);
    assert_eq!(report.summary.adapter_runs.len(), 1);
    set_clippy_adapter_status(&mut report, "stable".to_string());
    let run: &AdapterRun = &report.summary.adapter_runs[0];
    assert_eq!(run.name, "clippy");
    assert_eq!(run.toolchain.as_deref(), Some("stable"));
    assert_eq!(run.status.as_deref(), Some("ok"));
}

#[test]
fn clippy_args_put_policy_args_first() {
    let mut policy = Policy::default();
    policy.adapters.clippy.args = vec!["--all-targets".to_string()];
    let args = clippy_args(&policy, &vec!["--".to_string(), "-Dwarnings".to_string()]);
    assert_eq!(args, vec!["--all-targets", "--", "-Dwarnings"]);
}

#[test]
fn rules_are_listed_and_explained() {
    let info = find_rule_info("shape.file_complexity").unwrap();
    assert!(rule_line(&info).starts_with("shape.file_complexity\tShape\tSyntax\t"));
    let text = explain_rule(&info);
    assert!(text.starts_with("shape.file_complexity\n\nfamily: Shape\nbackend: Syntax\n"));
    assert!(find_rule_info("no.such.rule").is_none());
}

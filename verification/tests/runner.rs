use rscheck::config::policy::{EngineMode, Policy};
use rscheck::rules::catalog::{default_rule_settings, enabled_rules};
use rscheck::runner::{RunError, Runner};
use rscheck::semantic::SemanticBackendStatus;

#[test]
fn plan_runs_or_skips_every_enabled_rule() {
    let policy = Policy::default_with_rules(default_rule_settings());
    let status = SemanticBackendStatus::unavailable("stable", "no nightly".to_string());
    let plan = Runner::plan(&policy, &status).ok().unwrap();
    let enabled = enabled_rules(&policy);
    assert_eq!(plan.rules.len() + plan.report.summary.skipped_rules.len(), enabled.len());
    let engines = &plan.report.summary.engine_used;
    for (i, a) in engines.iter().enumerate() {
        assert!(engines.iter().skip(i + 1).all(|b| b != a));
        assert!(plan.rules.iter().any(|r| r.backend == *a));
    }
    assert!(plan.report.findings.is_empty());
    assert!(!plan.report.summary.semantic_backend_available);
}

#[test]
fn required_semantic_backend_that_is_missing_blocks_the_run() {
    let mut policy = Policy::default_with_rules(default_rule_settings());
    policy.engine.semantic = EngineMode::Require;
    let status = SemanticBackendStatus::unavailable("stable", "no nightly".to_string());
    match Runner::plan(&policy, &status) {
        Err(RunError::SemanticBackendRequired(m)) => assert_eq!(m, "no nightly"),
        Ok(_) => panic!("the run should be blocked"),
    }
}

use rscheck::config::policy::{Policy, RuleEntry, RuleSettings};
use rscheck::config::rule_options::BannedDependenciesConfig;
use rscheck::config::{Level, TomlTable, TomlValue};
use rscheck::report::Finding;
use rscheck::rules::catalog::BannedDependenciesRule;
use rscheck::span::LineColumn;

fn banned_policy() -> Policy {
    let mut options = TomlTable::new();
    options.insert(
        "banned_prefixes".to_string(),
        TomlValue::Array(vec![TomlValue::String("std::sync::Mutex".to_string())]),
    );
    let mut policy = Policy::default();
    policy.rules.push(RuleEntry {
        id: "architecture.banned_dependencies".to_string(),
        settings: RuleSettings { level: Some(Level::Deny), options },
    });
    policy
}

/// Runs the rule over the paths of a file, as their text with white space removed.
fn run_on_paths(paths: &[&str]) -> Vec<Finding> {
    let policy = banned_policy();
    let cfg: BannedDependenciesConfig =
        policy.decode_rule("architecture.banned_dependencies", Some("./rscheck_test.rs")).ok().unwrap();
    assert!(BannedDependenciesRule::active(&cfg));
    let at = LineColumn { line: 1, column: 0 };
    paths
        .iter()
        .filter_map(|p| BannedDependenciesRule::check_path("./rscheck_test.rs", &cfg, p, at, at))
        .collect()
}

#[test]
fn flags_banned_path_prefix() {
    let findings = run_on_paths(&["std::sync::Mutex"]);
    assert_eq!(findings.len(), 1);
}

#[test]
fn does_not_match_partial_path_prefix() {
    let findings = run_on_paths(&["std::sync::MutexGuard<'static,u32>", "u32"]);
    assert!(findings.is_empty());
}

#[test]
fn banned_finding_names_path_and_prefix() {
    let findings = run_on_paths(&["std::sync::Mutex::new"]);
    assert_eq!(findings[0].message(), "banned dependency path: std::sync::Mutex::new");
    assert_eq!(findings[0].help(), Some("Remove or replace dependency on `std::sync::Mutex`."));
}

use rscheck::config::policy::{Policy, RuleEntry, RuleSettings};
use rscheck::config::rule_options::{HotPathAllocationsConfig, NamingPolicyConfig};
use rscheck::config::{Level, TomlTable};
use rscheck::report::Finding;
use rscheck::rules::catalog::{HotPathAllocationsRule, NamingPolicyRule};
use rscheck::span::LineColumn;

fn single_rule_policy(id: &str, level: Level, options: TomlTable) -> Policy {
    let mut policy = Policy::default();
    policy.rules.push(RuleEntry { id: id.to_string(), settings: RuleSettings { level: Some(level), options } });
    policy
}

const FILE: &str = "./rscheck_test.rs";

/// Runs the naming rule over the names a file binds, as (subject, name).
fn naming_findings(names: &[(&str, &str)]) -> Vec<Finding> {
    let id = NamingPolicyRule::static_info().id;
    let policy = single_rule_policy(id, Level::Warn, TomlTable::new());
    let cfg: NamingPolicyConfig = policy.decode_rule(id, Some(FILE)).ok().unwrap();
    let at = LineColumn { line: 1, column: 3 };
    names.iter().filter_map(|(subject, name)| NamingPolicyRule::check_name(FILE, &cfg, subject, name, at, at)).collect()
}

#[test]
fn test_naming_policy_generic_binding_returns_warning() {
    // fn demo() { let data = 1; }
    let findings = naming_findings(&[("function", "demo"), ("binding", "data")]);

    assert_eq!(findings.len(), 1);
    assert!(findings[0].message().contains("data"));
}

#[test]
fn test_naming_policy_domain_name_returns_no_findings() {
    // fn load_policy() { let policy_count = 1; }
    let findings = naming_findings(&[("function", "load_policy"), ("binding", "policy_count")]);

    assert!(findings.is_empty());
}

#[test]
fn naming_policy_reports_banned_suffix() {
    let findings = naming_findings(&[("struct", "PolicyManager")]);
    assert_eq!(findings[0].message(), "struct name `PolicyManager` uses banned suffix `Manager`");
}

/// Runs the hot-path rule over the method calls of a file, as (inside a loop, method).
fn hot_findings(calls: &[(bool, &str)]) -> Vec<Finding> {
    let id = HotPathAllocationsRule::static_info().id;
    let policy = single_rule_policy(id, Level::Warn, TomlTable::new());
    let cfg: HotPathAllocationsConfig = policy.decode_rule(id, Some(FILE)).ok().unwrap();
    let at = LineColumn { line: 1, column: 40 };
    calls
        .iter()
        .filter_map(|(in_loop, method)| HotPathAllocationsRule::check_method(FILE, &cfg, *in_loop, method, at, at))
        .collect()
}

#[test]
fn test_hot_path_allocations_clone_inside_loop_returns_warning() {
    // fn demo(xs: Vec<String>) { for x in xs { let y = x.clone(); drop(y); } }
    let findings = hot_findings(&[(true, "clone")]);

    assert_eq!(findings.len(), 1);
    assert!(findings[0].message().contains("clone"));
}

#[test]
fn test_hot_path_allocations_clone_outside_loop_returns_no_findings() {
    // fn demo(x: String) { let y = x.clone(); drop(y); }
    let findings = hot_findings(&[(false, "clone")]);

    assert!(findings.is_empty());
}

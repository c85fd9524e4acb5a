use rscheck::config::policy::{Policy, RuleEntry, RuleSettings};
use rscheck::config::rule_options::AbsoluteFilesystemPathsConfig;
use rscheck::config::{Level, TomlTable};
use rscheck::report::Finding;
use rscheck::rules::catalog::AbsoluteFilesystemPathsRule;
use rscheck::rules::literal_paths::{absolute_kind, is_non_filesystem_unix_literal};
use rscheck::span::LineColumn;

fn single_rule_policy(id: &str, level: Level, options: TomlTable) -> Policy {
    let mut policy = Policy::default();
    policy.rules.push(RuleEntry { id: id.to_string(), settings: RuleSettings { level: Some(level), options } });
    policy
}

/// Runs the rule over the string literals of a file, as its syntax tree lists them.
fn run_on_literals(literals: &[&str]) -> Vec<Finding> {
    let id = "portability.absolute_literal_paths";
    let policy = single_rule_policy(id, Level::Warn, TomlTable::new());
    let cfg: AbsoluteFilesystemPathsConfig = policy.decode_rule(id, Some("./rscheck_test.rs")).ok().unwrap();
    let mut findings = Vec::new();
    for (i, value) in literals.iter().enumerate() {
        let at = LineColumn { line: i + 2, column: 13 };
        if let Some(f) = AbsoluteFilesystemPathsRule::check_str("./rscheck_test.rs", &cfg, value, at, at) {
            findings.push(f);
        }
    }
    findings
}

#[test]
fn flags_unix_absolute_path_in_literal() {
    let findings = run_on_literals(&["/etc/passwd", "rel/path"]);
    assert_eq!(findings.len(), 1);
    assert!(findings[0].message().contains("/etc/passwd"));
}

#[test]
fn does_not_flag_safe_literal_patterns() {
    for literals in [vec!["//!", "/*!"], vec!["/api/v1/users", "/users/{id}"]] {
        let findings = run_on_literals(&literals);
        assert!(findings.is_empty());
    }
}

#[test]
fn classifies_absolute_literals() {
    assert!(absolute_kind("/etc/passwd").is_some());
    assert!(absolute_kind("C:\\Windows").is_some());
    assert!(absolute_kind("rel/path").is_none());
    assert!(is_non_filesystem_unix_literal("/api/v1/users"));
    assert!(!is_non_filesystem_unix_literal("/etc/passwd"));
}

use rscheck::config::policy::{Policy, RuleEntry, RuleSettings};
use rscheck::config::rule_options::ExternalTestModulesConfig;
use rscheck::config::{Level, TomlTable};
use rscheck::report::Finding;
use rscheck::rules::catalog::ExternalTestModulesRule;
use rscheck::rules::top_items::{expected_test_file_path, AttrText, TopItem};
use rscheck::span::LineColumn;

fn single_rule_policy(id: &str, level: Level, options: TomlTable) -> Policy {
    let mut policy = Policy::default();
    policy.rules.push(RuleEntry { id: id.to_string(), settings: RuleSettings { level: Some(level), options } });
    policy
}

fn pos(line: usize, column: usize) -> LineColumn {
    LineColumn { line, column }
}

/// `#[cfg(test)] mod tests;` (or with a body, when `inline`).
fn cfg_test_module(inline: bool) -> TopItem {
    TopItem::Mod {
        name: "tests".to_string(),
        attrs: vec![AttrText { path: "cfg".to_string(), tokens: "cfg(test)".to_string() }],
        inline,
        start: pos(1, 0),
        end: pos(2, 10),
    }
}

/// Runs the rule over files given by path and top-level items; a file's
/// external test file exists when it is one of the given paths.
fn run_on_files(files: &[(&str, Vec<TopItem>)]) -> Vec<Finding> {
    let id = ExternalTestModulesRule::static_info().id;
    let policy = single_rule_policy(id, Level::Deny, TomlTable::new());
    let mut findings = Vec::new();
    for (path, items) in files {
        let cfg: ExternalTestModulesConfig = policy.decode_rule(id, Some(path)).ok().unwrap();
        let expected = expected_test_file_path(path, &cfg.expected_file);
        let exists = expected.is_some_and(|e| files.iter().any(|(p, _)| *p == e.as_str()));
        findings.extend(ExternalTestModulesRule::check_items(path, &cfg, items, exists));
    }
    findings
}

#[test]
fn test_external_test_modules_inline_cfg_tests_returns_error() {
    let findings = run_on_files(&[("rscheck_test.rs", vec![cfg_test_module(true)])]);

    assert_eq!(findings.len(), 1);
    assert!(findings[0].message().contains("inline"));
}

#[test]
fn test_external_test_modules_non_test_module_returns_no_findings() {
    let plain = TopItem::Mod { name: "tests".to_string(), attrs: Vec::new(), inline: true, start: pos(1, 0), end: pos(1, 30) };
    let findings = run_on_files(&[("rscheck_test.rs", vec![plain])]);

    assert!(findings.is_empty());
}

#[test]
fn test_external_test_modules_existing_root_sibling_returns_no_findings() {
    let findings = run_on_files(&[("lib.rs", vec![cfg_test_module(false)]), ("tests.rs", vec![TopItem::Other])]);

    assert!(findings.is_empty());
}

#[test]
fn test_external_test_modules_existing_named_sibling_returns_no_findings() {
    let findings = run_on_files(&[("foo.rs", vec![cfg_test_module(false)]), ("foo/tests.rs", vec![TopItem::Other])]);

    assert!(findings.is_empty());
}

#[test]
fn test_external_test_modules_missing_external_file_returns_error() {
    let findings = run_on_files(&[("lib.rs", vec![cfg_test_module(false)])]);

    assert_eq!(findings.len(), 1);
    assert!(findings[0].message().contains("no sibling"));
}

#[test]
fn expected_test_file_path_follows_module_layout() {
    assert_eq!(expected_test_file_path("src/lib.rs", "tests.rs").as_deref(), Some("src/tests.rs"));
    assert_eq!(expected_test_file_path("src/mod.rs", "tests.rs").as_deref(), Some("src/tests.rs"));
    assert_eq!(expected_test_file_path("src/foo.rs", "tests.rs").as_deref(), Some("src/foo/tests.rs"));
}

use rscheck::config::policy::{Policy, RuleEntry, RuleSettings};
use rscheck::config::{Level, TomlTable, TomlValue};
use rscheck::emit::ReportEmitter;
use rscheck::rules::catalog::CustomPatternRule;

fn single_rule_policy(id: &str, level: Level, options: TomlTable) -> Policy {
    let mut policy = Policy::default();
    policy.rules.push(RuleEntry { id: id.to_string(), settings: RuleSettings { level: Some(level), options } });
    policy
}

fn todo_options() -> TomlTable {
    let mut pattern = TomlTable::new();
    pattern.insert("name".to_string(), TomlValue::String("todo_marker".to_string()));
    pattern.insert("regex".to_string(), TomlValue::String("TODO".to_string()));
    pattern.insert("message".to_string(), TomlValue::String("remove TODO markers".to_string()));
    let mut options = TomlTable::new();
    options.insert("patterns".to_string(), TomlValue::Array(vec![TomlValue::Table(pattern)]));
    options
}

#[test]
fn test_custom_pattern_matching_regex_returns_warning() {
    let policy = single_rule_policy(CustomPatternRule::static_info().id, Level::Warn, todo_options());
    let mut emitter = ReportEmitter::new();
    CustomPatternRule::run_file(&policy, "./rscheck_test.rs", "rscheck_test.rs", "fn demo() {} // TODO remove\n", &mut emitter);

    let findings = emitter.findings;
    assert_eq!(findings.len(), 1);
    assert_eq!(findings[0].message(), "remove TODO markers");
}

#[test]
fn test_custom_pattern_without_patterns_returns_no_findings() {
    let policy = single_rule_policy(CustomPatternRule::static_info().id, Level::Warn, TomlTable::new());
    let mut emitter = ReportEmitter::new();
    CustomPatternRule::run_file(&policy, "./rscheck_test.rs", "rscheck_test.rs", "fn demo() {} // TODO remove\n", &mut emitter);

    assert!(emitter.findings.is_empty());
}

#[test]
fn custom_pattern_hit_is_located_by_line_and_column() {
    let policy = single_rule_policy(CustomPatternRule::static_info().id, Level::Warn, todo_options());
    let mut emitter = ReportEmitter::new();
    CustomPatternRule::run_file(&policy, "./rscheck_test.rs", "rscheck_test.rs", "fn a() {}\n// TODO\n", &mut emitter);
    let span = emitter.findings[0].primary().unwrap();
    assert_eq!((span.start.line, span.start.column), (2, 4));
}

use rscheck::config::policy::{Policy, RuleEntry, RuleSettings};
use rscheck::config::{Level, TomlTable, TomlValue};
use rscheck::emit::ReportEmitter;
use rscheck::report::Finding;
use rscheck::rules::catalog::{GodObjectRule, PublicApiErrorsRule, SrpHeuristicRule};
use rscheck::rules::top_items::{GenericArgText, ReturnText, TopItem};
use rscheck::span::LineColumn;

fn single_rule_policy(id: &str, level: Level, options: TomlTable) -> Policy {
    let mut policy = Policy::default();
    policy.rules.push(RuleEntry { id: id.to_string(), settings: RuleSettings { level: Some(level), options } });
    policy
}

fn pos(line: usize, column: usize) -> LineColumn {
    LineColumn { line, column }
}

fn god_findings(options: TomlTable, items: Vec<TopItem>) -> Vec<Finding> {
    let policy = single_rule_policy(GodObjectRule::static_info().id, Level::Warn, options);
    let mut emitter = ReportEmitter::new();
    GodObjectRule::run_file(&policy, "./rscheck_test.rs", Some(&items), &mut emitter);
    emitter.findings
}

#[test]
fn test_god_object_large_struct_returns_warning() {
    let mut options = TomlTable::new();
    options.insert("max_fields".to_string(), TomlValue::Integer(2));
    // struct Big { a: u8, b: u8, c: u8 }
    let items = vec![TopItem::Struct { name: "Big".to_string(), fields: 3, start: pos(1, 0), end: pos(1, 34) }];
    let findings = god_findings(options, items);

    assert_eq!(findings.len(), 1);
    assert!(findings[0].message().contains("3 fields"));
}

#[test]
fn test_god_object_small_struct_returns_no_findings() {
    // struct Small { policy_count: usize }
    let items = vec![TopItem::Struct { name: "Small".to_string(), fields: 1, start: pos(1, 0), end: pos(1, 36) }];
    let findings = god_findings(TomlTable::new(), items);

    assert!(findings.is_empty());
}

#[test]
fn god_object_message_and_span() {
    let mut options = TomlTable::new();
    options.insert("max_variants".to_string(), TomlValue::Integer(1));
    let items = vec![TopItem::Enum { name: "E".to_string(), variants: 2, start: pos(3, 4), end: pos(3, 20) }];
    let findings = god_findings(options, items);
    assert_eq!(findings[0].message(), "enum `E` has 2 variants");
    let span = findings[0].primary().unwrap();
    assert_eq!((span.start.line, span.start.column), (3, 5));
}

#[test]
fn god_object_skips_file_that_did_not_parse() {
    let policy = single_rule_policy(GodObjectRule::static_info().id, Level::Warn, TomlTable::new());
    let mut emitter = ReportEmitter::new();
    GodObjectRule::run_file(&policy, "./rscheck_test.rs", None, &mut emitter);
    assert!(emitter.findings.is_empty());
}

#[test]
fn flags_large_impl_block() {
    // impl S { fn a(&self) {} fn b(&self) {} fn c(&self) {} }
    let items = vec![
        TopItem::Struct { name: "S".to_string(), fields: 0, start: pos(2, 0), end: pos(2, 9) },
        TopItem::Impl { items_are_fns: vec![true, true, true], start: pos(3, 0), end: pos(7, 1) },
    ];
    let mut options = TomlTable::new();
    options.insert("method_count_threshold".to_string(), TomlValue::Integer(2));
    let policy = single_rule_policy("shape.responsibility_split", Level::Warn, options);
    let mut emitter = ReportEmitter::new();
    SrpHeuristicRule::run_file(&policy, "./rscheck_test.rs", Some(&items), &mut emitter);

    assert_eq!(emitter.findings.len(), 1);
}

fn result_of(error: &str) -> ReturnText {
    ReturnText::Path {
        last_ident: "Result".to_string(),
        args: Some(vec![
            GenericArgText { is_type: true, text: "()".to_string() },
            GenericArgText { is_type: true, text: error.to_string() },
        ]),
    }
}

fn api_findings(items: Vec<TopItem>) -> Vec<Finding> {
    let mut options = TomlTable::new();
    options.insert(
        "allowed_error_types".to_string(),
        TomlValue::Array(vec![TomlValue::String("crate::Error".to_string())]),
    );
    let policy = single_rule_policy("design.public_api_errors", Level::Deny, options);
    let mut emitter = ReportEmitter::new();
    PublicApiErrorsRule::run_file(&policy, "./rscheck_test.rs", Some(&items), &mut emitter);
    emitter.findings
}

#[test]
fn flags_disallowed_public_error_type() {
    let items = vec![TopItem::Fn {
        name: "run".to_string(),
        public: true,
        output: result_of("anyhow::Error"),
        start: pos(1, 7),
        end: pos(1, 10),
    }];
    let findings = api_findings(items);
    assert_eq!(findings.len(), 1);
}

#[test]
fn does_not_treat_prefix_match_as_allowed() {
    let items = vec![TopItem::Fn {
        name: "run".to_string(),
        public: true,
        output: result_of("crate::Errorish"),
        start: pos(2, 7),
        end: pos(2, 10),
    }];
    let findings = api_findings(items);
    assert_eq!(findings.len(), 1);
}

#[test]
fn allowed_error_type_and_private_fns_pass() {
    let items = vec![
        TopItem::Fn { name: "ok".to_string(), public: true, output: result_of("crate::Error"), start: pos(1, 7), end: pos(1, 9) },
        TopItem::Fn { name: "hidden".to_string(), public: false, output: result_of("anyhow::Error"), start: pos(2, 3), end: pos(2, 9) },
    ];
    assert!(api_findings(items).is_empty());
}

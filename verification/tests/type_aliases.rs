use rscheck::config::policy::{Policy, RuleEntry, RuleSettings};
use rscheck::config::{Level, TomlTable, TomlValue};
use rscheck::emit::ReportEmitter;
use rscheck::rules::catalog::DuplicateTypesAliasCandidateRule;
use rscheck::rules::type_aliases::TypeRef;
use rscheck::span::LineColumn;

fn type_ref(value: &str, outer: &str, line: usize) -> TypeRef {
    TypeRef {
        value: value.to_string(),
        outer: Some(outer.to_string()),
        start: LineColumn { line, column: 7 },
        end: LineColumn { line, column: 40 },
    }
}

#[test]
fn respects_option_exclusion_and_suggests_alias_for_top_level_type() {
    let map = "HashMap < String , Vec < (u32 , u32) > >";
    let opt = "Option < HashMap < String , Vec < (u32 , u32) > > >";
    let types = vec![
        type_ref(map, "HashMap", 5),
        type_ref(map, "HashMap", 6),
        type_ref(map, "HashMap", 7),
        type_ref(opt, "Option", 8),
        type_ref(opt, "Option", 9),
        type_ref(opt, "Option", 10),
    ];
    let mut options = TomlTable::new();
    options.insert("min_occurrences".to_string(), TomlValue::Integer(3));
    options.insert("min_len".to_string(), TomlValue::Integer(10));
    options.insert("exclude_outer".to_string(), TomlValue::Array(vec![TomlValue::String("Option".to_string())]));
    let mut policy = Policy::default();
    policy.rules.push(RuleEntry {
        id: "design.repeated_type_aliases".to_string(),
        settings: RuleSettings { level: Some(Level::Warn), options },
    });
    let mut emitter = ReportEmitter::new();
    DuplicateTypesAliasCandidateRule::run_file(&policy, "./rscheck_test.rs", Some(&types), &mut emitter);

    assert_eq!(emitter.findings.len(), 1);
    assert!(emitter.findings[0].message().contains("type alias"));
    assert_eq!(
        emitter.findings[0].message(),
        "type is repeated 3 times; consider a type alias: HashMap < String , Vec < (u32 , u32) > >"
    );
    assert_eq!(emitter.findings[0].primary().unwrap().start.line, 5);
}

#[test]
fn repeated_types_are_reported_in_sorted_order() {
    let types = vec![type_ref("Zeta<u8, u8, u8>", "Zeta", 1), type_ref("Alpha<u8, u8>", "Alpha", 2),
        type_ref("Zeta<u8, u8, u8>", "Zeta", 3), type_ref("Alpha<u8, u8>", "Alpha", 4)];
    let mut options = TomlTable::new();
    options.insert("min_occurrences".to_string(), TomlValue::Integer(2));
    options.insert("min_len".to_string(), TomlValue::Integer(5));
    let mut policy = Policy::default();
    policy.rules.push(RuleEntry {
        id: "design.repeated_type_aliases".to_string(),
        settings: RuleSettings { level: Some(Level::Warn), options },
    });
    let mut emitter = ReportEmitter::new();
    DuplicateTypesAliasCandidateRule::run_file(&policy, "./rscheck_test.rs", Some(&types), &mut emitter);
    assert_eq!(emitter.findings.len(), 2);
    assert!(emitter.findings[0].message().ends_with("Alpha<u8, u8>"));
    assert!(emitter.findings[1].message().ends_with("Zeta<u8, u8, u8>"));
}

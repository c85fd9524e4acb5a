use rscheck::config::migrate::MigrationError;
use rscheck::config::migrate_policy::{finish_migration, migrate_policy_source, migrate_policy_table};
use rscheck::config::toml_text::policy_table_from_text;
use rscheck::config::{TomlTable, TomlValue};
use rscheck::config::merge::merge_tables;
use rscheck::config::extends::{ExtendsLoad, LoadStep};
use rscheck::config::legacy::{extends_entries, validate_legacy_shape};
use rscheck::config::policy::{ConfigError, Policy, RuleEntry, RuleSettings};
use rscheck::config::Level;

fn table(entries: Vec<(&str, TomlValue)>) -> TomlTable {
    let mut t = TomlTable::new();
    for (k, v) in entries {
        t.insert(k.to_string(), v);
    }
    t
}

fn string(s: &str) -> TomlValue {
    TomlValue::String(s.to_string())
}

fn strings(items: &[&str]) -> TomlValue {
    TomlValue::Array(items.iter().map(|s| string(s)).collect())
}

fn sub_table<'a>(t: &'a TomlTable, key: &str) -> &'a TomlTable {
    match t.get(key) {
        Some(TomlValue::Table(inner)) => inner,
        _ => panic!("missing table {key}"),
    }
}

const PATH: &str = ".rscheck.toml";

fn toml_value(v: &TomlValue) -> toml::Value {
    match v {
        TomlValue::String(s) => toml::Value::String(s.clone()),
        TomlValue::Integer(i) => toml::Value::Integer(*i),
        TomlValue::Float(bits) => toml::Value::Float(f64::from_bits(*bits)),
        TomlValue::Boolean(b) => toml::Value::Boolean(*b),
        TomlValue::Datetime(d) => toml::Value::Datetime(d.parse().unwrap()),
        TomlValue::Array(items) => toml::Value::Array(items.iter().map(toml_value).collect()),
        TomlValue::Table(t) => toml::Value::Table(toml_table(t)),
    }
}

fn toml_table(t: &TomlTable) -> toml::Table {
    let mut out = toml::Table::new();
    for e in &t.entries {
        out.insert(e.key.clone(), toml_value(&e.value));
    }
    out
}

/// The migration of a policy file's text, finished as the file's new text.
fn migrate_text(text: &str) -> Result<(rscheck::config::migrate_policy::MigrationResult, TomlTable), MigrationError> {
    let migration = migrate_policy_source(text, PATH)?;
    let rendered = toml::to_string_pretty(&toml_table(&migration.table)).unwrap();
    Ok((finish_migration(rendered, migration.changes), migration.table))
}

#[test]
fn test_migrate_policy_v2_config_returns_v3_text() {
    let (migration, table) = migrate_text(
        r#"
version = 2

[engine]
semantic = "auto"
toolchain = "current"

[output]
format = "human"
with_clippy = false

[rules.file_complexity]
level = "warn"
max_file = 32

[[scope]]
include = ["crates/rscheck-cli/**"]

[scope.rules.srp_heuristic]
level = "deny"
"#,
    )
    .ok()
    .unwrap();

    assert!(migration.changed);
    assert!(migration.text.contains("version = 3"));
    assert!(migration.text.contains("toolchain = \"stable\""));
    assert!(migration.text.contains("nightly_toolchain = \"nightly\""));
    assert!(migration.text.contains("[adapters.clippy]"));
    assert!(migration.text.contains("enabled = false"));
    assert!(migration.text.contains("[rules.\"shape.file_complexity\"]"));
    assert!(migration.text.contains("[[scope]]\ninclude = [\"crates/rscheck-cli/**\"]"));
    assert!(migration.text.contains("[scope.rules.\"shape.responsibility_split\"]"));
    assert!(!migration.text.contains("with_clippy"));
    assert!(!migration.text.contains("human"));

    // The migrated text reads back as the migrated table, in the current layout.
    let reread = policy_table_from_text(&migration.text, PATH).ok().unwrap();
    assert_eq!(format!("{:?}", reread), format!("{:?}", table));
    assert!(validate_legacy_shape(&reread, PATH).is_ok());
    let file_complexity = sub_table(sub_table(&reread, "rules"), "shape.file_complexity");
    assert!(matches!(file_complexity.get("level"), Some(TomlValue::String(s)) if s == "warn"));
}

#[test]
fn test_migrate_policy_already_v3_is_idempotent() {
    let (migration, _) = migrate_text("version = 3\n").ok().unwrap();

    assert!(!migration.changed);
    assert!(migration.changes.is_empty());
    let reread = policy_table_from_text(&migration.text, PATH).ok().unwrap();
    assert!(validate_legacy_shape(&reread, PATH).is_ok());
}

#[test]
fn test_migrate_policy_top_level_workspace_keys_move_under_workspace() {
    let (migration, table) = migrate_text(
        r#"
version = 2
include = ["src/**"]
exclude = ["target/**"]
"#,
    )
    .ok()
    .unwrap();

    assert!(migration.text.contains("[workspace]"));
    assert!(migration.text.contains("include = [\"src/**\"]"));
    assert!(migration.text.contains("exclude = [\"target/**\"]"));
    assert!(table.get("include").is_none());
}

#[test]
fn test_migrate_policy_unknown_rule_key_reports_manual_step() {
    let error = migrate_text(
        r#"
version = 2

[rules.unknown_rule]
level = "warn"
"#,
    )
    .err()
    .unwrap();

    assert!(matches!(error, MigrationError::Manual { .. }));
    match error {
        MigrationError::Manual { message, .. } => assert!(message.contains("unknown legacy rule id")),
        _ => unreachable!(),
    }
}

#[test]
fn test_migrate_policy_conflicting_workspace_key_reports_manual_step() {
    let error = migrate_text(
        r#"
version = 2
include = ["src/**"]

[workspace]
include = ["crates/**"]
"#,
    )
    .err()
    .unwrap();

    assert!(matches!(error, MigrationError::Manual { .. }));
    match error {
        MigrationError::Manual { message, .. } => assert!(message.contains("workspace.include")),
        _ => unreachable!(),
    }
}

#[test]
fn test_migrate_policy_future_version_fails() {
    let error = migrate_text("version = 99\n").err().unwrap();

    assert!(matches!(error, MigrationError::UnsupportedVersion { version: 99, .. }));
}

#[test]
fn policy_text_that_is_not_toml_is_a_parse_error() {
    let error = migrate_policy_source("version = = 2\n", PATH).err().unwrap();
    assert!(matches!(error, MigrationError::Parse { ref path, .. } if path == PATH));
    let error = policy_table_from_text("[rules\n", PATH).err().unwrap();
    assert!(matches!(error, ConfigError::Parse { ref path, .. } if path == PATH));
    let table = policy_table_from_text("b = 1.5\na = [true, \"x\"]\n[t]\nc = 1979-05-27T07:32:00Z\n", PATH).ok().unwrap();
    assert_eq!(table.keys(), vec!["a".to_string(), "b".to_string(), "t".to_string()]);
    assert!(matches!(table.get("b"), Some(TomlValue::Float(bits)) if *bits == 1.5f64.to_bits()));
    assert!(matches!(table.get("a"), Some(TomlValue::Array(items)) if items.len() == 2));
    let t = sub_table(&table, "t");
    assert!(matches!(t.get("c"), Some(TomlValue::Datetime(d)) if d == "1979-05-27T07:32:00Z"));
}

#[test]
fn finished_migration_text_ends_with_newline() {
    let result = finish_migration(String::from("version = 3"), vec![String::from("version: 2 -> 3")]);
    assert_eq!(result.text, "version = 3\n");
    assert!(result.changed);
}

#[test]
fn current_policy_with_rules_scopes_and_toolchains_migrates_to_itself() {
    let build = || {
        let mut rules = TomlTable::new();
        rules.insert("shape.file_complexity".to_string(), TomlValue::Table(table(vec![("level", string("warn"))])));
        let scope_item = table(vec![
            ("include", strings(&["src/**"])),
            ("rules", TomlValue::Table(table(vec![("design.public_api_errors", TomlValue::Table(TomlTable::new()))]))),
        ]);
        table(vec![
            ("version", TomlValue::Integer(3)),
            ("engine", TomlValue::Table(table(vec![("toolchain", string("stable"))]))),
            ("output", TomlValue::Table(table(vec![("format", string("text"))]))),
            ("rules", TomlValue::Table(rules)),
            ("scope", TomlValue::Array(vec![TomlValue::Table(scope_item)])),
        ])
    };

    let migration = migrate_policy_table(build(), PATH).ok().unwrap();

    assert!(migration.changes.is_empty());
    assert!(migration.manual_steps.is_empty());
    assert_eq!(migration.table.keys(), build().keys());
    let rules = sub_table(&migration.table, "rules");
    assert_eq!(rules.keys(), vec!["shape.file_complexity".to_string()]);
    let engine = sub_table(&migration.table, "engine");
    assert!(matches!(engine.get("toolchain"), Some(TomlValue::String(s)) if s == "stable"));
}

#[test]
fn merge_layers_child_rule_options_over_base() {

    let rule = |entries: Vec<(&str, TomlValue)>| {
        let mut rules = TomlTable::new();
        rules.insert("shape.file_complexity".to_string(), TomlValue::Table(table(entries)));
        TomlValue::Table(rules)
    };
    let mut base = table(vec![
        ("version", TomlValue::Integer(3)),
        ("rules", rule(vec![("level", string("warn")), ("max_file", TomlValue::Integer(10))])),
    ]);
    let child = table(vec![
        ("version", TomlValue::Integer(3)),
        ("extends", strings(&["base.toml"])),
        ("rules", rule(vec![("max_fn", TomlValue::Integer(2)), ("level", string("deny"))])),
    ]);

    merge_tables(&mut base, &child);

    let rules = sub_table(&base, "rules");
    let fc = sub_table(rules, "shape.file_complexity");
    assert!(matches!(fc.get("max_file"), Some(TomlValue::Integer(10))));
    assert!(matches!(fc.get("max_fn"), Some(TomlValue::Integer(2))));
    assert!(matches!(fc.get("level"), Some(TomlValue::String(s)) if s == "deny"));
    assert!(base.get("extends").is_some());
}

fn legacy_human_format_is_refused() {
    let output = table(vec![("format", string("human"))]);
    let policy = table(vec![("output", TomlValue::Table(output))]);
    match validate_legacy_shape(&policy, PATH) {
        Err(ConfigError::LegacyKey { key, message, .. }) => {
            assert_eq!(key, "output.format");
            assert!(message.contains("text"));
        }
        _ => panic!("a legacy key was expected"),
    }
}

#[test]
fn config_rejects_legacy_human_format() {
    legacy_human_format_is_refused();
}

#[test]
fn tests_rejects_legacy_human_format() {
    legacy_human_format_is_refused();
}

/// A child policy that extends a base, both read in memory, and the settings
/// of the file-complexity rule in the merged policy.
fn extended_policy_settings() -> RuleSettings {
    let rule = |entries: Vec<(&str, TomlValue)>| {
        let mut rules = TomlTable::new();
        rules.insert("shape.file_complexity".to_string(), TomlValue::Table(table(entries)));
        TomlValue::Table(rules)
    };
    let base = || {
        table(vec![
            ("version", TomlValue::Integer(3)),
            ("rules", rule(vec![("level", string("warn")), ("max_file", TomlValue::Integer(10))])),
        ])
    };
    let child = || {
        table(vec![
            ("version", TomlValue::Integer(3)),
            ("extends", strings(&["base.toml"])),
            ("rules", rule(vec![("max_fn", TomlValue::Integer(2))])),
        ])
    };
    let (mut load, mut step) = ExtendsLoad::start("child.toml");
    let merged = loop {
        match step {
            LoadStep::Read(p) => {
                let t = if p == "child.toml" { child() } else { base() };
                let parents = extends_entries(&t);
                load.loaded(p, t, parents);
            }
            LoadStep::Continue => {}
            LoadStep::Done(t) => break t,
        }
        step = load.step();
    };
    assert!(validate_legacy_shape(&merged, PATH).is_ok());
    let options = sub_table(sub_table(&merged, "rules"), "shape.file_complexity").copy();
    let mut policy = Policy::default();
    policy.rules.push(RuleEntry { id: "shape.file_complexity".to_string(), settings: RuleSettings { level: Some(Level::Warn), options } });
    policy.rule_settings("shape.file_complexity", None, Level::Warn)
}

fn int_option(s: &RuleSettings, key: &str) -> Option<i64> {
    match s.options.get(key) {
        Some(TomlValue::Integer(i)) => Some(*i),
        _ => None,
    }
}

#[test]
fn config_merges_extended_policy() {
    let settings = extended_policy_settings();
    assert_eq!(settings.level, Some(Level::Warn));
    assert_eq!(int_option(&settings, "max_file"), Some(10));
    assert_eq!(int_option(&settings, "max_fn"), Some(2));
}

#[test]
fn tests_merges_extended_policy() {
    let settings = extended_policy_settings();
    assert_eq!(settings.level, Some(Level::Warn));
    assert_eq!(int_option(&settings, "max_file"), Some(10));
    assert_eq!(int_option(&settings, "max_fn"), Some(2));
}

#[test]
fn floats_compare_as_ieee_numbers() {
    use_value_eq();
}

fn use_value_eq() {
    let f = |x: f64| TomlValue::Float(x.to_bits());
    assert!(rscheck::config::value::value_eq(&f(0.0), &f(-0.0)));
    assert!(!rscheck::config::value::value_eq(&f(f64::NAN), &f(f64::NAN)));
    assert!(rscheck::config::value::value_eq(&f(1.5), &f(1.5)));
    assert!(!rscheck::config::value::value_eq(&f(1.5), &f(2.5)));
}

#[test]
fn migrating_a_migrated_policy_changes_nothing() {
    let legacy = table(vec![
        ("version", TomlValue::Integer(2)),
        ("include", strings(&["src/**"])),
        ("engine", TomlValue::Table(table(vec![("toolchain", string("current"))]))),
        ("output", TomlValue::Table(table(vec![("format", string("human")), ("with_clippy", TomlValue::Boolean(true))]))),
        (
            "rules",
            TomlValue::Table(table(vec![
                ("god_object", TomlValue::Table(table(vec![("level", string("warn"))]))),
                ("shape.srp_heuristic", TomlValue::Table(table(vec![("level", string("deny"))]))),
            ])),
        ),
        (
            "scope",
            TomlValue::Array(vec![TomlValue::Table(table(vec![(
                "rules",
                TomlValue::Table(table(vec![("layer_direction", TomlValue::Table(table(vec![("level", string("off"))])))])),
            )]))]),
        ),
    ]);

    let first = migrate_policy_table(legacy, PATH).ok().unwrap();
    assert!(!first.changes.is_empty());
    let migrated = format!("{:?}", first.table);

    let second = migrate_policy_table(first.table, PATH).ok().unwrap();
    assert!(second.changes.is_empty());
    assert!(second.manual_steps.is_empty());
    assert_eq!(format!("{:?}", second.table), migrated);
}

use rscheck::config::policy::{Policy, RuleEntry, RuleSettings};
use rscheck::config::{Level, TomlTable, TomlValue};
use rscheck::rules::catalog::LayerDirectionRule;
use rscheck::rules::name_rules::{match_layer, LayerDirectionConfig};
use rscheck::span::LineColumn;

fn strings(items: &[&str]) -> TomlValue {
    TomlValue::Array(items.iter().map(|s| TomlValue::String(s.to_string())).collect())
}

fn layer(name: &str, globs: &[&str], may_depend_on: &[&str]) -> TomlValue {
    let mut t = TomlTable::new();
    t.insert("name".to_string(), TomlValue::String(name.to_string()));
    t.insert("include".to_string(), strings(globs));
    t.insert("may_depend_on".to_string(), strings(may_depend_on));
    TomlValue::Table(t)
}

fn layered_policy() -> Policy {
    let mut options = TomlTable::new();
    options.insert(
        "layers".to_string(),
        TomlValue::Array(vec![
            layer("api", &["**/src/api/**"], &["domain"]),
            layer("domain", &["**/src/domain/**"], &[]),
            layer("infra", &["**/src/infra/**"], &["domain"]),
        ]),
    );
    let mut policy = Policy::default();
    policy.rules.push(RuleEntry {
        id: "architecture.layer_direction".to_string(),
        settings: RuleSettings { level: Some(Level::Deny), options },
    });
    policy
}

/// The findings of the layer rule for the `use` paths of one file.
fn layer_findings(file: &str, uses: &[&str]) -> usize {
    let policy = layered_policy();
    let id = LayerDirectionRule::static_info().id;
    let cfg: LayerDirectionConfig = policy.decode_rule(id, Some(file)).ok().unwrap();
    assert!(LayerDirectionRule::active(&cfg));
    let Some(current) = match_layer(&cfg.layers, file) else { return 0 };
    let at = LineColumn { line: 1, column: 0 };
    uses.iter().filter(|u| LayerDirectionRule::check_use(file, &cfg, current, u, at, at).is_some()).count()
}

#[test]
fn flags_layer_violation() {
    // src/api/mod.rs: use crate::infra::db::Client;
    // src/domain/mod.rs: pub struct Domain;
    // src/infra/db/mod.rs: pub struct Client;
    let api = layer_findings("/tmp/ws/src/api/mod.rs", &["crate::infra::db::Client"]);
    let domain = layer_findings("/tmp/ws/src/domain/mod.rs", &[]);
    let infra = layer_findings("/tmp/ws/src/infra/db/mod.rs", &[]);
    assert_eq!(api + domain + infra, 1);
}

#[test]
fn allowed_and_own_layer_dependencies_pass() {
    assert_eq!(layer_findings("/tmp/ws/src/api/mod.rs", &["crate::domain::Domain", "crate::api::routes"]), 0);
    assert_eq!(layer_findings("/tmp/ws/src/domain/mod.rs", &["crate::api::routes"]), 1);
    assert_eq!(layer_findings("/tmp/ws/README.rs", &["crate::infra::db"]), 0);
}

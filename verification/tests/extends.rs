use rscheck::config::extends::{ExtendsLoad, LoadStep};
use rscheck::config::{TomlTable, TomlValue};

fn table(entries: Vec<(&str, TomlValue)>) -> TomlTable {
    let mut t = TomlTable::new();
    for (k, v) in entries {
        t.insert(k.to_string(), v);
    }
    t
}

/// Drives a load over in-memory files: each path maps to its table and the
/// paths it extends; the paths read are recorded in order.
fn run(root: &str, files: &[(&str, Vec<(&str, TomlValue)>, Vec<&str>)]) -> (TomlTable, Vec<String>) {
    let (mut load, mut step) = ExtendsLoad::start(root);
    let mut read = Vec::new();
    loop {
        match step {
            LoadStep::Read(p) => {
                let (_, entries, parents) = files.iter().find(|(name, _, _)| *name == p).unwrap();
                let t = table(entries.iter().map(|(k, v)| (*k, clone_value(v))).collect());
                read.push(p.clone());
                load.loaded(p, t, parents.iter().map(|s| s.to_string()).collect());
            }
            LoadStep::Continue => {}
            LoadStep::Done(t) => return (t, read),
        }
        step = load.step();
    }
}

fn clone_value(v: &TomlValue) -> TomlValue {
    match v {
        TomlValue::Integer(i) => TomlValue::Integer(*i),
        TomlValue::String(s) => TomlValue::String(s.clone()),
        _ => panic!("not used"),
    }
}

fn int_at(t: &TomlTable, key: &str) -> Option<i64> {
    match t.get(key) {
        Some(TomlValue::Integer(i)) => Some(*i),
        _ => None,
    }
}

#[test]
fn child_values_override_what_it_extends() {
    let files = [
        ("child.toml", vec![("a", TomlValue::Integer(1)), ("c", TomlValue::Integer(3))], vec!["base.toml"]),
        ("base.toml", vec![("a", TomlValue::Integer(10)), ("b", TomlValue::Integer(20))], vec![]),
    ];
    let (t, read) = run("child.toml", &files);
    assert_eq!(read, vec!["child.toml".to_string(), "base.toml".to_string()]);
    assert_eq!(int_at(&t, "a"), Some(1));
    assert_eq!(int_at(&t, "b"), Some(20));
    assert_eq!(int_at(&t, "c"), Some(3));
}

#[test]
fn a_cycle_is_read_once() {
    let files = [
        ("a.toml", vec![("x", TomlValue::Integer(1))], vec!["b.toml"]),
        ("b.toml", vec![("x", TomlValue::Integer(2)), ("y", TomlValue::Integer(2))], vec!["a.toml"]),
    ];
    let (t, read) = run("a.toml", &files);
    assert_eq!(read, vec!["a.toml".to_string(), "b.toml".to_string()]);
    assert_eq!(int_at(&t, "x"), Some(1));
    assert_eq!(int_at(&t, "y"), Some(2));
}

#[test]
fn later_parents_override_earlier_ones() {
    let files = [
        ("root.toml", vec![], vec!["p1.toml", "p2.toml"]),
        ("p1.toml", vec![("k", TomlValue::Integer(1))], vec![]),
        ("p2.toml", vec![("k", TomlValue::Integer(2))], vec![]),
    ];
    let (t, read) = run("root.toml", &files);
    assert_eq!(read.len(), 3);
    assert_eq!(int_at(&t, "k"), Some(2));
}

use rscheck::analysis::{check_workspace_globs, select_files, should_load, DiscoverError};
use rscheck::config::policy::Policy;

#[test]
fn default_policy_loads_rust_files_outside_target() {
    let policy = Policy::default();
    assert!(check_workspace_globs(&policy).is_ok());
    assert!(should_load(&policy, "src/lib.rs"));
    assert!(!should_load(&policy, "target/debug/build.rs"));
    assert!(!should_load(&policy, "README.md"));
    assert!(!should_load(&policy, "src/.rs"));
}

#[test]
fn bad_glob_is_reported() {
    let mut policy = Policy::default();
    policy.workspace.exclude_globs = vec!["a[".to_string()];
    assert!(matches!(check_workspace_globs(&policy), Err(DiscoverError::Glob { pattern }) if pattern == "a["));
}

#[test]
fn bad_include_glob_is_reported_before_exclude() {
    let mut policy = Policy::default();
    policy.workspace.include_globs = vec!["**/*.rs".to_string(), "b{".to_string()];
    policy.workspace.exclude_globs = vec!["a[".to_string()];
    let rels = vec!["src/lib.rs".to_string()];
    assert!(matches!(select_files(&policy, &rels), Err(DiscoverError::Glob { pattern }) if pattern == "b{"));
}

#[test]
fn selected_files_keep_their_order() {
    let policy = Policy::default();
    let rels: Vec<String> = ["src/main.rs", "README.md", "target/x.rs", "tests/a.rs", "src/lib.rs"]
        .iter()
        .map(|s| s.to_string())
        .collect();
    let chosen = select_files(&policy, &rels).ok().unwrap();
    assert_eq!(chosen, vec!["src/main.rs".to_string(), "tests/a.rs".to_string(), "src/lib.rs".to_string()]);
}

#[test]
fn empty_include_list_selects_nothing() {
    let mut policy = Policy::default();
    policy.workspace.include_globs = Vec::new();
    let rels = vec!["src/lib.rs".to_string()];
    assert_eq!(select_files(&policy, &rels).ok().unwrap(), Vec::<String>::new());
}

#[test]
fn loaded_sources_record_whether_they_parse() {
    use_load_source();
}

fn use_load_source() {
    let ok = rscheck::source::load_source("src/lib.rs".to_string(), "fn main() {}\n".to_string());
    assert!(ok.ast.is_some() && ok.parse_error.is_none());
    assert_eq!(ok.text, "fn main() {}\n");
    let bad = rscheck::source::load_source("src/bad.rs".to_string(), "fn (".to_string());
    assert!(bad.ast.is_none());
    assert!(!bad.parse_error.unwrap().is_empty());
}

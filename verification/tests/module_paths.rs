use rscheck::config::policy::Policy;
use rscheck::config::rule_options::AbsoluteModulePathsConfig;
use rscheck::fix::apply_text_edits;
use rscheck::report::Finding;
use rscheck::rules::catalog::AbsoluteModulePathsRule;
use rscheck::rules::module_paths::{ModulePathsContext, PathSegmentText, PathText};
use rscheck::span::LineColumn;

const FILE: &str = "./rscheck_test.rs";

fn config() -> AbsoluteModulePathsConfig {
    Policy::default().decode_rule(AbsoluteModulePathsRule::static_info().id, Some(FILE)).ok().unwrap()
}

fn path(leading_colon: bool, segments: &[(&str, &str)]) -> PathText {
    let segs: Vec<PathSegmentText> = segments
        .iter()
        .map(|(ident, tokens)| PathSegmentText { ident: ident.to_string(), tokens: tokens.to_string() })
        .collect();
    let mut text = if leading_colon { String::from("::") } else { String::new() };
    text.push_str(&segments.iter().map(|(_, t)| *t).collect::<Vec<_>>().join("::"));
    PathText { leading_colon, segments: segs, text }
}

fn pos(line: usize, column: usize) -> LineColumn {
    LineColumn { line, column }
}

#[test]
fn flags_absolute_module_paths_and_allows_crate_root_specials() {
    let code = r#"
use ::foo::bar;

const MY_CONST: i32 = 1;

fn f() {
    let _ = ::std::mem::size_of::<u8>();
    let _p: &std::path::Path = std::path::Path::new("x");
    let _ = crate::MY_CONST;
    crate::static_function();
    crate::my_macro!();
}
"#;
    let cfg = config();
    let taken = vec!["MY_CONST".to_string(), "f".to_string(), "_p".to_string()];
    let ctx = ModulePathsContext { file: FILE, text: code, config: &cfg, taken: &taken };
    let mut findings: Vec<Finding> = Vec::new();
    // `use ::foo::bar;`
    findings.extend(AbsoluteModulePathsRule::check_text(&ctx, "::foo::bar", pos(2, 0), pos(2, 15)));
    // `::std::mem::size_of::<u8>` in an expression.
    let size_of = path(true, &[("std", "std"), ("mem", "mem"), ("size_of", "size_of::<u8>")]);
    findings.extend(AbsoluteModulePathsRule::check_value_path(&ctx, &size_of, pos(7, 12), pos(7, 37)));
    // `std::path::Path` as a type, then in `std::path::Path::new`.
    let path_type = path(false, &[("std", "std"), ("path", "path"), ("Path", "Path")]);
    findings.extend(AbsoluteModulePathsRule::check_path(&ctx, &path_type, pos(8, 13), pos(8, 28)));
    let path_new = path(false, &[("std", "std"), ("path", "path"), ("Path", "Path"), ("new", "new")]);
    findings.extend(AbsoluteModulePathsRule::check_value_path(&ctx, &path_new, pos(8, 31), pos(8, 51)));
    // `crate::MY_CONST`
    let my_const = path(false, &[("crate", "crate"), ("MY_CONST", "MY_CONST")]);
    findings.extend(AbsoluteModulePathsRule::check_value_path(&ctx, &my_const, pos(9, 12), pos(9, 27)));
    // `crate::static_function()`: the callee is skipped, it has no arguments.
    assert!(AbsoluteModulePathsRule::skips_call(&cfg, "crate::static_function"));
    // `crate::my_macro!()`
    findings.extend(AbsoluteModulePathsRule::check_macro(&ctx, "crate::my_macro", pos(11, 4), pos(11, 22)));

    assert!(findings.iter().any(|f| f.message().contains("::std")));
    assert!(findings.iter().any(|f| f.message().contains("std::path::Path")));
    assert!(!findings.iter().any(|f| f.message().contains("crate::MY_CONST")));
    assert!(!findings.iter().any(|f| f.message().contains("crate::static_function")));
    assert!(!findings.iter().any(|f| f.message().contains("crate::my_macro")));
}

#[test]
fn emits_safe_fix_for_std_type_path() {
    let code = r#"
fn f() {
    let _p: std::path::PathBuf = std::path::PathBuf::from(".");
}
"#;
    let cfg = config();
    let taken = vec!["f".to_string(), "_p".to_string()];
    let ctx = ModulePathsContext { file: FILE, text: code, config: &cfg, taken: &taken };
    let buf = path(false, &[("std", "std"), ("path", "path"), ("PathBuf", "PathBuf")]);
    let finding = AbsoluteModulePathsRule::check_path(&ctx, &buf, pos(3, 12), pos(3, 30)).expect("expected PathBuf finding");
    assert!(finding.message().contains("std::path::PathBuf"));
    assert!(!finding.fixes().is_empty());

    let fix = &finding.fixes()[0];
    let new_code = apply_text_edits(code, &fix.edits).ok().expect("apply edits");
    assert!(new_code.contains("use std::path::PathBuf;"));
    assert!(new_code.contains("let _p: PathBuf"));
    assert!(new_code.contains("PathBuf::from"));
}

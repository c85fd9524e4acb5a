use rscheck::config::policy::{Policy, RuleEntry, RuleSettings};
use rscheck::config::{Level, TomlTable, TomlValue};
use rscheck::emit::ReportEmitter;
use rscheck::rules::catalog::FileComplexityRule;
use rscheck::rules::file_complexity::{count_physical_loc, fn_scores, FnCounts};

fn policy_with(options: TomlTable) -> Policy {
    let mut policy = Policy::default();
    policy.rules.push(RuleEntry {
        id: "shape.file_complexity".to_string(),
        settings: RuleSettings { level: Some(Level::Warn), options },
    });
    policy
}

#[test]
fn emits_finding_and_records_metrics_when_over_threshold() {
    let code = "\nfn f(x: i32) -> i32 {\n    if x > 0 { 1 } else { 2 }\n}\n";
    // `f` holds one `if`.
    let fns = vec![FnCounts { name: "f".to_string(), decisions: 1, matches: 0, match_arms: 0, tries: 0 }];
    let mut options = TomlTable::new();
    options.insert("mode".to_string(), TomlValue::String("cyclomatic".to_string()));
    options.insert("max_file".to_string(), TomlValue::Integer(1));
    options.insert("max_fn".to_string(), TomlValue::Integer(1));
    options.insert("count_question".to_string(), TomlValue::Boolean(false));
    options.insert("match_arms".to_string(), TomlValue::Boolean(true));
    let policy = policy_with(options);
    let mut emitter = ReportEmitter::new();
    FileComplexityRule::run_file(&policy, "./rscheck_test.rs", code, Some(&fns), 1, &mut emitter);

    assert!(!emitter.metrics.is_empty());
    assert!(!emitter.findings.is_empty());
    assert_eq!(emitter.metrics[0].cyclomatic_sum, 2);
    assert_eq!(emitter.metrics[0].cyclomatic_max_fn, 2);
    assert_eq!(
        emitter.findings[0].message(),
        "file cyclomatic complexity sum 2 exceeds 1\nmax function cyclomatic complexity 2 exceeds 1"
    );
    assert_eq!(emitter.findings[0].evidence(), Some("f: 2\n"));
}

#[test]
fn scores_count_arms_and_questions_when_asked() {
    let fns = vec![FnCounts { name: "g".to_string(), decisions: 2, matches: 1, match_arms: 4, tries: 3 }];
    assert_eq!(fn_scores(&fns, false, false)[0].score, 4);
    assert_eq!(fn_scores(&fns, true, true)[0].score, 10);
    let huge = vec![FnCounts { name: "h".to_string(), decisions: u32::MAX, matches: 0, match_arms: 0, tries: 0 }];
    assert_eq!(fn_scores(&huge, false, false)[0].score, u32::MAX);
}

#[test]
fn physical_loc_skips_blank_and_comment_lines() {
    assert_eq!(count_physical_loc("fn a() {}\n\n   // note\n  let x = 1;\n"), 2);
}

#[test]
fn complexity_sums_beyond_u32_are_detected_before_running() {
    let policy = policy_with(TomlTable::new());
    let big = |name: &str| FnCounts { name: name.to_string(), decisions: 3_000_000_000, matches: 0, match_arms: 0, tries: 0 };
    let small = vec![big("a")];
    let large = vec![big("a"), big("b")];
    assert!(FileComplexityRule::complexity_sum_fits(&policy, "src/lib.rs", Some(&small)));
    assert!(!FileComplexityRule::complexity_sum_fits(&policy, "src/lib.rs", Some(&large)));
    assert!(FileComplexityRule::complexity_sum_fits(&policy, "src/lib.rs", None));
    let mut loc = TomlTable::new();
    loc.insert("mode".to_string(), TomlValue::String("physical_loc".to_string()));
    assert!(FileComplexityRule::complexity_sum_fits(&policy_with(loc), "src/lib.rs", Some(&large)));
}

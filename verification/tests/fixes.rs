use rscheck::fix::{apply_text_edits, find_use_insertion_offset, line_col_to_byte_offset, FixError};
use rscheck::fix_apply::{apply_planned_edits, plan_edits, preview_planned_edits, ApplyError, FileEdits, PlannedEdits};
use rscheck::report::{Finding, Fix, FixSafety, Report, Severity, TextEdit};

fn edit(file: &str, start: u32, end: u32, replacement: &str) -> TextEdit {
    TextEdit { file: file.to_string(), byte_start: start, byte_end: end, replacement: replacement.to_string() }
}

fn fix(id: &str, safety: FixSafety, edits: Vec<TextEdit>) -> Fix {
    Fix { id: id.to_string(), safety, message: String::from("m"), edits }
}

#[test]
fn apply_text_edits_applies_from_the_end() {
    let text = "hello world";
    let edits = vec![edit("f", 0, 5, "HELLO"), edit("f", 6, 11, "there")];
    assert_eq!(apply_text_edits(text, &edits).ok().unwrap(), "HELLO there");
}

#[test]
fn apply_text_edits_refuses_overlaps_and_bad_bounds() {
    let overlapping = vec![edit("f", 0, 5, "a"), edit("f", 3, 7, "b")];
    assert!(matches!(apply_text_edits("hello world", &overlapping), Err(FixError::Overlap)));
    let out_of_bounds = vec![edit("f", 4, 40, "x")];
    assert!(matches!(apply_text_edits("hello", &out_of_bounds), Err(FixError::OutOfBounds)));
    let inside_char = vec![edit("f", 1, 2, "x")];
    assert!(matches!(apply_text_edits("é", &inside_char), Err(FixError::InvalidUtf8Boundary)));
}

#[test]
fn line_and_column_become_byte_offsets() {
    let text = "ab\nçd\n";
    assert_eq!(line_col_to_byte_offset(text, 1, 1).ok(), Some(0));
    assert_eq!(line_col_to_byte_offset(text, 2, 2).ok(), Some(5));
    assert!(line_col_to_byte_offset(text, 0, 1).is_err());
    assert!(line_col_to_byte_offset(text, 9, 1).is_err());
}

#[test]
fn use_insertion_goes_after_header_lines() {
    assert_eq!(find_use_insertion_offset("//! doc\n#![allow(x)]\nuse a::b;\n"), 21);
    assert_eq!(find_use_insertion_offset("fn f() {}\n"), 0);
}

#[test]
fn plan_prefers_safe_edits_and_drops_overlaps() {
    let mut report = Report::empty();
    report.findings.push(
        Finding::new(String::from("r"), Severity::Warn, String::from("m"))
            .with_fixes(vec![
                fix("u", FixSafety::Unsafe, vec![edit("b.rs", 0, 4, "U")]),
                fix("s", FixSafety::Safe, vec![edit("b.rs", 2, 6, "S"), edit("a.rs", 1, 2, "A")]),
            ]),
    );
    let planned = plan_edits(&report, true);
    assert_eq!(planned.by_file.len(), 2);
    assert_eq!(planned.by_file[0].file, "a.rs");
    assert_eq!(planned.by_file[1].file, "b.rs");
    assert_eq!(planned.by_file[1].edits.len(), 1);
    assert_eq!(planned.by_file[1].edits[0].replacement, "S");

    let safe_only = plan_edits(&report, false);
    assert_eq!(safe_only.by_file[1].edits[0].replacement, "S");
    assert!(!safe_only.is_empty());
    assert!(PlannedEdits { by_file: Vec::new() }.is_empty());
}

#[test]
fn applying_a_plan_lists_changed_files_only() {
    let planned = PlannedEdits {
        by_file: vec![
            FileEdits { file: "a.rs".to_string(), edits: vec![edit("a.rs", 0, 1, "x")] },
            FileEdits { file: "b.rs".to_string(), edits: Vec::new() },
            FileEdits { file: "c.rs".to_string(), edits: vec![edit("c.rs", 0, 1, "c")] },
        ],
    };
    let contents = vec![Ok("abc".to_string()), Err("never read".to_string()), Ok("cde".to_string())];
    let (writes, error) = apply_planned_edits(&planned, &contents);
    assert!(error.is_none());
    assert_eq!(writes.len(), 1);
    assert_eq!((writes[0].file.as_str(), writes[0].text.as_str()), ("a.rs", "xbc"));
}

#[test]
fn applying_a_plan_stops_at_first_failure() {
    let planned = PlannedEdits {
        by_file: vec![
            FileEdits { file: "a.rs".to_string(), edits: vec![edit("a.rs", 0, 1, "x")] },
            FileEdits { file: "b.rs".to_string(), edits: vec![edit("b.rs", 0, 9, "y")] },
            FileEdits { file: "c.rs".to_string(), edits: vec![edit("c.rs", 0, 1, "z")] },
        ],
    };
    let contents = vec![Ok("abc".to_string()), Ok("b".to_string()), Err("missing".to_string())];
    let (writes, error) = apply_planned_edits(&planned, &contents);
    assert_eq!(writes.len(), 1);
    assert!(matches!(error, Some(ApplyError::Apply { ref path, source: FixError::OutOfBounds }) if path == "b.rs"));
}

#[test]
fn preview_shows_a_unified_diff_for_each_changed_file() {
    let planned = PlannedEdits {
        by_file: vec![
            FileEdits { file: "a.rs".to_string(), edits: vec![edit("a.rs", 4, 7, "new")] },
            FileEdits { file: "b.rs".to_string(), edits: vec![edit("b.rs", 0, 1, "b")] },
        ],
    };
    let contents = vec![Ok("one\nold\nend\n".to_string()), Ok("b\n".to_string())];
    let (diffs, error) = preview_planned_edits(&planned, &contents);
    assert!(error.is_none());
    assert_eq!(diffs.len(), 1);
    assert!(diffs[0].contains("--- a/a.rs"));
    assert!(diffs[0].contains("+++ b/a.rs"));
    assert!(diffs[0].contains("-old\n"));
    assert!(diffs[0].contains("+new\n"));
}

#[test]
fn preview_stops_where_applying_stops() {
    let planned = PlannedEdits {
        by_file: vec![
            FileEdits { file: "a.rs".to_string(), edits: vec![edit("a.rs", 0, 1, "x")] },
            FileEdits { file: "b.rs".to_string(), edits: vec![edit("b.rs", 0, 1, "y")] },
        ],
    };
    let contents = vec![Ok("abc\n".to_string()), Err("missing".to_string())];
    let (diffs, error) = preview_planned_edits(&planned, &contents);
    let (writes, apply_error) = apply_planned_edits(&planned, &contents);
    assert_eq!(diffs.len(), writes.len());
    assert!(matches!(error, Some(ApplyError::Read { ref path, .. }) if path == "b.rs"));
    assert!(matches!(apply_error, Some(ApplyError::Read { ref path, .. }) if path == "b.rs"));
}

#[test]
fn unsafe_fixes_stay_out_unless_asked_for() {
    let mut report = Report::empty();
    report.findings.push(
        Finding::new(String::from("r"), Severity::Warn, String::from("m"))
            .with_fixes(vec![fix("u", FixSafety::Unsafe, vec![edit("c.rs", 0, 1, "U"), edit("d.rs", 3, 4, "V")])]),
    );
    assert!(plan_edits(&report, false).is_empty());
    let with_unsafe = plan_edits(&report, true);
    assert_eq!(with_unsafe.by_file.len(), 2);
    assert_eq!(with_unsafe.by_file[0].edits[0].replacement, "U");
    assert_eq!(with_unsafe.by_file[1].edits[0].replacement, "V");
}

#[test]
fn planned_edits_apply_without_overlap() {
    let mut report = Report::empty();
    report.findings.push(
        Finding::new(String::from("r"), Severity::Warn, String::from("m")).with_fixes(vec![
            fix("a", FixSafety::Safe, vec![edit("f.rs", 0, 3, "X")]),
            fix("b", FixSafety::Safe, vec![edit("f.rs", 2, 5, "Y"), edit("f.rs", 5, 5, "Z")]),
        ]),
    );
    let planned = plan_edits(&report, false);
    let edits = &planned.by_file[0].edits;
    assert!(!matches!(apply_text_edits("abcdefgh", edits), Err(FixError::Overlap)));
    assert_eq!(apply_text_edits("abcdefgh", edits).unwrap(), "XdeZfgh");
    let disjoint = vec![edit("f.rs", 4, 6, "Q"), edit("f.rs", 0, 2, "P"), edit("f.rs", 2, 2, "!")];
    assert_eq!(apply_text_edits("abcdefgh", &disjoint).unwrap(), "P!cdQgh");
}

#[test]
fn edits_fail_only_when_invalid_or_sharing_a_byte() {
    // Touching edits, and two insertions at one place, share no byte: they apply.
    let touching = vec![edit("f", 0, 2, "X"), edit("f", 2, 4, "Y"), edit("f", 4, 4, "+"), edit("f", 4, 4, "-")];
    assert!(apply_text_edits("abcdef", &touching).is_ok());
    // An edit inside another shares bytes with it.
    let nested = vec![edit("f", 1, 5, "X"), edit("f", 2, 3, "Y")];
    assert!(matches!(apply_text_edits("abcdef", &nested), Err(FixError::Overlap)));
    // The same non-empty edit twice shares its bytes with itself.
    let twice = vec![edit("f", 1, 2, "X"), edit("f", 1, 2, "X")];
    assert!(matches!(apply_text_edits("abcdef", &twice), Err(FixError::Overlap)));
    // An edit that ends before it starts is refused however it is placed.
    let reversed = vec![edit("f", 3, 2, "X")];
    assert!(matches!(apply_text_edits("abcdef", &reversed), Err(FixError::OutOfBounds)));
    // A boundary is judged on the original text, after later edits were applied.
    let after_multibyte = vec![edit("f", 2, 3, "Z"), edit("f", 0, 2, "e")];
    assert_eq!(apply_text_edits("éx", &after_multibyte).unwrap(), "eZ");
}

#[test]
fn plan_is_empty_when_no_allowed_fix_has_an_edit() {
    let mut report = Report::empty();
    report.findings.push(
        Finding::new(String::from("r"), Severity::Warn, String::from("m")).with_fixes(vec![
            fix("unsafe", FixSafety::Unsafe, vec![edit("a.rs", 0, 1, "x")]),
            fix("empty", FixSafety::Safe, vec![]),
        ]),
    );
    assert!(plan_edits(&report, false).is_empty());
    assert!(!plan_edits(&report, true).is_empty());
}

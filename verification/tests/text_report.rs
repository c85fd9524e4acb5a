use rscheck::report::{Finding, FindingLabel, FindingLabelKind, Report, Severity};
use rscheck::span::{Location, Span};
use rscheck::text_report::{
    build_snippet_groups, draw_finding_snippet, normalize_labels, render_drawn_report, render_text_report, SourceText,
};

fn missing_span() -> Span {
    Span {
        file: "missing.rs".to_string(),
        start: Location { line: 1, column: 1 },
        end: Location { line: 1, column: 3 },
    }
}

/// The text of a report whose findings' files could not be read: no finding
/// has a snippet group, so none is drawn.
fn render_without_sources(report: &Report) -> String {
    let sources: Vec<SourceText> = Vec::new();
    for finding in &report.findings {
        let labels = normalize_labels(finding);
        assert!(build_snippet_groups(&labels, &sources).is_empty());
    }
    render_text_report(report, &sources)
}

#[test]
fn renders_fallback_when_source_missing() {
    let mut report = Report::empty();
    report.findings.push(
        Finding::new(String::from("demo.rule"), Severity::Warn, String::from("warning text"))
            .with_primary(missing_span()),
    );

    let text = render_without_sources(&report);
    assert!(text.contains("warning[demo.rule]: warning text"));
}

#[test]
fn prefers_structured_labels() {
    let mut report = Report::empty();
    report.findings.push(
        Finding::new(String::from("demo.rule"), Severity::Warn, String::from("warning text")).with_labels(vec![
            FindingLabel {
                kind: FindingLabelKind::Primary,
                span: missing_span(),
                message: Some(String::from("label")),
            },
        ]),
    );

    let text = render_without_sources(&report);
    assert!(text.contains("warning[demo.rule]: warning text"));
}

#[test]
fn fallback_line_names_primary_location() {
    let mut report = Report::empty();
    report.findings.push(
        Finding::new(String::from("demo.rule"), Severity::Deny, String::from("bad")).with_primary(missing_span()),
    );
    let text = render_without_sources(&report);
    assert_eq!(text, "error[demo.rule]: bad at missing.rs:1:1\n\n");
}

#[test]
fn drawn_snippet_is_followed_by_notes() {
    let mut report = Report::empty();
    report.findings.push(
        Finding::new(String::from("demo.rule"), Severity::Info, String::from("m"))
            .with_help(String::from("do this"))
            .with_evidence(String::from("seen")),
    );
    let text = render_drawn_report(&report, &vec![Some(String::from("SNIPPET\n"))]);
    assert_eq!(text, "SNIPPET\nhelp: do this\nnote: seen\n\n");
}

#[test]
fn toolchain_and_skipped_rules_are_listed() {
    let mut report = Report::empty();
    report.summary.toolchain = Some(rscheck::report::ToolchainSummary {
        requested: String::from("stable"),
        resolved: String::from("current"),
        semantic: String::from("unavailable"),
        nightly_available: false,
        reason: Some(String::from("why")),
    });
    report.summary.skipped_rules.push(String::from("a.rule"));
    let text = render_drawn_report(&report, &Vec::new());
    assert_eq!(
        text,
        "toolchain: requested=stable, resolved=current, semantic=unavailable, nightly_available=false\nnote: why\n\nskipped semantic rules:\n- a.rule\n"
    );
}

#[test]
fn snippet_groups_place_labels_in_readable_files() {
    let label = FindingLabel {
        kind: FindingLabelKind::Primary,
        span: Span {
            file: "b.rs".to_string(),
            start: Location { line: 2, column: 2 },
            end: Location { line: 2, column: 2 },
        },
        message: None,
    };
    let other = FindingLabel {
        kind: FindingLabelKind::Secondary,
        span: Span {
            file: "a.rs".to_string(),
            start: Location { line: 1, column: 1 },
            end: Location { line: 1, column: 4 },
        },
        message: Some(String::from("here")),
    };
    let sources = vec![
        SourceText { file: "b.rs".to_string(), text: Some("xy\nzw é\n".to_string()), display_path: "src/b.rs".to_string() },
        SourceText { file: "a.rs".to_string(), text: Some("abcdef".to_string()), display_path: "a.rs".to_string() },
    ];
    let groups = build_snippet_groups(&vec![label, other], &sources);
    assert_eq!(groups.len(), 2);
    assert_eq!(groups[0].display_path, "a.rs");
    assert_eq!((groups[0].labels[0].start, groups[0].labels[0].end), (0, 3));
    assert_eq!(groups[0].labels[0].message, "here");
    assert_eq!(groups[1].display_path, "src/b.rs");
    // Column 2 of line 2 starts after the one-byte `z`; an empty range grows to one byte.
    assert_eq!((groups[1].labels[0].start, groups[1].labels[0].end), (4, 5));
}

#[test]
fn readable_sources_are_drawn_as_snippets() {
    let mut report = Report::empty();
    report.findings.push(
        Finding::new(String::from("demo.rule"), Severity::Deny, String::from("bad")).with_primary(Span {
            file: "a.rs".to_string(),
            start: Location { line: 1, column: 4 },
            end: Location { line: 1, column: 7 },
        }),
    );
    let sources = vec![SourceText {
        file: "a.rs".to_string(),
        text: Some("fn foo() {}\n".to_string()),
        display_path: "src/a.rs".to_string(),
    }];
    let drawn = draw_finding_snippet(&report.findings[0], &sources).expect("a snippet is drawn");
    assert!(drawn.contains("error: [demo.rule] bad"));
    assert!(drawn.contains("src/a.rs"));
    assert!(drawn.contains("fn foo() {}"));
    assert!(drawn.contains("━━━"));
    let text = render_text_report(&report, &sources);
    assert_eq!(text, format!("{drawn}\n"));
    assert!(!text.contains("at a.rs:1:4"));
}

#[test]
fn labels_and_patches_that_cannot_be_drawn_are_left_out() {
    let label = FindingLabel {
        kind: FindingLabelKind::Primary,
        span: Span {
            file: "b.rs".to_string(),
            start: Location { line: 1, column: 2 },
            end: Location { line: 1, column: 2 },
        },
        message: None,
    };
    let sources =
        vec![SourceText { file: "b.rs".to_string(), text: Some("zé\n".to_string()), display_path: "b.rs".to_string() }];
    // An empty range before `é` would grow into the middle of the character.
    assert!(build_snippet_groups(&vec![label], &sources).is_empty());

    let mut report = Report::empty();
    let fix = rscheck::report::Fix {
        id: String::from("f"),
        safety: rscheck::report::FixSafety::Safe,
        message: String::from("m"),
        edits: vec![
            rscheck::report::TextEdit { file: "b.rs".to_string(), byte_start: 2, byte_end: 3, replacement: String::new() },
            rscheck::report::TextEdit { file: "b.rs".to_string(), byte_start: 0, byte_end: 9, replacement: String::new() },
            rscheck::report::TextEdit { file: "b.rs".to_string(), byte_start: 0, byte_end: 1, replacement: String::from("y") },
        ],
    };
    report.findings.push(
        Finding::new(String::from("demo.rule"), Severity::Warn, String::from("w"))
            .with_primary(Span {
                file: "b.rs".to_string(),
                start: Location { line: 1, column: 1 },
                end: Location { line: 1, column: 2 },
            })
            .with_fixes(vec![fix]),
    );
    let groups = rscheck::text_report::build_patch_groups(&report.findings[0], &sources);
    assert_eq!(groups.len(), 1);
    assert_eq!(groups[0].edits.len(), 1);
    assert_eq!((groups[0].edits[0].start, groups[0].edits[0].end), (0, 1));
    assert!(draw_finding_snippet(&report.findings[0], &sources).is_some());
}

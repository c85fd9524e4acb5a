use rscheck::cargo_clippy::{diagnostic_to_finding, ChildDiagnostic, Diagnostic, DiagnosticLevel, DiagnosticSpan};
use rscheck::report::{FindingLabelKind, FindingNoteKind, FixSafety, Severity};

fn span(primary: bool, label: Option<&str>, replacement: Option<&str>) -> DiagnosticSpan {
    DiagnosticSpan {
        file_name: "src/lib.rs".to_string(),
        byte_start: 10,
        byte_end: 14,
        line_start: 2,
        line_end: 2,
        column_start: 5,
        column_end: 9,
        is_primary: primary,
        label: label.map(String::from),
        suggested_replacement: replacement.map(String::from),
        machine_applicable: primary,
    }
}

#[test]
fn clippy_diagnostic_becomes_finding() {
    let diag = Diagnostic {
        message: "needless borrow".to_string(),
        code: Some("clippy::needless_borrow".to_string()),
        level: DiagnosticLevel::Warning,
        spans: vec![span(false, None, None), span(true, Some("here"), Some("x"))],
        children: vec![ChildDiagnostic {
            message: "remove the borrow".to_string(),
            level: DiagnosticLevel::Help,
            spans: vec![span(false, None, None)],
        }],
    };
    let f = diagnostic_to_finding(&diag).unwrap();
    assert_eq!(f.rule_id(), "clippy::needless_borrow");
    assert_eq!(f.severity(), Severity::Warn);
    assert_eq!(f.primary().unwrap().start.column, 5);
    assert_eq!(f.secondary().len(), 1);
    assert_eq!(f.labels().len(), 3);
    assert_eq!(f.labels()[1].kind, FindingLabelKind::Primary);
    assert_eq!(f.labels()[2].message.as_deref(), Some("remove the borrow"));
    assert_eq!(f.notes().len(), 1);
    assert_eq!(f.notes()[0].kind, FindingNoteKind::Help);
    assert_eq!(f.fixes().len(), 1);
    assert_eq!(f.fixes()[0].id, "clippy::needless_borrow::clippy_suggestion::1");
    assert_eq!(f.fixes()[0].safety, FixSafety::Safe);
    assert_eq!(f.fixes()[0].message, "here");
}

#[test]
fn diagnostic_without_code_is_a_clippy_finding() {
    let diag = Diagnostic {
        message: "m".to_string(),
        code: None,
        level: DiagnosticLevel::Error,
        spans: Vec::new(),
        children: Vec::new(),
    };
    let f = diagnostic_to_finding(&diag).unwrap();
    assert_eq!(f.rule_id(), "clippy");
    assert_eq!(f.severity(), Severity::Deny);
    assert!(f.primary().is_none());
}

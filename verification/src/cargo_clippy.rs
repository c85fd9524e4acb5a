//! Turning clippy's diagnostics into findings.
use vstd::prelude::*;
use vstd::string::*;
use crate::report::{
    EditView, Finding, FindingLabel, FindingLabelKind, FindingNote, FindingNoteKind, FindingView, Fix, FixSafety,
    FixView, LabelView, NoteView, Severity, SpanView, TextEdit, edit_v, fix_v, label_v, note_v, span_v,
};
use crate::rules::RuleBackend;
use crate::span::{Location, Span};
use crate::text::{decimal, u64_to_string};

verus! {

/// Why running clippy failed.
#[derive(Debug)]
pub enum CargoError {
    Spawn(String),
    Read(String),
    Status(i32),
}

/// The level of a compiler diagnostic.
#[derive(Debug, Clone, Copy, PartialEq, Eq, Structural)]
pub enum DiagnosticLevel {
    Ice,
    Error,
    Warning,
    FailureNote,
    Note,
    Help,
    Other,
}

/// A span of a compiler diagnostic.
#[derive(Debug)]
pub struct DiagnosticSpan {
    pub file_name: String,
    pub byte_start: u32,
    pub byte_end: u32,
    pub line_start: usize,
    pub line_end: usize,
    pub column_start: usize,
    pub column_end: usize,
    pub is_primary: bool,
    pub label: Option<String>,
    pub suggested_replacement: Option<String>,
    /// The suggestion may be applied mechanically.
    pub machine_applicable: bool,
}

/// A compiler diagnostic with its child diagnostics (one level, as clippy reports them).
#[derive(Debug)]
pub struct Diagnostic {
    pub message: String,
    pub code: Option<String>,
    pub level: DiagnosticLevel,
    pub spans: Vec<DiagnosticSpan>,
    pub children: Vec<ChildDiagnostic>,
}

/// A child diagnostic: its message, level and spans.
#[derive(Debug)]
pub struct ChildDiagnostic {
    pub message: String,
    pub level: DiagnosticLevel,
    pub spans: Vec<DiagnosticSpan>,
}

pub open spec fn spec_severity_of(level: DiagnosticLevel) -> Severity {
    match level {
        DiagnosticLevel::Error => Severity::Deny,
        DiagnosticLevel::Warning => Severity::Warn,
        DiagnosticLevel::Note | DiagnosticLevel::Help => Severity::Info,
        DiagnosticLevel::FailureNote => Severity::Warn,
        DiagnosticLevel::Ice => Severity::Deny,
        DiagnosticLevel::Other => Severity::Warn,
    }
}

pub open spec fn spec_note_kind(level: DiagnosticLevel) -> FindingNoteKind {
    match level {
        DiagnosticLevel::Help => FindingNoteKind::Help,
        DiagnosticLevel::Note | DiagnosticLevel::FailureNote => FindingNoteKind::Note,
        _ => FindingNoteKind::Info,
    }
}

pub fn map_note_kind(level: DiagnosticLevel) -> (r: FindingNoteKind)
    ensures
        r == spec_note_kind(level),
{
    match level {
        DiagnosticLevel::Help => FindingNoteKind::Help,
        DiagnosticLevel::Note | DiagnosticLevel::FailureNote => FindingNoteKind::Note,
        _ => FindingNoteKind::Info,
    }
}

/// The report span of a diagnostic span: its file and its lines and columns,
/// cut to 32 bits.
pub open spec fn spec_span(s: DiagnosticSpan) -> SpanView {
    (
        s.file_name@,
        Location { line: s.line_start as u32, column: s.column_start as u32 },
        Location { line: s.line_end as u32, column: s.column_end as u32 },
    )
}

pub fn span_to_report_span(s: &DiagnosticSpan) -> (r: Span)
    ensures
        span_v(r) == spec_span(*s),
{
    Span::new(
        s.file_name.as_str(),
        Location { line: s.line_start as u32, column: s.column_start as u32 },
        Location { line: s.line_end as u32, column: s.column_end as u32 },
    )
}

pub open spec fn spec_label_kind(s: DiagnosticSpan) -> FindingLabelKind {
    if s.is_primary {
        FindingLabelKind::Primary
    } else {
        FindingLabelKind::Secondary
    }
}

pub fn label_kind(s: &DiagnosticSpan) -> (r: FindingLabelKind)
    ensures
        r == spec_label_kind(*s),
{
    if s.is_primary {
        FindingLabelKind::Primary
    } else {
        FindingLabelKind::Secondary
    }
}

fn opt_clone(o: &Option<String>) -> (r: Option<String>)
    ensures
        crate::report::opt_text(r) == crate::report::opt_text(*o),
{
    match o {
        Some(s) => Some(s.clone()),
        None => None,
    }
}

/// The label of a span of the diagnostic itself.
pub fn label_from_span(s: &DiagnosticSpan) -> (r: FindingLabel)
    ensures
        label_v(r) == (spec_label_kind(*s), spec_span(*s), crate::report::opt_text(s.label)),
{
    FindingLabel { kind: label_kind(s), span: span_to_report_span(s), message: opt_clone(&s.label) }
}

/// The label of a span of a child diagnostic: the child's message when the
/// span has no label.
pub fn label_from_child(s: &DiagnosticSpan, child: &ChildDiagnostic) -> (r: FindingLabel)
    ensures
        label_v(r) == (
            spec_label_kind(*s),
            spec_span(*s),
            Some(
                match s.label {
                    Some(l) => l@,
                    None => child.message@,
                },
            ),
        ),
{
    let message = match &s.label {
        Some(l) => l.clone(),
        None => child.message.clone(),
    };
    FindingLabel { kind: label_kind(s), span: span_to_report_span(s), message: Some(message) }
}

/// The labels of the diagnostic's spans, then those of its children's spans.
pub open spec fn spec_labels(d: Diagnostic) -> Seq<LabelView> {
    d.spans@.map_values(|s: DiagnosticSpan| (spec_label_kind(s), spec_span(s), crate::report::opt_text(s.label)))
        + child_labels(d.children@)
}

pub open spec fn child_labels(cs: Seq<ChildDiagnostic>) -> Seq<LabelView>
    decreases cs.len(),
{
    if cs.len() == 0 {
        Seq::empty()
    } else {
        let c = cs.last();
        child_labels(cs.drop_last()) + c.spans@.map_values(
            |s: DiagnosticSpan|
                (
                    spec_label_kind(s),
                    spec_span(s),
                    Some(
                        match s.label {
                            Some(l) => l@,
                            None => c.message@,
                        },
                    ),
                ),
        )
    }
}

pub fn collect_labels(d: &Diagnostic) -> (r: Vec<FindingLabel>)
    ensures
        r@.map_values(|l: FindingLabel| label_v(l)) == spec_labels(*d),
{
    let mut out: Vec<FindingLabel> = Vec::new();
    let mut i: usize = 0;
    let ghost own = d.spans@.map_values(|s: DiagnosticSpan| (spec_label_kind(s), spec_span(s), crate::report::opt_text(s.label)));
    while i < d.spans.len()
        invariant
            i <= d.spans@.len(),
            own == d.spans@.map_values(|s: DiagnosticSpan| (spec_label_kind(s), spec_span(s), crate::report::opt_text(s.label))),
            out@.map_values(|l: FindingLabel| label_v(l)) == own.take(i as int),
        decreases d.spans.len() - i,
    {
        let ghost before = out@.map_values(|l: FindingLabel| label_v(l));
        let l = label_from_span(&d.spans[i]);
        out.push(l);
        assert(out@.map_values(|l: FindingLabel| label_v(l)) =~= before.push(label_v(l)));
        assert(own.take(i + 1) =~= own.take(i as int).push(own[i as int]));
        i = i + 1;
    }
    assert(own.take(d.spans@.len() as int) =~= own);
    let mut c: usize = 0;
    assert(child_labels(d.children@.take(0)) =~= Seq::<LabelView>::empty());
    assert(out@.map_values(|l: FindingLabel| label_v(l)) =~= own + child_labels(d.children@.take(0)));
    while c < d.children.len()
        invariant
            c <= d.children@.len(),
            out@.map_values(|l: FindingLabel| label_v(l)) == own + child_labels(d.children@.take(c as int)),
        decreases d.children.len() - c,
    {
        let child = &d.children[c];
        assert(d.children@.take(c + 1).drop_last() =~= d.children@.take(c as int));
        assert(d.children@.take(c + 1).last() == *child);
        let ghost cv = child.spans@.map_values(
            |s: DiagnosticSpan|
                (
                    spec_label_kind(s),
                    spec_span(s),
                    Some(
                        match s.label {
                            Some(l) => l@,
                            None => child.message@,
                        },
                    ),
                ),
        );
        let ghost base = out@.map_values(|l: FindingLabel| label_v(l));
        let mut k: usize = 0;
        while k < child.spans.len()
            invariant
                k <= child.spans@.len(),
                cv == child.spans@.map_values(
                    |s: DiagnosticSpan|
                        (
                            spec_label_kind(s),
                            spec_span(s),
                            Some(
                                match s.label {
                                    Some(l) => l@,
                                    None => child.message@,
                                },
                            ),
                        ),
                ),
                out@.map_values(|l: FindingLabel| label_v(l)) == base + cv.take(k as int),
            decreases child.spans.len() - k,
        {
            let ghost before = out@.map_values(|l: FindingLabel| label_v(l));
            let l = label_from_child(&child.spans[k], child);
            out.push(l);
            assert(out@.map_values(|l: FindingLabel| label_v(l)) =~= before.push(label_v(l)));
            assert(cv.take(k + 1) =~= cv.take(k as int).push(cv[k as int]));
            assert(base + cv.take(k + 1) =~= (base + cv.take(k as int)).push(cv[k as int]));
            k = k + 1;
        }
        assert(cv.take(child.spans@.len() as int) =~= cv);
        assert(own + child_labels(d.children@.take(c + 1)) =~= base + cv);
        c = c + 1;
    }
    assert(d.children@.take(d.children@.len() as int) =~= d.children@);
    out
}

/// One note per child diagnostic.
pub open spec fn spec_notes(d: Diagnostic) -> Seq<NoteView> {
    d.children@.map_values(|c: ChildDiagnostic| (spec_note_kind(c.level), c.message@))
}

pub fn collect_notes(d: &Diagnostic) -> (r: Vec<FindingNote>)
    ensures
        r@.map_values(|n: FindingNote| note_v(n)) == spec_notes(*d),
{
    let mut out: Vec<FindingNote> = Vec::new();
    let mut i: usize = 0;
    while i < d.children.len()
        invariant
            i <= d.children@.len(),
            out@.map_values(|n: FindingNote| note_v(n)) == spec_notes(*d).take(i as int),
        decreases d.children.len() - i,
    {
        let ghost before = out@.map_values(|n: FindingNote| note_v(n));
        let n = FindingNote { kind: map_note_kind(d.children[i].level), message: d.children[i].message.clone() };
        out.push(n);
        assert(out@.map_values(|n: FindingNote| note_v(n)) =~= before.push(note_v(n)));
        assert(spec_notes(*d).take(i + 1) =~= spec_notes(*d).take(i as int).push(spec_notes(*d)[i as int]));
        i = i + 1;
    }
    assert(spec_notes(*d).take(d.children@.len() as int) =~= spec_notes(*d));
    out
}

/// The finding's rule id: the diagnostic's code, or `clippy`.
pub open spec fn spec_rule_id(d: Diagnostic) -> Seq<char> {
    match d.code {
        Some(c) => c@,
        None => "clippy"@,
    }
}

pub fn clippy_rule_id(d: &Diagnostic) -> (r: String)
    ensures
        r@ == spec_rule_id(*d),
{
    match &d.code {
        Some(c) => c.clone(),
        None => String::from_str("clippy"),
    }
}

/// The fix for the suggestion on span `s` (the `idx`-th span) of diagnostic `d`.
pub open spec fn spec_fix(d: Diagnostic, s: DiagnosticSpan, replacement: Seq<char>, idx: nat) -> FixView {
    (
        spec_rule_id(d) + "::clippy_suggestion::"@ + decimal(idx),
        if s.machine_applicable { FixSafety::Safe } else { FixSafety::Unsafe },
        match s.label {
            Some(l) => l@,
            None => "apply suggestion"@,
        },
        seq![(s.file_name@, s.byte_start, s.byte_end, replacement)],
    )
}

pub fn clippy_fix(d: &Diagnostic, s: &DiagnosticSpan, replacement: &str, idx: usize) -> (r: Fix)
    ensures
        fix_v(r) == spec_fix(*d, *s, replacement@, idx as nat),
{
    let safety = if s.machine_applicable {
        FixSafety::Safe
    } else {
        FixSafety::Unsafe
    };
    let mut id = clippy_rule_id(d);
    id.append("::clippy_suggestion::");
    id.append(u64_to_string(idx as u64).as_str());
    let message = match &s.label {
        Some(l) => l.clone(),
        None => String::from_str("apply suggestion"),
    };
    let edits = vec![
        TextEdit {
            file: s.file_name.clone(),
            byte_start: s.byte_start,
            byte_end: s.byte_end,
            replacement: replacement.to_owned(),
        },
    ];
    let r = Fix { id, safety, message, edits };
    assert(r.edits@.map_values(|e: TextEdit| edit_v(e)) =~= seq![(s.file_name@, s.byte_start, s.byte_end, replacement@)]);
    r
}

/// The fixes of a diagnostic: one per span with a suggested replacement, in order.
pub open spec fn spec_fixes(d: Diagnostic, spans: Seq<DiagnosticSpan>) -> Seq<FixView>
    decreases spans.len(),
{
    if spans.len() == 0 {
        Seq::empty()
    } else {
        let s = spans.last();
        spec_fixes(d, spans.drop_last()) + match s.suggested_replacement {
            Some(rep) => seq![spec_fix(d, s, rep@, (spans.len() - 1) as nat)],
            None => Seq::empty(),
        }
    }
}

/// The index of the first primary span.
pub open spec fn first_primary(spans: Seq<DiagnosticSpan>) -> Option<int>
    decreases spans.len(),
{
    if spans.len() == 0 {
        None
    } else {
        match first_primary(spans.drop_last()) {
            Some(i) => Some(i),
            None => if spans.last().is_primary {
                Some(spans.len() - 1)
            } else {
                None
            },
        }
    }
}

/// The spans that are not primary, in order.
pub open spec fn secondary_spans(spans: Seq<DiagnosticSpan>) -> Seq<SpanView>
    decreases spans.len(),
{
    if spans.len() == 0 {
        Seq::empty()
    } else {
        secondary_spans(spans.drop_last()) + if spans.last().is_primary {
            Seq::empty()
        } else {
            seq![spec_span(spans.last())]
        }
    }
}

/// The finding for a diagnostic.
pub open spec fn spec_finding(d: Diagnostic) -> FindingView {
    FindingView {
        rule_id: spec_rule_id(d),
        family: None,
        engine: Some(RuleBackend::Adapter),
        severity: spec_severity_of(d.level),
        message: d.message@,
        help: None,
        primary: match first_primary(d.spans@) {
            Some(i) => Some(spec_span(d.spans@[i])),
            None => None,
        },
        secondary: secondary_spans(d.spans@),
        evidence: None,
        confidence: None,
        tags: seq!["clippy"@],
        labels: spec_labels(d),
        notes: spec_notes(d),
        fixes: spec_fixes(d, d.spans@),
    }
}

fn severity_of(level: DiagnosticLevel) -> (r: Severity)
    ensures
        r == spec_severity_of(level),
{
    match level {
        DiagnosticLevel::Error => Severity::Deny,
        DiagnosticLevel::Warning => Severity::Warn,
        DiagnosticLevel::Note | DiagnosticLevel::Help => Severity::Info,
        DiagnosticLevel::FailureNote => Severity::Warn,
        DiagnosticLevel::Ice => Severity::Deny,
        DiagnosticLevel::Other => Severity::Warn,
    }
}

/// The first primary span of a diagnostic.
fn find_primary(d: &Diagnostic) -> (r: Option<Span>)
    ensures
        match r {
            Some(p) => first_primary(d.spans@) matches Some(k) && 0 <= k < d.spans@.len() && span_v(p) == spec_span(
                d.spans@[k],
            ),
            None => first_primary(d.spans@) is None,
        },
{
    let mut primary: Option<Span> = None;
    let mut i: usize = 0;
    while i < d.spans.len()
        invariant
            i <= d.spans@.len(),
            match primary {
                Some(p) => first_primary(d.spans@.take(i as int)) matches Some(k) && 0 <= k < i && span_v(p)
                    == spec_span(d.spans@[k]),
                None => first_primary(d.spans@.take(i as int)) is None,
            },
        decreases d.spans.len() - i,
    {
        let ghost pre = d.spans@.take(i as int);
        let ghost post = d.spans@.take(i + 1);
        assert(post.drop_last() =~= pre);
        if primary.is_none() && d.spans[i].is_primary {
            primary = Some(span_to_report_span(&d.spans[i]));
        }
        i = i + 1;
    }
    assert(d.spans@.take(d.spans@.len() as int) =~= d.spans@);
    primary
}

/// The spans of a diagnostic that are not primary.
fn collect_secondary(d: &Diagnostic) -> (r: Vec<Span>)
    ensures
        r@.map_values(|s: Span| span_v(s)) == secondary_spans(d.spans@),
{
    let mut secondary: Vec<Span> = Vec::new();
    let mut i: usize = 0;
    while i < d.spans.len()
        invariant
            i <= d.spans@.len(),
            secondary@.map_values(|s: Span| span_v(s)) == secondary_spans(d.spans@.take(i as int)),
        decreases d.spans.len() - i,
    {
        let ghost pre = d.spans@.take(i as int);
        let ghost post = d.spans@.take(i + 1);
        assert(post.drop_last() =~= pre);
        let ghost before = secondary@.map_values(|s: Span| span_v(s));
        if !d.spans[i].is_primary {
            let sp = span_to_report_span(&d.spans[i]);
            secondary.push(sp);
            assert(secondary@.map_values(|s: Span| span_v(s)) =~= before.push(span_v(sp)));
        }
        assert(secondary@.map_values(|s: Span| span_v(s)) =~= secondary_spans(post));
        i = i + 1;
    }
    assert(d.spans@.take(d.spans@.len() as int) =~= d.spans@);
    secondary
}

/// One fix per span with a suggested replacement.
fn collect_fixes(d: &Diagnostic) -> (r: Vec<Fix>)
    ensures
        r@.map_values(|f: Fix| fix_v(f)) == spec_fixes(*d, d.spans@),
{
    let mut fixes: Vec<Fix> = Vec::new();
    let mut i: usize = 0;
    while i < d.spans.len()
        invariant
            i <= d.spans@.len(),
            fixes@.map_values(|f: Fix| fix_v(f)) == spec_fixes(*d, d.spans@.take(i as int)),
        decreases d.spans.len() - i,
    {
        let s = &d.spans[i];
        let ghost pre = d.spans@.take(i as int);
        let ghost post = d.spans@.take(i + 1);
        assert(post.drop_last() =~= pre);
        assert(post.last() == *s);
        let ghost fbefore = fixes@.map_values(|f: Fix| fix_v(f));
        match &s.suggested_replacement {
            Some(rep) => {
                let fx = clippy_fix(d, s, rep.as_str(), i);
                fixes.push(fx);
                assert(fixes@.map_values(|f: Fix| fix_v(f)) =~= fbefore.push(fix_v(fx)));
            },
            None => {},
        }
        assert(fixes@.map_values(|f: Fix| fix_v(f)) =~= spec_fixes(*d, post));
        i = i + 1;
    }
    assert(d.spans@.take(d.spans@.len() as int) =~= d.spans@);
    fixes
}

/// The finding for one clippy diagnostic: its code as rule id, its level as
/// severity, its primary span, its other spans as secondary spans, labels for
/// all spans, a note per child, and a fix per suggested replacement.
pub fn diagnostic_to_finding(d: &Diagnostic) -> (r: Option<Finding>)
    ensures
        r matches Some(f) && f@ == spec_finding(*d),
{
    let severity = severity_of(d.level);
    let primary = find_primary(d);
    let secondary = collect_secondary(d);
    let fixes = collect_fixes(d);
    let labels = collect_labels(d);
    let notes = collect_notes(d);
    let tags = vec![String::from_str("clippy")];
    let mut f = Finding::new(clippy_rule_id(d), severity, d.message.clone()).with_backend(RuleBackend::Adapter)
        .with_secondary(secondary).with_tags(tags).with_labels(labels).with_notes(notes).with_fixes(fixes);
    assert(f@.tags =~= seq!["clippy"@]);
    match primary {
        Some(p) => {
            f = f.with_primary(p);
        },
        None => {},
    }
    Some(f)
}

} // verus!

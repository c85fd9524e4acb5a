//! The report model: findings, fixes, metrics and the run summary.
use vstd::prelude::*;
use crate::config::Level;
use crate::rules::{RuleBackend, RuleFamily, RuleInfo};
use crate::span::{Location, Span};

verus! {

/// How serious a finding is.
#[derive(Debug, Clone, Copy, PartialEq, Eq, Structural)]
pub enum Severity {
    Info,
    Warn,
    Deny,
}

/// The process exit code that a severity stands for.
pub open spec fn severity_rank(s: Severity) -> i32 {
    match s {
        Severity::Info => 0,
        Severity::Warn => 1,
        Severity::Deny => 2,
    }
}

impl Severity {
    /// The process exit code that this severity stands for.
    pub fn exit_code(self) -> (r: i32)
        ensures
            r == severity_rank(self),
    {
        match self {
            Severity::Info => 0,
            Severity::Warn => 1,
            Severity::Deny => 2,
        }
    }
}

/// Whether a fix may be applied without review.
#[derive(Debug, Clone, Copy, PartialEq, Eq, Structural)]
pub enum FixSafety {
    Safe,
    Unsafe,
}

#[derive(Debug, Clone, Copy, PartialEq, Eq, Structural)]
pub enum FindingLabelKind {
    Primary,
    Secondary,
}

/// A span with an optional message, shown in rendered snippets.
#[derive(Debug, Clone)]
pub struct FindingLabel {
    pub kind: FindingLabelKind,
    pub span: Span,
    pub message: Option<String>,
}

#[derive(Debug, Clone, Copy, PartialEq, Eq, Structural)]
pub enum FindingNoteKind {
    Note,
    Help,
    Info,
}

#[derive(Debug, Clone)]
pub struct FindingNote {
    pub kind: FindingNoteKind,
    pub message: String,
}

/// Replace the bytes `byte_start..byte_end` of `file` by `replacement`.
#[derive(Debug, Clone)]
pub struct TextEdit {
    pub file: String,
    pub byte_start: u32,
    pub byte_end: u32,
    pub replacement: String,
}

#[derive(Debug, Clone)]
pub struct Fix {
    pub id: String,
    pub safety: FixSafety,
    pub message: String,
    pub edits: Vec<TextEdit>,
}

#[derive(Debug, Clone)]
pub struct FindingIdentity {
    pub rule_id: String,
    pub family: Option<RuleFamily>,
    pub engine: Option<RuleBackend>,
}

#[derive(Debug, Clone)]
pub struct FindingDiagnostic {
    pub severity: Severity,
    pub message: String,
    pub help: Option<String>,
}

#[derive(Debug, Clone)]
pub struct FindingLocation {
    pub primary: Option<Span>,
    pub secondary: Vec<Span>,
}

#[derive(Debug, Clone)]
pub struct FindingMetadata {
    pub evidence: Option<String>,
    pub confidence: Option<String>,
    pub tags: Vec<String>,
}

#[derive(Debug, Clone)]
pub struct FindingRelated {
    pub labels: Vec<FindingLabel>,
    pub notes: Vec<FindingNote>,
    pub fixes: Vec<Fix>,
}

/// One diagnostic produced by a rule or an adapter.
#[derive(Debug, Clone)]
pub struct Finding {
    pub identity: FindingIdentity,
    pub diagnostic: FindingDiagnostic,
    pub location: FindingLocation,
    pub metadata: FindingMetadata,
    pub related: FindingRelated,
}

impl Finding {
    /// The finding's rule id, severity and message, with every other part empty.
    pub open spec fn is_bare(self) -> bool {
        &&& self.identity.family is None
        &&& self.identity.engine is None
        &&& self.diagnostic.help is None
        &&& self.location.primary is None
        &&& self.location.secondary@.len() == 0
        &&& self.metadata.evidence is None
        &&& self.metadata.confidence is None
        &&& self.metadata.tags@.len() == 0
        &&& self.related.labels@.len() == 0
        &&& self.related.notes@.len() == 0
        &&& self.related.fixes@.len() == 0
    }

    pub fn new(rule_id: String, severity: Severity, message: String) -> (r: Finding)
        ensures
            r.identity.rule_id == rule_id,
            r.diagnostic.severity == severity,
            r.diagnostic.message == message,
            r.is_bare(),
    {
        Finding {
            identity: FindingIdentity { rule_id, family: None, engine: None },
            diagnostic: FindingDiagnostic { severity, message, help: None },
            location: FindingLocation { primary: None, secondary: Vec::new() },
            metadata: FindingMetadata { evidence: None, confidence: None, tags: Vec::new() },
            related: FindingRelated { labels: Vec::new(), notes: Vec::new(), fixes: Vec::new() },
        }
    }

    /// A finding of the rule `rule_info`, tagged with its family and backend.
    pub fn from_rule(rule_info: RuleInfo, severity: Severity, message: String) -> (r: Finding)
        ensures
            r.identity.rule_id@ == rule_info.id@,
            r.identity.family == Some(rule_info.family),
            r.identity.engine == Some(rule_info.backend),
            r.diagnostic.severity == severity,
            r.diagnostic.message == message,
            r.diagnostic.help is None,
            r.location.primary is None,
            r.location.secondary@.len() == 0,
            r.metadata.evidence is None,
            r.metadata.confidence is None,
            r.metadata.tags@.len() == 0,
            r.related.labels@.len() == 0,
            r.related.notes@.len() == 0,
            r.related.fixes@.len() == 0,
            r@ == rule_finding_view(rule_info, severity, message@),
    {
        let r = Finding::new(rule_info.id.to_owned(), severity, message).with_engine(
            rule_info.family,
            rule_info.backend,
        );
        assert(r@.secondary =~= Seq::<SpanView>::empty());
        assert(r@.tags =~= Seq::<Seq<char>>::empty());
        assert(r@.labels =~= Seq::<LabelView>::empty());
        assert(r@.notes =~= Seq::<NoteView>::empty());
        assert(r@.fixes =~= Seq::<FixView>::empty());
        r
    }

    pub fn with_engine(self, family: RuleFamily, backend: RuleBackend) -> (r: Finding)
        ensures
            r == finding_after(self, FindingStep::Engine(family, backend)),
            r == (Finding {
                identity: FindingIdentity {
                    family: Some(family),
                    engine: Some(backend),
                    ..self.identity
                },
                ..self
            }),
    {
        let mut s = self;
        s.identity.family = Some(family);
        s.identity.engine = Some(backend);
        s
    }

    pub fn with_backend(self, backend: RuleBackend) -> (r: Finding)
        ensures
            r == finding_after(self, FindingStep::Backend(backend)),
            r == (Finding {
                identity: FindingIdentity { engine: Some(backend), ..self.identity },
                ..self
            }),
    {
        let mut s = self;
        s.identity.engine = Some(backend);
        s
    }

    pub fn with_primary(self, primary: Span) -> (r: Finding)
        ensures
            r == finding_after(self, FindingStep::Primary(primary)),
            r == (Finding {
                location: FindingLocation { primary: Some(primary), ..self.location },
                ..self
            }),
    {
        let mut s = self;
        s.location.primary = Some(primary);
        s
    }

    pub fn with_secondary(self, secondary: Vec<Span>) -> (r: Finding)
        ensures
            r == finding_after(self, FindingStep::Secondary(secondary)),
            r == (Finding {
                location: FindingLocation { secondary: secondary, ..self.location },
                ..self
            }),
    {
        let mut s = self;
        s.location.secondary = secondary;
        s
    }

    pub fn with_help(self, help: String) -> (r: Finding)
        ensures
            r == finding_after(self, FindingStep::Help(help)),
            r == (Finding {
                diagnostic: FindingDiagnostic { help: Some(help), ..self.diagnostic },
                ..self
            }),
    {
        let mut s = self;
        s.diagnostic.help = Some(help);
        s
    }

    pub fn with_evidence(self, evidence: String) -> (r: Finding)
        ensures
            r == finding_after(self, FindingStep::Evidence(evidence)),
            r == (Finding {
                metadata: FindingMetadata { evidence: Some(evidence), ..self.metadata },
                ..self
            }),
    {
        let mut s = self;
        s.metadata.evidence = Some(evidence);
        s
    }

    pub fn with_confidence(self, confidence: String) -> (r: Finding)
        ensures
            r == finding_after(self, FindingStep::Confidence(confidence)),
            r == (Finding {
                metadata: FindingMetadata { confidence: Some(confidence), ..self.metadata },
                ..self
            }),
    {
        let mut s = self;
        s.metadata.confidence = Some(confidence);
        s
    }

    pub fn with_tags(self, tags: Vec<String>) -> (r: Finding)
        ensures
            r == finding_after(self, FindingStep::Tags(tags)),
            r == (Finding { metadata: FindingMetadata { tags: tags, ..self.metadata }, ..self }),
    {
        let mut s = self;
        s.metadata.tags = tags;
        s
    }

    pub fn with_labels(self, labels: Vec<FindingLabel>) -> (r: Finding)
        ensures
            r == finding_after(self, FindingStep::Labels(labels)),
            r == (Finding { related: FindingRelated { labels: labels, ..self.related }, ..self }),
    {
        let mut s = self;
        s.related.labels = labels;
        s
    }

    pub fn with_notes(self, notes: Vec<FindingNote>) -> (r: Finding)
        ensures
            r == finding_after(self, FindingStep::Notes(notes)),
            r == (Finding { related: FindingRelated { notes: notes, ..self.related }, ..self }),
    {
        let mut s = self;
        s.related.notes = notes;
        s
    }

    pub fn with_fixes(self, fixes: Vec<Fix>) -> (r: Finding)
        ensures
            r == finding_after(self, FindingStep::Fixes(fixes)),
            r == (Finding { related: FindingRelated { fixes: fixes, ..self.related }, ..self }),
    {
        let mut s = self;
        s.related.fixes = fixes;
        s
    }

    pub fn rule_id(&self) -> (r: &str)
        ensures
            r@ == self.identity.rule_id@,
    {
        self.identity.rule_id.as_str()
    }

    pub fn severity(&self) -> (r: Severity)
        ensures
            r == self.diagnostic.severity,
    {
        self.diagnostic.severity
    }

    pub fn message(&self) -> (r: &str)
        ensures
            r@ == self.diagnostic.message@,
    {
        self.diagnostic.message.as_str()
    }

    pub fn primary(&self) -> (r: Option<&Span>)
        ensures
            r == match self.location.primary {
                Some(s) => Some(&s),
                None => None::<&Span>,
            },
    {
        match &self.location.primary {
            Some(s) => Some(s),
            None => None,
        }
    }

    pub fn secondary(&self) -> (r: &[Span])
        ensures
            r@ == self.location.secondary@,
    {
        self.location.secondary.as_slice()
    }

    pub fn help(&self) -> (r: Option<&str>)
        ensures
            r is Some == self.diagnostic.help is Some,
            r is Some ==> r->0@ == self.diagnostic.help->0@,
    {
        match &self.diagnostic.help {
            Some(h) => Some(h.as_str()),
            None => None,
        }
    }

    pub fn evidence(&self) -> (r: Option<&str>)
        ensures
            r is Some == self.metadata.evidence is Some,
            r is Some ==> r->0@ == self.metadata.evidence->0@,
    {
        match &self.metadata.evidence {
            Some(h) => Some(h.as_str()),
            None => None,
        }
    }

    pub fn labels(&self) -> (r: &[FindingLabel])
        ensures
            r@ == self.related.labels@,
    {
        self.related.labels.as_slice()
    }

    pub fn notes(&self) -> (r: &[FindingNote])
        ensures
            r@ == self.related.notes@,
    {
        self.related.notes.as_slice()
    }

    pub fn fixes(&self) -> (r: &[Fix])
        ensures
            r@ == self.related.fixes@,
    {
        self.related.fixes.as_slice()
    }
}

/// One call of a `with_` builder of [`Finding`], with its argument.
pub enum FindingStep {
    Engine(RuleFamily, RuleBackend),
    Backend(RuleBackend),
    Primary(Span),
    Secondary(Vec<Span>),
    Help(String),
    Evidence(String),
    Confidence(String),
    Tags(Vec<String>),
    Labels(Vec<FindingLabel>),
    Notes(Vec<FindingNote>),
    Fixes(Vec<Fix>),
}

/// The finding that the builder call `step` makes of `f`.
pub open spec fn finding_after(f: Finding, step: FindingStep) -> Finding {
    match step {
        FindingStep::Engine(family, backend) => Finding {
            identity: FindingIdentity { family: Some(family), engine: Some(backend), ..f.identity },
            ..f
        },
        FindingStep::Backend(backend) => Finding { identity: FindingIdentity { engine: Some(backend), ..f.identity }, ..f },
        FindingStep::Primary(primary) => Finding {
            location: FindingLocation { primary: Some(primary), ..f.location },
            ..f
        },
        FindingStep::Secondary(secondary) => Finding {
            location: FindingLocation { secondary: secondary, ..f.location },
            ..f
        },
        FindingStep::Help(help) => Finding { diagnostic: FindingDiagnostic { help: Some(help), ..f.diagnostic }, ..f },
        FindingStep::Evidence(evidence) => Finding {
            metadata: FindingMetadata { evidence: Some(evidence), ..f.metadata },
            ..f
        },
        FindingStep::Confidence(confidence) => Finding {
            metadata: FindingMetadata { confidence: Some(confidence), ..f.metadata },
            ..f
        },
        FindingStep::Tags(tags) => Finding { metadata: FindingMetadata { tags: tags, ..f.metadata }, ..f },
        FindingStep::Labels(labels) => Finding { related: FindingRelated { labels: labels, ..f.related }, ..f },
        FindingStep::Notes(notes) => Finding { related: FindingRelated { notes: notes, ..f.related }, ..f },
        FindingStep::Fixes(fixes) => Finding { related: FindingRelated { fixes: fixes, ..f.related }, ..f },
    }
}

/// The finding that the builder calls `steps`, in order, make of `f`.
pub open spec fn finding_after_all(f: Finding, steps: Seq<FindingStep>) -> Finding
    decreases steps.len(),
{
    if steps.len() == 0 {
        f
    } else {
        finding_after(finding_after_all(f, steps.drop_last()), steps.last())
    }
}

/// No chain of builder calls changes a finding's rule id, its severity or
/// its message.
pub proof fn builders_keep_rule_id(f: Finding, steps: Seq<FindingStep>)
    ensures
        finding_after_all(f, steps).identity.rule_id == f.identity.rule_id,
        finding_after_all(f, steps).diagnostic.severity == f.diagnostic.severity,
        finding_after_all(f, steps).diagnostic.message == f.diagnostic.message,
    decreases steps.len(),
{
    if steps.len() > 0 {
        builders_keep_rule_id(f, steps.drop_last());
    }
}

/// One rule as listed in a report's catalogue.
#[derive(Debug, Clone)]
pub struct RuleCatalogEntry {
    pub id: String,
    pub family: RuleFamily,
    pub backend: RuleBackend,
    pub default_level: Level,
    pub summary: String,
    pub fixable: bool,
}

#[derive(Debug, Clone)]
pub struct AdapterRun {
    pub name: String,
    pub enabled: bool,
    pub toolchain: Option<String>,
    pub status: Option<String>,
}

#[derive(Debug, Clone)]
pub struct ToolchainSummary {
    pub requested: String,
    pub resolved: String,
    pub semantic: String,
    pub nightly_available: bool,
    pub reason: Option<String>,
}

#[derive(Debug, Clone)]
pub struct RunSummary {
    pub engine_used: Vec<RuleBackend>,
    pub semantic_backend_available: bool,
    pub semantic_backend_reason: Option<String>,
    pub toolchain: Option<ToolchainSummary>,
    pub skipped_rules: Vec<String>,
    pub adapter_runs: Vec<AdapterRun>,
}

impl RunSummary {
    /// A summary with nothing recorded.
    pub fn empty() -> (r: RunSummary)
        ensures
            r.engine_used@.len() == 0,
            !r.semantic_backend_available,
            r.semantic_backend_reason is None,
            r.toolchain is None,
            r.skipped_rules@.len() == 0,
            r.adapter_runs@.len() == 0,
    {
        RunSummary {
            engine_used: Vec::new(),
            semantic_backend_available: false,
            semantic_backend_reason: None,
            toolchain: None,
            skipped_rules: Vec::new(),
            adapter_runs: Vec::new(),
        }
    }
}

#[derive(Debug, Clone)]
pub struct Metrics {
    pub per_file: Vec<FileMetrics>,
}

/// Complexity figures of one file.
#[derive(Debug, Clone)]
pub struct FileMetrics {
    pub path: String,
    pub cyclomatic_sum: u32,
    pub cyclomatic_max_fn: u32,
}

/// The result of one check run.
#[derive(Debug, Clone)]
pub struct Report {
    pub findings: Vec<Finding>,
    pub metrics: Metrics,
    pub rule_catalog: Vec<RuleCatalogEntry>,
    pub summary: RunSummary,
}

/// The most serious severity among `findings`, `Info` when there is none.
pub open spec fn worst_of(findings: Seq<Finding>) -> Severity
    decreases findings.len(),
{
    if findings.len() == 0 {
        Severity::Info
    } else {
        let rest = worst_of(findings.drop_last());
        let last = findings.last().diagnostic.severity;
        if severity_rank(last) >= severity_rank(rest) {
            last
        } else {
            rest
        }
    }
}

impl Report {
    /// A report with no findings, metrics, catalogue or summary entries.
    pub fn empty() -> (r: Report)
        ensures
            r.findings@.len() == 0,
            r.metrics.per_file@.len() == 0,
            r.rule_catalog@.len() == 0,
            r.summary.engine_used@.len() == 0,
            !r.summary.semantic_backend_available,
            r.summary.semantic_backend_reason is None,
            r.summary.toolchain is None,
            r.summary.skipped_rules@.len() == 0,
            r.summary.adapter_runs@.len() == 0,
    {
        Report {
            findings: Vec::new(),
            metrics: Metrics { per_file: Vec::new() },
            rule_catalog: Vec::new(),
            summary: RunSummary::empty(),
        }
    }

    /// The most serious severity among the findings; it decides the exit code.
    pub fn worst_severity(&self) -> (r: Severity)
        ensures
            r == worst_of(self.findings@),
    {
        let mut worst = Severity::Info;
        let mut i: usize = 0;
        while i < self.findings.len()
            invariant
                i <= self.findings.len(),
                worst == worst_of(self.findings@.take(i as int)),
            decreases self.findings.len() - i,
        {
            assert(self.findings@.take(i + 1).drop_last() =~= self.findings@.take(i as int));
            let s = self.findings[i].severity();
            if s.exit_code() >= worst.exit_code() {
                worst = s;
            }
            i = i + 1;
        }
        assert(self.findings@.take(i as int) =~= self.findings@);
        worst
    }
}

/// No finding is more serious than the worst severity, and the worst severity
/// is `Info` or the severity of some finding.
pub proof fn worst_severity_bounds(findings: Seq<Finding>)
    ensures
        forall|i: int|
            0 <= i < findings.len() ==> severity_rank(#[trigger] findings[i].diagnostic.severity)
                <= severity_rank(worst_of(findings)),
        worst_of(findings) == Severity::Info || exists|i: int|
            0 <= i < findings.len() && findings[i].diagnostic.severity == worst_of(findings),
    decreases findings.len(),
{
    if findings.len() > 0 {
        let rest = findings.drop_last();
        worst_severity_bounds(rest);
        assert forall|i: int| 0 <= i < findings.len() implies severity_rank(
            #[trigger] findings[i].diagnostic.severity,
        ) <= severity_rank(worst_of(findings)) by {
            if i < findings.len() - 1 {
                assert(findings[i] == rest[i]);
            }
        }
        if worst_of(findings) != Severity::Info {
            if worst_of(findings) == findings.last().diagnostic.severity {
                assert(findings[findings.len() - 1].diagnostic.severity == worst_of(findings));
            } else {
                let k = choose|k: int| 0 <= k < rest.len() && rest[k].diagnostic.severity == worst_of(rest);
                assert(findings[k] == rest[k]);
            }
        }
    }
}

// ---------------------------------------------------------------------------
// Findings as mathematical values
// ---------------------------------------------------------------------------

/// A span as a value: file, start, end.
pub type SpanView = (Seq<char>, Location, Location);

/// A label as a value: kind, span, message.
pub type LabelView = (FindingLabelKind, SpanView, Option<Seq<char>>);

/// A note as a value: kind, message.
pub type NoteView = (FindingNoteKind, Seq<char>);

/// An edit as a value: file, start, end, replacement.
pub type EditView = (Seq<char>, u32, u32, Seq<char>);

/// A fix as a value: id, safety, message, edits.
pub type FixView = (Seq<char>, FixSafety, Seq<char>, Seq<EditView>);

pub open spec fn span_v(s: Span) -> SpanView {
    (s.file@, s.start, s.end)
}

pub open spec fn opt_text(o: Option<String>) -> Option<Seq<char>> {
    match o {
        Some(s) => Some(s@),
        None => None,
    }
}

pub open spec fn opt_span(o: Option<Span>) -> Option<SpanView> {
    match o {
        Some(s) => Some(span_v(s)),
        None => None,
    }
}

pub open spec fn label_v(l: FindingLabel) -> LabelView {
    (l.kind, span_v(l.span), opt_text(l.message))
}

pub open spec fn note_v(n: FindingNote) -> NoteView {
    (n.kind, n.message@)
}

pub open spec fn edit_v(e: TextEdit) -> EditView {
    (e.file@, e.byte_start, e.byte_end, e.replacement@)
}

pub open spec fn fix_v(f: Fix) -> FixView {
    (f.id@, f.safety, f.message@, f.edits@.map_values(|e: TextEdit| edit_v(e)))
}

/// Everything a finding says, as a value.
pub struct FindingView {
    pub rule_id: Seq<char>,
    pub family: Option<RuleFamily>,
    pub engine: Option<RuleBackend>,
    pub severity: Severity,
    pub message: Seq<char>,
    pub help: Option<Seq<char>>,
    pub primary: Option<SpanView>,
    pub secondary: Seq<SpanView>,
    pub evidence: Option<Seq<char>>,
    pub confidence: Option<Seq<char>>,
    pub tags: Seq<Seq<char>>,
    pub labels: Seq<LabelView>,
    pub notes: Seq<NoteView>,
    pub fixes: Seq<FixView>,
}

impl View for Finding {
    type V = FindingView;

    open spec fn view(&self) -> FindingView {
        FindingView {
            rule_id: self.identity.rule_id@,
            family: self.identity.family,
            engine: self.identity.engine,
            severity: self.diagnostic.severity,
            message: self.diagnostic.message@,
            help: opt_text(self.diagnostic.help),
            primary: opt_span(self.location.primary),
            secondary: self.location.secondary@.map_values(|s: Span| span_v(s)),
            evidence: opt_text(self.metadata.evidence),
            confidence: opt_text(self.metadata.confidence),
            tags: self.metadata.tags@.map_values(|t: String| t@),
            labels: self.related.labels@.map_values(|l: FindingLabel| label_v(l)),
            notes: self.related.notes@.map_values(|n: FindingNote| note_v(n)),
            fixes: self.related.fixes@.map_values(|f: Fix| fix_v(f)),
        }
    }
}

/// A finding of the rule `info` with nothing but its rule, severity and message.
pub open spec fn rule_finding_view(info: RuleInfo, severity: Severity, message: Seq<char>) -> FindingView {
    FindingView {
        rule_id: info.id@,
        family: Some(info.family),
        engine: Some(info.backend),
        severity,
        message,
        help: None,
        primary: None,
        secondary: Seq::empty(),
        evidence: None,
        confidence: None,
        tags: Seq::empty(),
        labels: Seq::empty(),
        notes: Seq::empty(),
        fixes: Seq::empty(),
    }
}

} // verus!

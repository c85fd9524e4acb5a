//! The plain-text form of a report.
//!
//! A finding whose labels point into readable source files is shown as a
//! snippet; the library decides which snippets, labels, byte ranges and
//! suggested patches a finding shows, and the caller draws them. A finding
//! with nothing to show falls back to a single line.
use vstd::prelude::*;
use vstd::string::*;
use vstd::utf8::is_char_boundary;
use crate::config::value::str_eq;
use crate::report::{
    Finding, FindingLabel, FindingLabelKind, FindingNote, FindingNoteKind, FindingView, Fix, FixSafety, FixView,
    LabelView, NoteView, Report, Severity, SpanView, ToolchainSummary, label_v, note_v, opt_text, span_v,
};
use crate::span::Span;
use crate::text::{decimal, u64_to_string};
use crate::fix::{line_col_offset, line_col_to_byte_offset, utf8};
use crate::sorted::{sorted_distinct, strictly_sorted};
use crate::draw::{drawable_group, edits_drawable, groups_drawable, patch_group, render_groups, rendered_groups, suggestion_group, title_group, titled_group};
use annotate_snippets::Group;

verus! {

/// What the caller could read of one file named by a finding: its text, if
/// it could be read, and the path to show for it.
#[derive(Debug)]
pub struct SourceText {
    pub file: String,
    pub text: Option<String>,
    pub display_path: String,
}

/// The text and display path of `file`: from the first entry for it, `None`
/// when there is none or it could not be read.
pub open spec fn source_from(s: Seq<SourceText>, file: Seq<char>) -> Option<(Seq<char>, Seq<char>)>
    decreases s.len(),
{
    if s.len() == 0 {
        None
    } else if s[0].file@ == file {
        match s[0].text {
            Some(t) => Some((t@, s[0].display_path@)),
            None => None,
        }
    } else {
        source_from(s.drop_first(), file)
    }
}

fn find_source<'a>(sources: &'a Vec<SourceText>, file: &str) -> (r: Option<(&'a String, &'a String)>)
    ensures
        match source_from(sources@, file@) {
            Some(p) => r matches Some(q) && q.0@ == p.0 && q.1@ == p.1,
            None => r is None,
        },
{
    let mut i: usize = 0;
    assert(sources@.skip(0) =~= sources@);
    while i < sources.len()
        invariant
            i <= sources@.len(),
            source_from(sources@, file@) == source_from(sources@.skip(i as int), file@),
        decreases sources.len() - i,
    {
        assert(sources@.skip(i as int).drop_first() =~= sources@.skip(i + 1));
        assert(sources@.skip(i as int)[0] == sources@[i as int]);
        if str_eq(sources[i].file.as_str(), file) {
            return match &sources[i].text {
                Some(t) => Some((t, &sources[i].display_path)),
                None => None,
            };
        }
        i = i + 1;
    }
    None
}

// ---------------------------------------------------------------------------
// Labels
// ---------------------------------------------------------------------------

/// The labels a finding is drawn with: its own labels, or else its primary
/// span labelled with its message followed by its secondary spans.
pub open spec fn normalized(f: FindingView) -> Seq<LabelView> {
    if f.labels.len() > 0 {
        f.labels
    } else {
        (match f.primary {
            Some(p) => seq![(FindingLabelKind::Primary, p, Some(f.message))],
            None => Seq::empty(),
        }) + f.secondary.map_values(|s: SpanView| (FindingLabelKind::Secondary, s, None::<Seq<char>>))
    }
}

fn copy_label(l: &FindingLabel) -> (r: FindingLabel)
    ensures
        label_v(r) == label_v(*l),
{
    FindingLabel {
        kind: l.kind,
        span: l.span.duplicate(),
        message: match &l.message {
            Some(m) => Some(m.clone()),
            None => None,
        },
    }
}

pub fn normalize_labels(f: &Finding) -> (r: Vec<FindingLabel>)
    ensures
        r@.map_values(|l: FindingLabel| label_v(l)) == normalized(f@),
{
    let own = f.labels();
    let mut out: Vec<FindingLabel> = Vec::new();
    if own.len() > 0 {
        let mut i: usize = 0;
        while i < own.len()
            invariant
                i <= own@.len(),
                own@ == f.related.labels@,
                out@.map_values(|l: FindingLabel| label_v(l)) == own@.map_values(|l: FindingLabel| label_v(l)).take(
                    i as int,
                ),
            decreases own.len() - i,
        {
            let ghost before = out@.map_values(|l: FindingLabel| label_v(l));
            let l = copy_label(&own[i]);
            out.push(l);
            assert(out@.map_values(|l: FindingLabel| label_v(l)) =~= before.push(label_v(l)));
            assert(own@.map_values(|l: FindingLabel| label_v(l)).take(i + 1) =~= own@.map_values(
                |l: FindingLabel| label_v(l),
            ).take(i as int).push(label_v(own@[i as int])));
            i = i + 1;
        }
        assert(own@.map_values(|l: FindingLabel| label_v(l)).take(own@.len() as int) =~= own@.map_values(
            |l: FindingLabel| label_v(l),
        ));
        return out;
    }
    match f.primary() {
        Some(p) => {
            let l = FindingLabel {
                kind: FindingLabelKind::Primary,
                span: p.duplicate(),
                message: Some(f.message().to_owned()),
            };
            out.push(l);
        },
        None => {},
    }
    let ghost head = out@.map_values(|l: FindingLabel| label_v(l));
    let secondary = f.secondary();
    let ghost sv = f@.secondary.map_values(|s: SpanView| (FindingLabelKind::Secondary, s, None::<Seq<char>>));
    let mut k: usize = 0;
    while k < secondary.len()
        invariant
            k <= secondary@.len(),
            secondary@ == f.location.secondary@,
            sv == f@.secondary.map_values(|s: SpanView| (FindingLabelKind::Secondary, s, None::<Seq<char>>)),
            f@.secondary == f.location.secondary@.map_values(|s: Span| span_v(s)),
            out@.map_values(|l: FindingLabel| label_v(l)) == head + sv.take(k as int),
        decreases secondary.len() - k,
    {
        let ghost before = out@.map_values(|l: FindingLabel| label_v(l));
        let l = FindingLabel { kind: FindingLabelKind::Secondary, span: secondary[k].duplicate(), message: None };
        out.push(l);
        assert(out@.map_values(|l: FindingLabel| label_v(l)) =~= before.push(label_v(l)));
        assert(sv.take(k + 1) =~= sv.take(k as int).push(sv[k as int]));
        k = k + 1;
    }
    assert(sv.take(sv.len() as int) =~= sv);
    assert(out@.map_values(|l: FindingLabel| label_v(l)) =~= normalized(f@));
    out
}

// ---------------------------------------------------------------------------
// Lines of text
// ---------------------------------------------------------------------------

pub open spec fn severity_word(s: Severity) -> Seq<char> {
    match s {
        Severity::Info => "info"@,
        Severity::Warn => "warning"@,
        Severity::Deny => "error"@,
    }
}

/// The one line shown for a finding that has no snippet to show.
pub open spec fn fallback_text(f: FindingView) -> Seq<char> {
    severity_word(f.severity) + "["@ + f.rule_id + "]: "@ + f.message + match f.primary {
        Some(p) => " at "@ + p.0 + ":"@ + decimal(p.1.line as nat) + ":"@ + decimal(p.1.column as nat),
        None => Seq::empty(),
    } + "\n"@
}

pub fn fallback_line(f: &Finding) -> (r: String)
    ensures
        r@ == fallback_text(f@),
{
    let mut out = String::new();
    out.append(
        match f.severity() {
            Severity::Info => "info",
            Severity::Warn => "warning",
            Severity::Deny => "error",
        },
    );
    out.append("[");
    out.append(f.rule_id());
    out.append("]: ");
    out.append(f.message());
    match f.primary() {
        Some(span) => {
            out.append(" at ");
            out.append(span.file.as_str());
            out.append(":");
            out.append(u64_to_string(span.start.line as u64).as_str());
            out.append(":");
            out.append(u64_to_string(span.start.column as u64).as_str());
        },
        None => {},
    }
    out.append("\n");
    assert(out@ =~= fallback_text(f@));
    out
}

/// The title of a finding's snippet: `[rule] message`.
pub open spec fn title_text(f: FindingView) -> Seq<char> {
    "["@ + f.rule_id + "] "@ + f.message
}

pub fn snippet_title(f: &Finding) -> (r: String)
    ensures
        r@ == title_text(f@),
{
    let mut out = String::new();
    out.append("[");
    out.append(f.rule_id());
    out.append("] ");
    out.append(f.message());
    out
}

pub open spec fn note_prefix(k: FindingNoteKind) -> Seq<char> {
    match k {
        FindingNoteKind::Help => "help"@,
        FindingNoteKind::Note => "note"@,
        FindingNoteKind::Info => "info"@,
    }
}

pub open spec fn note_lines(ns: Seq<NoteView>) -> Seq<char>
    decreases ns.len(),
{
    if ns.len() == 0 {
        Seq::empty()
    } else {
        note_lines(ns.drop_last()) + note_prefix(ns.last().0) + ": "@ + ns.last().1 + "\n"@
    }
}

pub open spec fn safety_word(s: FixSafety) -> Seq<char> {
    match s {
        FixSafety::Safe => "safe"@,
        FixSafety::Unsafe => "unsafe"@,
    }
}

pub open spec fn fix_lines(fs: Seq<FixView>) -> Seq<char>
    decreases fs.len(),
{
    if fs.len() == 0 {
        Seq::empty()
    } else {
        fix_lines(fs.drop_last()) + "suggestion["@ + safety_word(fs.last().1) + "]: "@ + fs.last().2 + "\n"@
    }
}

pub open spec fn optional_line(prefix: Seq<char>, o: Option<Seq<char>>) -> Seq<char> {
    match o {
        Some(t) => prefix + t + "\n"@,
        None => Seq::empty(),
    }
}

/// The lines under a finding's snippet: its help, evidence and confidence,
/// then a line per note and a line per fix.
pub open spec fn notes_text(f: FindingView) -> Seq<char> {
    optional_line("help: "@, f.help) + optional_line("note: "@, f.evidence) + optional_line(
        "info: confidence="@,
        f.confidence,
    ) + note_lines(f.notes) + fix_lines(f.fixes)
}

fn append_optional_line(out: &mut String, prefix: &str, o: Option<&str>)
    ensures
        final(out)@ == old(out)@ + optional_line(
            prefix@,
            match o {
                Some(t) => Some(t@),
                None => None,
            },
        ),
{
    match o {
        Some(t) => {
            out.append(prefix);
            out.append(t);
            out.append("\n");
        },
        None => {},
    }
}

#[verifier::rlimit(30)]
pub fn append_text_notes(out: &mut String, f: &Finding)
    ensures
        final(out)@ == old(out)@ + notes_text(f@),
{
    let ghost start = out@;
    append_optional_line(out, "help: ", f.help());
    append_optional_line(out, "note: ", f.evidence());
    let confidence = match &f.metadata.confidence {
        Some(c) => Some(c.as_str()),
        None => None,
    };
    append_optional_line(out, "info: confidence=", confidence);
    let ghost mid = out@;
    let notes = f.notes();
    let ghost nv = notes@.map_values(|n: FindingNote| note_v(n));
    let mut i: usize = 0;
    while i < notes.len()
        invariant
            i <= notes@.len(),
            nv == notes@.map_values(|n: FindingNote| note_v(n)),
            out@ == mid + note_lines(nv.take(i as int)),
        decreases notes.len() - i,
    {
        assert(nv.take(i + 1).drop_last() =~= nv.take(i as int));
        out.append(
            match notes[i].kind {
                FindingNoteKind::Help => "help",
                FindingNoteKind::Note => "note",
                FindingNoteKind::Info => "info",
            },
        );
        out.append(": ");
        out.append(notes[i].message.as_str());
        out.append("\n");
        assert(out@ =~= mid + note_lines(nv.take(i + 1)));
        i = i + 1;
    }
    assert(nv.take(nv.len() as int) =~= nv);
    let ghost mid2 = out@;
    let fixes = f.fixes();
    let ghost fv = fixes@.map_values(|x: Fix| crate::report::fix_v(x));
    let mut k: usize = 0;
    while k < fixes.len()
        invariant
            k <= fixes@.len(),
            fv == fixes@.map_values(|x: Fix| crate::report::fix_v(x)),
            out@ == mid2 + fix_lines(fv.take(k as int)),
        decreases fixes.len() - k,
    {
        assert(fv.take(k + 1).drop_last() =~= fv.take(k as int));
        out.append("suggestion[");
        out.append(
            match fixes[k].safety {
                FixSafety::Safe => "safe",
                FixSafety::Unsafe => "unsafe",
            },
        );
        out.append("]: ");
        out.append(fixes[k].message.as_str());
        out.append("\n");
        assert(out@ =~= mid2 + fix_lines(fv.take(k + 1)));
        k = k + 1;
    }
    assert(fv.take(fv.len() as int) =~= fv);
    assert(out@ =~= start + notes_text(f@));
}

// ---------------------------------------------------------------------------
// The whole report
// ---------------------------------------------------------------------------

/// The drawn snippet of finding `i`, if the caller drew one.
pub open spec fn drawn_at(rendered: Seq<Option<String>>, i: int) -> Option<Seq<char>> {
    if 0 <= i < rendered.len() {
        opt_text(rendered[i])
    } else {
        None
    }
}

/// A finding's text: its drawn snippet followed by its notes, or the
/// fallback line when nothing was drawn.
pub open spec fn finding_text(f: FindingView, drawn: Option<Seq<char>>) -> Seq<char> {
    match drawn {
        Some(t) => t + notes_text(f),
        None => fallback_text(f),
    }
}

pub open spec fn findings_text(fs: Seq<FindingView>, rendered: Seq<Option<String>>) -> Seq<char>
    decreases fs.len(),
{
    if fs.len() == 0 {
        Seq::empty()
    } else {
        findings_text(fs.drop_last(), rendered) + finding_text(fs.last(), drawn_at(rendered, fs.len() - 1))
            + "\n"@
    }
}

pub open spec fn bool_text(b: bool) -> Seq<char> {
    if b {
        "true"@
    } else {
        "false"@
    }
}

/// The toolchain lines: what was requested and resolved, and the reason
/// semantic analysis is unavailable, if one is given.
pub open spec fn toolchain_text(t: Option<ToolchainSummary>) -> Seq<char> {
    match t {
        Some(t) => "toolchain: requested="@ + t.requested@ + ", resolved="@ + t.resolved@ + ", semantic="@
            + t.semantic@ + ", nightly_available="@ + bool_text(t.nightly_available) + "\n"@ + optional_line(
            "note: "@,
            opt_text(t.reason),
        ),
        None => Seq::empty(),
    }
}

pub open spec fn rule_lines(rs: Seq<Seq<char>>) -> Seq<char>
    decreases rs.len(),
{
    if rs.len() == 0 {
        Seq::empty()
    } else {
        rule_lines(rs.drop_last()) + "- "@ + rs.last() + "\n"@
    }
}

pub open spec fn skipped_text(rs: Seq<Seq<char>>) -> Seq<char> {
    if rs.len() == 0 {
        Seq::empty()
    } else {
        "\nskipped semantic rules:\n"@ + rule_lines(rs)
    }
}

/// The text of a report.
pub open spec fn report_text(r: Report, rendered: Seq<Option<String>>) -> Seq<char> {
    findings_text(r.findings@.map_values(|f: Finding| f@), rendered) + toolchain_text(r.summary.toolchain)
        + skipped_text(r.summary.skipped_rules@.map_values(|s: String| s@))
}

fn append_toolchain(out: &mut String, t: &Option<ToolchainSummary>)
    ensures
        final(out)@ == old(out)@ + toolchain_text(*t),
{
    match t {
        Some(t) => {
            out.append("toolchain: requested=");
            out.append(t.requested.as_str());
            out.append(", resolved=");
            out.append(t.resolved.as_str());
            out.append(", semantic=");
            out.append(t.semantic.as_str());
            out.append(", nightly_available=");
            out.append(
                if t.nightly_available {
                    "true"
                } else {
                    "false"
                },
            );
            out.append("\n");
            let reason = match &t.reason {
                Some(m) => Some(m.as_str()),
                None => None,
            };
            append_optional_line(out, "note: ", reason);
        },
        None => {},
    }
}

fn append_skipped(out: &mut String, rules: &Vec<String>)
    ensures
        final(out)@ == old(out)@ + skipped_text(rules@.map_values(|s: String| s@)),
{
    let ghost rv = rules@.map_values(|s: String| s@);
    if rules.len() == 0 {
        return;
    }
    out.append("\nskipped semantic rules:\n");
    let ghost mid = out@;
    let mut i: usize = 0;
    while i < rules.len()
        invariant
            i <= rules@.len(),
            rv == rules@.map_values(|s: String| s@),
            out@ == mid + rule_lines(rv.take(i as int)),
        decreases rules.len() - i,
    {
        assert(rv.take(i + 1).drop_last() =~= rv.take(i as int));
        out.append("- ");
        out.append(rules[i].as_str());
        out.append("\n");
        assert(out@ =~= mid + rule_lines(rv.take(i + 1)));
        i = i + 1;
    }
    assert(rv.take(rv.len() as int) =~= rv);
}

/// The report as text: each finding, as its drawn snippet and notes or as its
/// fallback line, then the toolchain lines and the skipped semantic rules.
/// `rendered[i]` is the snippet drawn for finding `i` from its snippet groups
/// and patch groups, `None` when it has no snippet group.
pub fn render_drawn_report(report: &Report, rendered: &Vec<Option<String>>) -> (r: String)
    ensures
        r@ == report_text(*report, rendered@),
{
    let ghost fs = report.findings@.map_values(|f: Finding| f@);
    let mut out = String::new();
    let mut i: usize = 0;
    while i < report.findings.len()
        invariant
            i <= report.findings@.len(),
            fs == report.findings@.map_values(|f: Finding| f@),
            out@ == findings_text(fs.take(i as int), rendered@),
        decreases report.findings.len() - i,
    {
        assert(fs.take(i + 1).drop_last() =~= fs.take(i as int));
        let f = &report.findings[i];
        let drawn: Option<&String> = if i < rendered.len() {
            match &rendered[i] {
                Some(t) => Some(t),
                None => None,
            }
        } else {
            None
        };
        match drawn {
            Some(t) => {
                out.append(t.as_str());
                append_text_notes(&mut out, f);
            },
            None => {
                out.append(fallback_line(f).as_str());
            },
        }
        out.append("\n");
        assert(out@ =~= findings_text(fs.take(i + 1), rendered@));
        i = i + 1;
    }
    assert(fs.take(fs.len() as int) =~= fs);
    append_toolchain(&mut out, &report.summary.toolchain);
    append_skipped(&mut out, &report.summary.skipped_rules);
    out
}

// ---------------------------------------------------------------------------
// Snippets and patches
// ---------------------------------------------------------------------------

/// A label placed in its file's text: its kind, its byte range and its message.
#[derive(Debug)]
pub struct RenderedLabel {
    pub kind: FindingLabelKind,
    pub start: usize,
    pub end: usize,
    pub message: String,
}

/// The labels of one file, with the file's text and the path to show.
#[derive(Debug)]
pub struct RenderedSnippetGroup {
    pub source: String,
    pub display_path: String,
    pub labels: Vec<RenderedLabel>,
}

pub type RenderedLabelView = (FindingLabelKind, int, int, Seq<char>);

pub type GroupView = (Seq<char>, Seq<char>, Seq<RenderedLabelView>);

pub open spec fn rendered_label_v(l: RenderedLabel) -> RenderedLabelView {
    (l.kind, l.start as int, l.end as int, l.message@)
}

pub open spec fn group_v(g: RenderedSnippetGroup) -> GroupView {
    (g.source@, g.display_path@, g.labels@.map_values(|l: RenderedLabel| rendered_label_v(l)))
}

pub open spec fn sat_inc(s: int) -> int {
    if s < usize::MAX {
        s + 1
    } else {
        s
    }
}

/// A byte range that can be drawn in a text with bytes `b`: it starts on a
/// character boundary, and ends on one or one past the end of the text.
pub open spec fn drawable_span(b: Seq<u8>, start: int, end: int) -> bool {
    start <= end && is_char_boundary(b, start) && (end == b.len() + 1 || is_char_boundary(b, end))
}

/// The byte range of a label placed in the text with bytes `b`: from its
/// start to its end, covering at least one byte.
pub open spec fn label_range(l: LabelView, b: Seq<u8>) -> Option<(int, int)> {
    match line_col_offset(b, l.1.1.line, l.1.1.column) {
        Some(s) => match line_col_offset(b, l.1.2.line, l.1.2.column) {
            Some(e) => Some((s, if e >= sat_inc(s) { e } else { sat_inc(s) })),
            None => None,
        },
        None => None,
    }
}

/// A label placed in the text with bytes `b`: `None` when its start or end is
/// not a line and column of the text, or when its range cannot be drawn (a
/// one-byte range grown into the middle of a character). The range covers at
/// least one byte.
pub open spec fn placed_label(l: LabelView, b: Seq<u8>) -> Option<RenderedLabelView> {
    match label_range(l, b) {
        Some((s, e)) => if drawable_span(b, s, e) {
            Some(
                (
                    l.0,
                    s,
                    e,
                    match l.2 {
                        Some(m) => m,
                        None => Seq::empty(),
                    },
                ),
            )
        } else {
            None
        },
        None => None,
    }
}

/// The labels of `file`, in order, placed in its text; those that cannot be
/// placed are left out.
pub open spec fn placed_labels(ls: Seq<LabelView>, file: Seq<char>, b: Seq<u8>) -> Seq<RenderedLabelView>
    decreases ls.len(),
{
    if ls.len() == 0 {
        Seq::empty()
    } else {
        placed_labels(ls.drop_last(), file, b) + if ls.last().1.0 == file {
            match placed_label(ls.last(), b) {
                Some(r) => seq![r],
                None => Seq::empty(),
            }
        } else {
            Seq::empty()
        }
    }
}

/// The snippet group of `file`: none when the file cannot be read or none of
/// its labels can be placed.
pub open spec fn group_for(ls: Seq<LabelView>, sources: Seq<SourceText>, file: Seq<char>) -> Option<GroupView> {
    match source_from(sources, file) {
        Some(p) => {
            let placed = placed_labels(ls, file, utf8(p.0));
            if placed.len() == 0 {
                None
            } else {
                Some((p.0, p.1, placed))
            }
        },
        None => None,
    }
}

pub open spec fn groups_for(files: Seq<Seq<char>>, ls: Seq<LabelView>, sources: Seq<SourceText>) -> Seq<GroupView>
    decreases files.len(),
{
    if files.len() == 0 {
        Seq::empty()
    } else {
        groups_for(files.drop_last(), ls, sources) + match group_for(ls, sources, files.last()) {
            Some(g) => seq![g],
            None => Seq::empty(),
        }
    }
}

/// The files the labels point into.
pub open spec fn label_files(ls: Seq<LabelView>) -> Set<Seq<char>> {
    ls.map_values(|l: LabelView| l.1.0).to_set()
}

fn place_label(l: &FindingLabel, source: &String) -> (r: Option<RenderedLabel>)
    ensures
        match placed_label(label_v(*l), utf8(source@)) {
            Some(p) => r matches Some(q) && rendered_label_v(q) == p,
            None => r is None,
        },
{
    let start = match line_col_to_byte_offset(source.as_str(), l.span.start.line, l.span.start.column) {
        Ok(s) => s,
        Err(_) => return None,
    };
    let end = match line_col_to_byte_offset(source.as_str(), l.span.end.line, l.span.end.column) {
        Ok(e) => e,
        Err(_) => return None,
    };
    let min_end = start.saturating_add(1);
    let end = if end >= min_end {
        end
    } else {
        min_end
    };
    let len = source.as_str().as_bytes().len();
    if !source.as_str().is_char_boundary(start) || !((end > len && end - 1 == len) || source.as_str().is_char_boundary(end)) {
        return None;
    }
    let message = match &l.message {
        Some(m) => m.clone(),
        None => String::new(),
    };
    Some(RenderedLabel { kind: l.kind, start, end, message })
}

fn group_of_file(labels: &Vec<FindingLabel>, sources: &Vec<SourceText>, file: &str) -> (r: Option<RenderedSnippetGroup>)
    ensures
        match group_for(labels@.map_values(|l: FindingLabel| label_v(l)), sources@, file@) {
            Some(g) => r matches Some(q) && group_v(q) == g,
            None => r is None,
        },
{
    let ghost lv = labels@.map_values(|l: FindingLabel| label_v(l));
    let (source, display) = match find_source(sources, file) {
        Some(p) => p,
        None => return None,
    };
    let mut placed: Vec<RenderedLabel> = Vec::new();
    let mut i: usize = 0;
    while i < labels.len()
        invariant
            i <= labels@.len(),
            lv == labels@.map_values(|l: FindingLabel| label_v(l)),
            placed@.map_values(|l: RenderedLabel| rendered_label_v(l)) == placed_labels(
                lv.take(i as int),
                file@,
                utf8(source@),
            ),
        decreases labels.len() - i,
    {
        assert(lv.take(i + 1).drop_last() =~= lv.take(i as int));
        assert(lv.take(i + 1).last() == label_v(labels@[i as int]));
        let ghost before = placed@.map_values(|l: RenderedLabel| rendered_label_v(l));
        if str_eq(labels[i].span.file.as_str(), file) {
            match place_label(&labels[i], source) {
                Some(p) => {
                    let ghost pv = rendered_label_v(p);
                    placed.push(p);
                    assert(placed@.map_values(|l: RenderedLabel| rendered_label_v(l)) =~= before.push(pv));
                },
                None => {},
            }
        }
        assert(placed@.map_values(|l: RenderedLabel| rendered_label_v(l)) =~= placed_labels(
            lv.take(i + 1),
            file@,
            utf8(source@),
        ));
        i = i + 1;
    }
    assert(lv.take(lv.len() as int) =~= lv);
    if placed.len() == 0 {
        None
    } else {
        Some(RenderedSnippetGroup { source: source.clone(), display_path: display.clone(), labels: placed })
    }
}

/// The snippet groups of a finding's labels: one per file that they point
/// into, in sorted order of the file names, for each file that can be read
/// and has a label that can be placed in it.
pub fn build_snippet_groups(labels: &Vec<FindingLabel>, sources: &Vec<SourceText>) -> (r: Vec<RenderedSnippetGroup>)
    ensures
        exists|files: Seq<Seq<char>>|
            strictly_sorted(files) && files.to_set() == label_files(labels@.map_values(|l: FindingLabel| label_v(l)))
                && r@.map_values(|g: RenderedSnippetGroup| group_v(g)) == groups_for(
                files,
                labels@.map_values(|l: FindingLabel| label_v(l)),
                sources@,
            ),
{
    let ghost lv = labels@.map_values(|l: FindingLabel| label_v(l));
    let mut names: Vec<String> = Vec::new();
    let mut i: usize = 0;
    while i < labels.len()
        invariant
            i <= labels@.len(),
            lv == labels@.map_values(|l: FindingLabel| label_v(l)),
            names@.map_values(|s: String| s@) == lv.take(i as int).map_values(|l: LabelView| l.1.0),
        decreases labels.len() - i,
    {
        let ghost before = names@.map_values(|s: String| s@);
        names.push(labels[i].span.file.clone());
        assert(names@.map_values(|s: String| s@) =~= before.push(lv[i as int].1.0));
        assert(lv.take(i + 1).map_values(|l: LabelView| l.1.0) =~= lv.take(i as int).map_values(
            |l: LabelView| l.1.0,
        ).push(lv[i as int].1.0));
        i = i + 1;
    }
    assert(lv.take(lv.len() as int) =~= lv);
    let files = sorted_distinct(&names);
    let ghost fv = files@.map_values(|s: String| s@);
    let mut groups: Vec<RenderedSnippetGroup> = Vec::new();
    let mut k: usize = 0;
    while k < files.len()
        invariant
            k <= files@.len(),
            fv == files@.map_values(|s: String| s@),
            lv == labels@.map_values(|l: FindingLabel| label_v(l)),
            groups@.map_values(|g: RenderedSnippetGroup| group_v(g)) == groups_for(fv.take(k as int), lv, sources@),
        decreases files.len() - k,
    {
        assert(fv.take(k + 1).drop_last() =~= fv.take(k as int));
        let ghost before = groups@.map_values(|g: RenderedSnippetGroup| group_v(g));
        match group_of_file(labels, sources, files[k].as_str()) {
            Some(g) => {
                let ghost gv = group_v(g);
                groups.push(g);
                assert(groups@.map_values(|g: RenderedSnippetGroup| group_v(g)) =~= before.push(gv));
            },
            None => {},
        }
        assert(groups@.map_values(|g: RenderedSnippetGroup| group_v(g)) =~= groups_for(
            fv.take(k + 1),
            lv,
            sources@,
        ));
        k = k + 1;
    }
    assert(fv.take(fv.len() as int) =~= fv);
    groups
}

/// One edit of a suggested patch, in its file's text.
#[derive(Debug)]
pub struct PatchEdit {
    pub source: String,
    pub display_path: String,
    pub start: usize,
    pub end: usize,
    pub replacement: String,
}

/// A fix drawn as a patch: its title and its edits in readable files.
#[derive(Debug)]
pub struct PatchGroup {
    pub title: String,
    pub edits: Vec<PatchEdit>,
}

pub type PatchEditView = (Seq<char>, Seq<char>, int, int, Seq<char>);

pub open spec fn patch_edit_v(e: PatchEdit) -> PatchEditView {
    (e.source@, e.display_path@, e.start as int, e.end as int, e.replacement@)
}

pub open spec fn patch_group_v(g: PatchGroup) -> (Seq<char>, Seq<PatchEditView>) {
    (g.title@, g.edits@.map_values(|e: PatchEdit| patch_edit_v(e)))
}

/// The edits of a fix whose files can be read and whose byte ranges can be
/// drawn in those files.
pub open spec fn patch_edits(es: Seq<crate::report::EditView>, sources: Seq<SourceText>) -> Seq<PatchEditView>
    decreases es.len(),
{
    if es.len() == 0 {
        Seq::empty()
    } else {
        let e = es.last();
        patch_edits(es.drop_last(), sources) + match source_from(sources, e.0) {
            Some(p) => if drawable_span(utf8(p.0), e.1 as int, e.2 as int) {
                seq![(p.0, p.1, e.1 as int, e.2 as int, e.3)]
            } else {
                Seq::empty()
            },
            None => Seq::empty(),
        }
    }
}

/// One patch group per fix, titled `suggestion: <message>`.
pub open spec fn patch_groups(fs: Seq<FixView>, sources: Seq<SourceText>) -> Seq<(Seq<char>, Seq<PatchEditView>)> {
    fs.map_values(|x: FixView| ("suggestion: "@ + x.2, patch_edits(x.3, sources)))
}

/// Whether the byte range `start..end` can be drawn in `source`.
fn drawable_range(source: &String, start: usize, end: usize) -> (r: bool)
    ensures
        r == drawable_span(utf8(source@), start as int, end as int),
{
    let len = source.as_str().as_bytes().len();
    start <= end && source.as_str().is_char_boundary(start) && ((end > len && end - 1 == len)
        || source.as_str().is_char_boundary(end))
}

fn patch_group_of(fix: &Fix, sources: &Vec<SourceText>) -> (r: PatchGroup)
    ensures
        patch_group_v(r) == ("suggestion: "@ + fix.message@, patch_edits(crate::report::fix_v(*fix).3, sources@)),
{
    let ghost ev = crate::report::fix_v(*fix).3;
    let mut title = String::new();
    title.append("suggestion: ");
    title.append(fix.message.as_str());
    let mut edits: Vec<PatchEdit> = Vec::new();
    let mut i: usize = 0;
    while i < fix.edits.len()
        invariant
            i <= fix.edits@.len(),
            ev == fix.edits@.map_values(|e: crate::report::TextEdit| crate::report::edit_v(e)),
            edits@.map_values(|e: PatchEdit| patch_edit_v(e)) == patch_edits(ev.take(i as int), sources@),
        decreases fix.edits.len() - i,
    {
        assert(ev.take(i + 1).drop_last() =~= ev.take(i as int));
        let edit = &fix.edits[i];
        let ghost before = edits@.map_values(|e: PatchEdit| patch_edit_v(e));
        match find_source(sources, edit.file.as_str()) {
            Some((source, display)) => if drawable_range(source, edit.byte_start as usize, edit.byte_end as usize) {
                let pe = PatchEdit {
                    source: source.clone(),
                    display_path: display.clone(),
                    start: edit.byte_start as usize,
                    end: edit.byte_end as usize,
                    replacement: edit.replacement.clone(),
                };
                let ghost pv = patch_edit_v(pe);
                edits.push(pe);
                assert(edits@.map_values(|e: PatchEdit| patch_edit_v(e)) =~= before.push(pv));
            } else {
            },
            None => {},
        }
        assert(edits@.map_values(|e: PatchEdit| patch_edit_v(e)) =~= patch_edits(ev.take(i + 1), sources@));
        i = i + 1;
    }
    assert(ev.take(ev.len() as int) =~= ev);
    PatchGroup { title, edits }
}

/// The patch groups of a finding: one per fix.
pub fn build_patch_groups(f: &Finding, sources: &Vec<SourceText>) -> (r: Vec<PatchGroup>)
    ensures
        r@.map_values(|g: PatchGroup| patch_group_v(g)) == patch_groups(f@.fixes, sources@),
{
    let fixes = f.fixes();
    let ghost want = patch_groups(f@.fixes, sources@);
    let mut out: Vec<PatchGroup> = Vec::new();
    let mut i: usize = 0;
    while i < fixes.len()
        invariant
            i <= fixes@.len(),
            fixes@ == f.related.fixes@,
            want == patch_groups(f@.fixes, sources@),
            out@.map_values(|g: PatchGroup| patch_group_v(g)) == want.take(i as int),
        decreases fixes.len() - i,
    {
        let ghost before = out@.map_values(|g: PatchGroup| patch_group_v(g));
        let g = patch_group_of(&fixes[i], sources);
        let ghost gv = patch_group_v(g);
        out.push(g);
        assert(out@.map_values(|g: PatchGroup| patch_group_v(g)) =~= before.push(gv));
        assert(want.take(i + 1) =~= want.take(i as int).push(want[i as int]));
        i = i + 1;
    }
    assert(want.take(want.len() as int) =~= want);
    out
}


// ---------------------------------------------------------------------------
// Drawing
// ---------------------------------------------------------------------------

proof fn lemma_placed_drawable(ls: Seq<LabelView>, file: Seq<char>, b: Seq<u8>)
    ensures
        forall|j: int|
            0 <= j < placed_labels(ls, file, b).len() ==> drawable_span(
                b,
                #[trigger] placed_labels(ls, file, b)[j].1,
                placed_labels(ls, file, b)[j].2,
            ),
    decreases ls.len(),
{
    if ls.len() > 0 {
        lemma_placed_drawable(ls.drop_last(), file, b);
        let a = placed_labels(ls.drop_last(), file, b);
        let r = placed_labels(ls, file, b);
        assert forall|j: int| 0 <= j < r.len() implies drawable_span(b, #[trigger] r[j].1, r[j].2) by {
            if j < a.len() {
                assert(r[j] == a[j]);
            }
        }
    }
}

proof fn lemma_groups_drawable(files: Seq<Seq<char>>, ls: Seq<LabelView>, sources: Seq<SourceText>)
    ensures
        groups_drawable(groups_for(files, ls, sources)),
    decreases files.len(),
{
    if files.len() > 0 {
        lemma_groups_drawable(files.drop_last(), ls, sources);
        match source_from(sources, files.last()) {
            Some(p) => lemma_placed_drawable(ls, files.last(), utf8(p.0)),
            None => {},
        }
        let a = groups_for(files.drop_last(), ls, sources);
        let r = groups_for(files, ls, sources);
        assert forall|i: int, j: int| 0 <= i < r.len() && 0 <= j < r[i].2.len() implies drawable_span(
            utf8(r[i].0),
            #[trigger] r[i].2[j].1,
            r[i].2[j].2,
        ) by {
            if i < a.len() {
                assert(r[i] == a[i]);
            }
        }
    }
}

proof fn lemma_patch_edits_drawable(es: Seq<crate::report::EditView>, sources: Seq<SourceText>)
    ensures
        edits_drawable(patch_edits(es, sources)),
    decreases es.len(),
{
    if es.len() > 0 {
        lemma_patch_edits_drawable(es.drop_last(), sources);
        let a = patch_edits(es.drop_last(), sources);
        let r = patch_edits(es, sources);
        assert forall|i: int| 0 <= i < r.len() implies drawable_span(utf8(#[trigger] r[i].0), r[i].2, r[i].3) by {
            if i < a.len() {
                assert(r[i] == a[i]);
            }
        }
    }
}

/// The groups drawn for finding `f` whose labels form the snippet groups
/// `gs`: its message group, then one group per fix.
pub open spec fn finding_groups(f: FindingView, gs: Seq<GroupView>, sources: Seq<SourceText>) -> Seq<Group<'static>> {
    seq![titled_group(f.severity, title_text(f), gs)] + patch_groups(f.fixes, sources).map_values(
        |p: (Seq<char>, Seq<PatchEditView>)| suggestion_group(f.severity, p.0, p.1),
    )
}

/// `d` is what is drawn for finding `f`: nothing when none of its labels can
/// be placed in a readable file, else the renderer's drawing of its snippet
/// groups (by file, in sorted order) and of its patch groups.
pub open spec fn is_drawing_of(f: FindingView, sources: Seq<SourceText>, d: Option<Seq<char>>) -> bool {
    exists|files: Seq<Seq<char>>|
        strictly_sorted(files) && files.to_set() == label_files(normalized(f)) && {
            let gs = groups_for(files, normalized(f), sources);
            d == if gs.len() == 0 {
                None
            } else {
                Some(rendered_groups(finding_groups(f, gs, sources)))
            }
        }
}

/// What is drawn for finding `f`, from the texts of the files it names.
pub fn draw_finding_snippet(f: &Finding, sources: &Vec<SourceText>) -> (r: Option<String>)
    ensures
        is_drawing_of(f@, sources@, opt_text(r)),
{
    let labels = normalize_labels(f);
    let groups = build_snippet_groups(&labels, sources);
    let ghost lv = labels@.map_values(|l: FindingLabel| label_v(l));
    let ghost files = choose|files: Seq<Seq<char>>|
        strictly_sorted(files) && files.to_set() == label_files(lv)
            && groups@.map_values(|g: RenderedSnippetGroup| group_v(g)) == groups_for(files, lv, sources@);
    let ghost gs = groups@.map_values(|g: RenderedSnippetGroup| group_v(g));
    assert(strictly_sorted(files) && files.to_set() == label_files(normalized(f@)));
    if groups.len() == 0 {
        return None;
    }
    let title = snippet_title(f);
    let patches = build_patch_groups(f, sources);
    let severity = f.severity();
    let ghost pv = patches@.map_values(|g: PatchGroup| patch_group_v(g));
    let mut drawn: Vec<Group<'static>> = Vec::new();
    drawn.push(title_group(severity, title.as_str(), &groups));
    let mut i: usize = 0;
    while i < patches.len()
        invariant
            i <= patches@.len(),
            severity == f@.severity,
            pv == patches@.map_values(|g: PatchGroup| patch_group_v(g)),
            drawn@ == seq![titled_group(severity, title_text(f@), gs)] + pv.take(i as int).map_values(
                |p: (Seq<char>, Seq<PatchEditView>)| suggestion_group(severity, p.0, p.1),
            ),
        decreases patches.len() - i,
    {
        let g = patch_group(severity, &patches[i]);
        let ghost before = drawn@;
        drawn.push(g);
        assert(pv.take(i + 1) =~= pv.take(i as int).push(pv[i as int]));
        assert(drawn@ =~= seq![titled_group(severity, title_text(f@), gs)] + pv.take(i + 1).map_values(
            |p: (Seq<char>, Seq<PatchEditView>)| suggestion_group(severity, p.0, p.1),
        ));
        i = i + 1;
    }
    assert(pv.take(pv.len() as int) =~= pv);
    assert(drawn@ =~= finding_groups(f@, gs, sources@));
    proof {
        lemma_groups_drawable(files, lv, sources@);
        assert forall|k: int| 0 <= k < drawn@.len() implies drawable_group(#[trigger] drawn@[k]) by {
            if k == 0 {
                assert(drawn@[0] == titled_group(severity, title_text(f@), gs));
            } else {
                let p = pv[k - 1];
                let x = f@.fixes[k - 1];
                assert(p == ("suggestion: "@ + x.2, patch_edits(x.3, sources@)));
                lemma_patch_edits_drawable(x.3, sources@);
                assert(drawn@[k] == suggestion_group(severity, p.0, p.1));
            }
        }
    }
    Some(render_groups(&drawn))
}

/// The report as text, each finding drawn from the texts of the files it
/// names (`sources`), then the toolchain lines and the skipped semantic rules.
pub fn render_text_report(report: &Report, sources: &Vec<SourceText>) -> (r: String)
    ensures
        exists|d: Seq<Option<String>>|
            d.len() == report.findings@.len() && (forall|i: int|
                0 <= i < d.len() ==> is_drawing_of(report.findings@[i]@, sources@, #[trigger] opt_text(d[i])))
                && r@ == report_text(*report, d),
{
    let mut drawn: Vec<Option<String>> = Vec::new();
    let mut i: usize = 0;
    while i < report.findings.len()
        invariant
            i <= report.findings@.len(),
            drawn@.len() == i,
            forall|j: int|
                0 <= j < i ==> is_drawing_of(report.findings@[j]@, sources@, #[trigger] opt_text(drawn@[j])),
        decreases report.findings.len() - i,
    {
        let d = draw_finding_snippet(&report.findings[i], sources);
        drawn.push(d);
        i = i + 1;
    }
    let r = render_drawn_report(report, &drawn);
    assert(forall|j: int| 0 <= j < drawn@.len() ==> is_drawing_of(report.findings@[j]@, sources@, #[trigger] opt_text(drawn@[j])));
    r
}

} // verus!

//! `pattern.custom`: configured regular expressions run over file text.
use vstd::prelude::*;
use vstd::string::*;
use crate::config::level::Level;
use crate::config::read::{read_level, read_strings, spec_read_level, spec_read_strings, views};
use crate::config::rule_options::RuleOptions;
use crate::config::value::{TableData, TomlData, TomlTable, TomlValue, tget, view_values};
use crate::fix::{utf8, utf8_width};
use crate::glob::{strict_match, strict_globs_match};
use crate::regex_match::{regex_find_all, regex_find_result};
use crate::report::{Finding, FindingView, Severity, SpanView, rule_finding_view};
use crate::rules::catalog::{CustomPatternRule, custom_pattern_info};
use crate::span::{Location, Span};
use crate::text::chars_of;

verus! {

/// One configured pattern.
#[derive(Debug)]
pub struct CustomPattern {
    pub name: String,
    pub regex: String,
    pub message: Option<String>,
    pub include_globs: Vec<String>,
    pub exclude_globs: Vec<String>,
}

#[derive(Debug)]
pub struct CustomPatternConfig {
    pub level: Level,
    pub patterns: Vec<CustomPattern>,
}

/// A pattern as values.
pub type PatternData = (Seq<char>, Seq<char>, Option<Seq<char>>, Seq<Seq<char>>, Seq<Seq<char>>);

pub open spec fn pattern_v(p: CustomPattern) -> PatternData {
    (
        p.name@,
        p.regex@,
        match p.message {
            Some(m) => Some(m@),
            None => None,
        },
        views(p.include_globs@),
        views(p.exclude_globs@),
    )
}

/// The pattern a table describes: `name` and `regex` are required.
pub open spec fn spec_pattern(d: TomlData) -> Option<PatternData> {
    match d {
        TomlData::Table(t) => match (
            tget(t, "name"@),
            tget(t, "regex"@),
            tget(t, "message"@),
            spec_read_strings(t, "include"@, Seq::empty()),
            spec_read_strings(t, "exclude"@, Seq::empty()),
        ) {
            (Some(TomlData::Str(n)), Some(TomlData::Str(r)), None, Some(i), Some(e)) => Some((n, r, None, i, e)),
            (Some(TomlData::Str(n)), Some(TomlData::Str(r)), Some(TomlData::Str(m)), Some(i), Some(e)) => Some(
                (n, r, Some(m), i, e),
            ),
            _ => None,
        },
        _ => None,
    }
}

pub open spec fn spec_patterns(xs: Seq<TomlData>) -> Option<Seq<PatternData>>
    decreases xs.len(),
{
    if xs.len() == 0 {
        Some(Seq::empty())
    } else {
        match (spec_patterns(xs.drop_last()), spec_pattern(xs.last())) {
            (Some(ps), Some(p)) => Some(ps.push(p)),
            _ => None,
        }
    }
}

pub open spec fn spec_read_patterns(t: TableData) -> Option<Seq<PatternData>> {
    match tget(t, "patterns"@) {
        None => Some(Seq::empty()),
        Some(TomlData::Array(xs)) => spec_patterns(xs),
        Some(_) => None,
    }
}

fn no_strings() -> (r: Vec<String>)
    ensures
        views(r@) == Seq::<Seq<char>>::empty(),
{
    let r: Vec<String> = Vec::new();
    assert(views(r@) =~= Seq::<Seq<char>>::empty());
    r
}

fn read_pattern(v: &TomlValue) -> (r: Option<CustomPattern>)
    ensures
        match r {
            Some(p) => spec_pattern(v@) == Some(pattern_v(p)),
            None => spec_pattern(v@) is None,
        },
{
    match v {
        TomlValue::Table(t) => {
            let name = match t.get("name") {
                Some(TomlValue::String(n)) => n.clone(),
                _ => return None,
            };
            let regex = match t.get("regex") {
                Some(TomlValue::String(r)) => r.clone(),
                _ => return None,
            };
            let message = match t.get("message") {
                None => None,
                Some(TomlValue::String(m)) => Some(m.clone()),
                Some(_) => return None,
            };
            let include_globs = match read_strings(t, "include", no_strings()) {
                Ok(x) => x,
                Err(_) => return None,
            };
            let exclude_globs = match read_strings(t, "exclude", no_strings()) {
                Ok(x) => x,
                Err(_) => return None,
            };
            Some(CustomPattern { name, regex, message, include_globs, exclude_globs })
        },
        _ => None,
    }
}

proof fn lemma_patterns_fail(d: Seq<TomlData>, k: int)
    requires
        0 <= k <= d.len(),
        spec_patterns(d.take(k)) is None,
    ensures
        spec_patterns(d) is None,
    decreases d.len() - k,
{
    if k < d.len() {
        assert(d.take(k + 1).drop_last() =~= d.take(k));
        lemma_patterns_fail(d, k + 1);
    } else {
        assert(d.take(k) =~= d);
    }
}

fn read_patterns(t: &TomlTable) -> (r: Result<Vec<CustomPattern>, String>)
    ensures
        match r {
            Ok(ps) => spec_read_patterns(t@) == Some(ps@.map_values(|p: CustomPattern| pattern_v(p))),
            Err(_) => spec_read_patterns(t@) is None,
        },
{
    match t.get("patterns") {
        None => {
            let v: Vec<CustomPattern> = Vec::new();
            assert(v@.map_values(|p: CustomPattern| pattern_v(p)) =~= Seq::<PatternData>::empty());
            Ok(v)
        },
        Some(TomlValue::Array(xs)) => {
            let ghost d = view_values(xs@);
            let mut out: Vec<CustomPattern> = Vec::new();
            let mut i: usize = 0;
            assert(d.take(0) =~= Seq::<TomlData>::empty());
            assert(out@.map_values(|p: CustomPattern| pattern_v(p)) =~= Seq::<PatternData>::empty());
            while i < xs.len()
                invariant
                    i <= xs@.len(),
                    d == view_values(xs@),
                    tget(t@, "patterns"@) == Some(TomlData::Array(d)),
                    spec_patterns(d.take(i as int)) == Some(out@.map_values(|p: CustomPattern| pattern_v(p))),
                decreases xs.len() - i,
            {
                assert(d.take(i + 1).drop_last() =~= d.take(i as int));
                assert(d.take(i + 1).last() == xs@[i as int]@);
                match read_pattern(&xs[i]) {
                    Some(p) => {
                        let ghost before = out@.map_values(|p: CustomPattern| pattern_v(p));
                        out.push(p);
                        assert(out@.map_values(|p: CustomPattern| pattern_v(p)) =~= before.push(pattern_v(p)));
                    },
                    None => {
                        proof {
                            lemma_patterns_fail(d, i + 1);
                        }
                        return Err(String::from_str("invalid value for key `patterns`"));
                    },
                }
                i = i + 1;
            }
            assert(d.take(xs@.len() as int) =~= d);
            Ok(out)
        },
        Some(_) => Err(String::from_str("invalid value for key `patterns`")),
    }
}

impl RuleOptions for CustomPatternConfig {
    open spec fn spec_default_level() -> Level {
        Level::Allow
    }

    open spec fn decodable(t: TableData) -> bool {
        &&& spec_read_level(t, "level"@, Level::Allow) is Some
        &&& spec_read_patterns(t) is Some
    }

    open spec fn decodes(t: TableData, v: Self) -> bool {
        &&& spec_read_level(t, "level"@, Level::Allow) == Some(v.level)
        &&& spec_read_patterns(t) == Some(v.patterns@.map_values(|p: CustomPattern| pattern_v(p)))
    }

    fn default_level() -> (r: Level) {
        Level::Allow
    }

    fn from_table(t: &TomlTable) -> (r: Result<Self, String>) {
        let level = read_level(t, "level", Level::Allow);
        let patterns = read_patterns(t);
        match (level, patterns) {
            (Ok(level), Ok(patterns)) => Ok(CustomPatternConfig { level, patterns }),
            (Err(e), _) => Err(e),
            (_, Err(e)) => Err(e),
        }
    }
}

// ---------------------------------------------------------------------------
// Which files a pattern applies to
// ---------------------------------------------------------------------------

/// A pattern applies to the file at `rel` (relative to the workspace root):
/// some include glob matches when there are any, and the exclude globs do not.
pub open spec fn spec_applies(p: CustomPattern, rel: Seq<char>) -> bool {
    (p.include_globs@.len() == 0 || strict_match(views(p.include_globs@), rel)) && !strict_match(
        views(p.exclude_globs@),
        rel,
    )
}

/// Which files a pattern applies to: never to a file that its exclude globs
/// match, whatever its include globs; when it has include globs, only to a
/// file they match; and to every other file.
pub proof fn pattern_scope_law(p: CustomPattern, rel: Seq<char>)
    ensures
        strict_match(views(p.exclude_globs@), rel) ==> !spec_applies(p, rel),
        p.include_globs@.len() > 0 && !strict_match(views(p.include_globs@), rel) ==> !spec_applies(p, rel),
        !strict_match(views(p.exclude_globs@), rel) && (p.include_globs@.len() == 0 || strict_match(
            views(p.include_globs@),
            rel,
        )) ==> spec_applies(p, rel),
{
}

pub fn pattern_matches_file(p: &CustomPattern, rel: &str) -> (r: bool)
    ensures
        r == spec_applies(*p, rel@),
{
    if p.include_globs.len() > 0 && !strict_globs_match(&p.include_globs, rel) {
        return false;
    }
    !strict_globs_match(&p.exclude_globs, rel)
}

// ---------------------------------------------------------------------------
// Positions of matches
// ---------------------------------------------------------------------------

pub open spec fn sat_inc(x: u32) -> u32 {
    if x < u32::MAX { (x + 1) as u32 } else { u32::MAX }
}

/// The line and column of byte offset `b`, scanning from character `k` at byte
/// `off`: each newline before `b` starts a new line, each other character moves
/// one column.
pub open spec fn scan_location(s: Seq<char>, k: int, off: int, line: u32, col: u32, b: int) -> Location
    decreases s.len() - k,
{
    if k < 0 || k >= s.len() || off >= b {
        Location { line, column: col }
    } else if s[k] == '\n' {
        scan_location(s, k + 1, off + utf8(seq![s[k]]).len(), sat_inc(line), 1, b)
    } else {
        scan_location(s, k + 1, off + utf8(seq![s[k]]).len(), line, sat_inc(col), b)
    }
}

/// The 1-based line and column of byte offset `b` of `s`.
pub open spec fn location_at(s: Seq<char>, b: int) -> Location {
    scan_location(s, 0, 0, 1, 1, b)
}

/// The 1-based line and column of byte offset `byte_index` of `text`.
pub fn byte_to_location(text: &str, byte_index: usize) -> (r: Location)
    ensures
        r == location_at(text@, byte_index as int),
{
    let cs = chars_of(text);
    let mut line: u32 = 1;
    let mut column: u32 = 1;
    let mut off: u128 = 0;
    let mut k: usize = 0;
    while k < cs.len() && off < byte_index as u128
        invariant
            k <= cs@.len(),
            cs@ == text@,
            off <= byte_index as u128 + 4,
            location_at(text@, byte_index as int) == scan_location(cs@, k as int, off as int, line, column, byte_index as int),
        decreases cs.len() - k,
    {
        let w = utf8_width(cs[k]);
        if cs[k] == '\n' {
            line = line.saturating_add(1);
            column = 1;
        } else {
            column = column.saturating_add(1);
        }
        off = off + w as u128;
        k = k + 1;
    }
    Location { line, column }
}

/// The span of the bytes `start..end` of `text` (at least one byte long).
pub open spec fn range_span(file: Seq<char>, text: Seq<char>, start: usize, end: usize) -> SpanView {
    let last = if end >= start + 1 { end as int } else if start < usize::MAX { start + 1 } else { start as int };
    (file, location_at(text, start as int), location_at(text, last))
}

pub fn byte_range_to_span(file: &str, text: &str, start: usize, end: usize) -> (r: Span)
    ensures
        crate::report::span_v(r) == range_span(file@, text@, start, end),
{
    let last = if end >= start.saturating_add(1) { end } else { start.saturating_add(1) };
    proof {
        if start < usize::MAX {
            if end >= start + 1 {
            } else {
                assert(last == start + 1);
            }
        }
    }
    Span::new(file, byte_to_location(text, start), byte_to_location(text, last))
}

// ---------------------------------------------------------------------------
// Findings
// ---------------------------------------------------------------------------

pub open spec fn pattern_finding(
    severity: Severity,
    p: CustomPattern,
    span: SpanView,
    matched: Seq<char>,
) -> FindingView {
    FindingView {
        primary: Some(span),
        evidence: Some(matched),
        confidence: Some("high"@),
        tags: seq!["custom-pattern"@],
        ..rule_finding_view(
            custom_pattern_info(),
            severity,
            match p.message {
                Some(m) => m@,
                None => "custom pattern `"@ + p.name@ + "` matched"@,
            },
        )
    }.with_rule_id("pattern.custom"@ + "::"@ + p.name@)
}

impl FindingView {
    pub open spec fn with_rule_id(self, id: Seq<char>) -> FindingView {
        FindingView { rule_id: id, ..self }
    }
}

/// The findings for the matches of one pattern, in order.
pub open spec fn hit_findings(
    severity: Severity,
    file: Seq<char>,
    text: Seq<char>,
    p: CustomPattern,
    hits: Seq<(usize, usize, Seq<char>)>,
) -> Seq<FindingView> {
    hits.map_values(|h: (usize, usize, Seq<char>)| pattern_finding(severity, p, range_span(file, text, h.0, h.1), h.2))
}

/// The findings of the patterns, in order: each pattern that applies to the
/// file and compiles contributes one finding per match.
pub open spec fn patterns_findings(
    cfg: CustomPatternConfig,
    file: Seq<char>,
    rel: Seq<char>,
    text: Seq<char>,
    ps: Seq<CustomPattern>,
) -> Seq<FindingView>
    decreases ps.len(),
{
    if ps.len() == 0 {
        Seq::empty()
    } else {
        let p = ps.last();
        patterns_findings(cfg, file, rel, text, ps.drop_last()) + if spec_applies(p, rel) {
            match regex_find_result(p.regex@, text) {
                Some(hits) => hit_findings(cfg.level.spec_severity(), file, text, p, hits),
                None => Seq::empty(),
            }
        } else {
            Seq::empty()
        }
    }
}

fn pattern_emit(
    cfg: &CustomPatternConfig,
    p: &CustomPattern,
    span: Span,
    matched: &String,
) -> (r: Finding)
    ensures
        r@ == pattern_finding(cfg.level.spec_severity(), *p, crate::report::span_v(span), matched@),
{
    let message = match &p.message {
        Some(m) => m.clone(),
        None => {
            let mut m = String::from_str("custom pattern `");
            m.append(p.name.as_str());
            m.append("` matched");
            m
        },
    };
    let mut id = String::from_str(CustomPatternRule::static_info().id);
    id.append("::");
    id.append(p.name.as_str());
    let info = CustomPatternRule::static_info();
    let tags = vec![String::from_str("custom-pattern")];
    let f = Finding::new(id, cfg.level.to_severity(), message).with_engine(info.family, info.backend).with_primary(span)
        .with_evidence(matched.clone()).with_confidence(String::from_str("high")).with_tags(tags);
    assert(f@.tags =~= seq!["custom-pattern"@]);
    assert(f@.secondary =~= Seq::<SpanView>::empty());
    assert(f@.labels =~= Seq::<crate::report::LabelView>::empty());
    assert(f@.notes =~= Seq::<crate::report::NoteView>::empty());
    assert(f@.fixes =~= Seq::<crate::report::FixView>::empty());
    f
}

impl CustomPatternRule {
    /// The findings of pattern `p` in the file `file` with text `text`, one per
    /// match in `hits` (each a byte range and the text matched), in order.
    pub fn hit_findings_of(
        cfg: &CustomPatternConfig,
        p: &CustomPattern,
        file: &str,
        text: &str,
        hits: &Vec<(usize, usize, String)>,
    ) -> (r: Vec<Finding>)
        ensures
            r@.map_values(|f: Finding| f@) == hit_findings(
                cfg.level.spec_severity(),
                file@,
                text@,
                *p,
                hits@.map_values(|m: (usize, usize, String)| (m.0, m.1, m.2@)),
            ),
    {
        let ghost hv = hits@.map_values(|m: (usize, usize, String)| (m.0, m.1, m.2@));
        let mut out: Vec<Finding> = Vec::new();
        let mut k: usize = 0;
        assert(out@.map_values(|f: Finding| f@) =~= hit_findings(cfg.level.spec_severity(), file@, text@, *p, hv.take(0)));
        while k < hits.len()
            invariant
                k <= hits@.len(),
                hv == hits@.map_values(|m: (usize, usize, String)| (m.0, m.1, m.2@)),
                out@.map_values(|f: Finding| f@) == hit_findings(cfg.level.spec_severity(), file@, text@, *p, hv.take(k as int)),
            decreases hits.len() - k,
        {
            let ghost before = out@.map_values(|f: Finding| f@);
            let span = byte_range_to_span(file, text, hits[k].0, hits[k].1);
            let f = pattern_emit(cfg, p, span, &hits[k].2);
            out.push(f);
            assert(hv.take(k + 1) =~= hv.take(k as int).push(hv[k as int]));
            assert(out@.map_values(|f: Finding| f@) =~= before.push(f@));
            k = k + 1;
        }
        assert(hv.take(hits@.len() as int) =~= hv);
        out
    }

    /// The findings for one file: `file` is its path as reported, `rel` its path
    /// relative to the workspace root.
    pub fn check_file(cfg: &CustomPatternConfig, file: &str, rel: &str, text: &str) -> (r: Vec<Finding>)
        ensures
            r@.map_values(|f: Finding| f@) == if cfg.level == Level::Allow {
                Seq::empty()
            } else {
                patterns_findings(*cfg, file@, rel@, text@, cfg.patterns@)
            },
    {
        let mut out: Vec<Finding> = Vec::new();
        if !cfg.level.enabled() {
            assert(out@.map_values(|f: Finding| f@) =~= Seq::<FindingView>::empty());
            return out;
        }
        let mut i: usize = 0;
        assert(out@.map_values(|f: Finding| f@) =~= patterns_findings(*cfg, file@, rel@, text@, cfg.patterns@.take(0)));
        while i < cfg.patterns.len()
            invariant
                i <= cfg.patterns@.len(),
                out@.map_values(|f: Finding| f@) == patterns_findings(*cfg, file@, rel@, text@, cfg.patterns@.take(i as int)),
            decreases cfg.patterns.len() - i,
        {
            let p = &cfg.patterns[i];
            assert(cfg.patterns@.take(i + 1).drop_last() =~= cfg.patterns@.take(i as int));
            assert(cfg.patterns@.take(i + 1).last() == *p);
            let ghost base = out@.map_values(|f: Finding| f@);
            if pattern_matches_file(p, rel) {
                match regex_find_all(p.regex.as_str(), text) {
                    Some(hits) => {
                        let mut found = CustomPatternRule::hit_findings_of(cfg, p, file, text, &hits);
                        let ghost fv = found@.map_values(|f: Finding| f@);
                        out.append(&mut found);
                        assert(out@.map_values(|f: Finding| f@) =~= base + fv);
                    },
                    None => {
                        assert(out@.map_values(|f: Finding| f@) =~= base + Seq::<FindingView>::empty());
                    },
                }
            } else {
                assert(out@.map_values(|f: Finding| f@) =~= base + Seq::<FindingView>::empty());
            }
            i = i + 1;
        }
        assert(cfg.patterns@.take(cfg.patterns@.len() as int) =~= cfg.patterns@);
        out
    }
}

} // verus!

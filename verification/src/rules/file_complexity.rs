//! `shape.file_complexity`: file and function complexity against limits.
use vstd::prelude::*;
use vstd::string::*;
use crate::chars::{line_at, lines, lines_from, next_line, starts_with_chars, trim, trim_chars};
use crate::config::level::Level;
use crate::config::rule_options::{ComplexityMode, FileComplexityConfig};
use crate::fix::{line_end_from, starts_with};
use crate::report::{FileMetrics, Finding, FindingView, SpanView, rule_finding_view};
use crate::rules::catalog::{FileComplexityRule, file_complexity_info};
use crate::span::{Location, Span};
use crate::text::{chars_of, decimal, u64_to_string};
use crate::config::policy::{Policy, resolved_settings};
use crate::config::rule_options::{RuleOptions, settings_table};
use crate::config::value::TableData;
use crate::emit::{Emitter, ReportEmitter};

verus! {

/// The cyclomatic score of one function.
#[derive(Debug)]
pub struct FnScore {
    pub name: String,
    pub score: u32,
}

/// A line that counts towards the physical size: not blank, not a line comment.
pub open spec fn counts_as_loc(line: Seq<char>) -> bool {
    trim(line).len() > 0 && !starts_with(trim(line), "//"@)
}

/// The number of lines in `ls` that count towards the physical size.
pub open spec fn counted_lines(ls: Seq<Seq<char>>) -> nat
    decreases ls.len(),
{
    if ls.len() == 0 {
        0
    } else {
        (if counts_as_loc(ls[0]) { 1nat } else { 0nat }) + counted_lines(ls.drop_first())
    }
}

/// The physical size of a file: its lines that are neither blank nor line comments.
pub open spec fn physical_loc(text: Seq<char>) -> nat {
    counted_lines(lines(text))
}

/// The physical size of a file: its lines that are neither blank nor line comments.
pub fn count_physical_loc(text: &str) -> (r: usize)
    ensures
        r == physical_loc(text@),
{
    let cs = chars_of(text);
    let slashes = chars_of("//");
    let mut p: usize = 0;
    let mut n: usize = 0;
    while p < cs.len()
        invariant
            p <= cs@.len(),
            n <= p,
            cs@ == text@,
            slashes@ == "//"@,
            physical_loc(text@) == n + counted_lines(lines_from(cs@, p as int)),
        decreases cs.len() - p,
    {
        let (line, next) = next_line(&cs, p);
        let t = trim_chars(&line);
        assert(lines_from(cs@, p as int).drop_first() =~= lines_from(cs@, next as int));
        assert(lines_from(cs@, p as int)[0] == line_at(cs@, p as int));
        if t.len() > 0 && !starts_with_chars(&t, &slashes) {
            n = n + 1;
        }
        p = next;
    }
    assert(lines_from(cs@, p as int) =~= Seq::<Seq<char>>::empty());
    n
}

/// The sum of the scores.
pub open spec fn score_sum(s: Seq<FnScore>) -> nat
    decreases s.len(),
{
    if s.len() == 0 {
        0
    } else {
        score_sum(s.drop_last()) + (s.last().score as nat)
    }
}

/// The highest score, 0 when there is none.
pub open spec fn score_max(s: Seq<FnScore>) -> u32
    decreases s.len(),
{
    if s.len() == 0 {
        0
    } else {
        let m = score_max(s.drop_last());
        if s.last().score > m {
            s.last().score
        } else {
            m
        }
    }
}

/// One `name: score` line per function.
pub open spec fn per_fn_text(s: Seq<FnScore>) -> Seq<char>
    decreases s.len(),
{
    if s.len() == 0 {
        Seq::empty()
    } else {
        per_fn_text(s.drop_last()) + s.last().name@ + ": "@ + decimal(s.last().score as nat) + "\n"@
    }
}

/// The message of a file over its cyclomatic limits.
pub open spec fn cyclomatic_message(sum: nat, max: u32, cfg_file: u32, cfg_fn: u32) -> Seq<char> {
    let file_part = "file cyclomatic complexity sum "@ + decimal(sum) + " exceeds "@ + decimal(cfg_file as nat);
    let fn_part = "max function cyclomatic complexity "@ + decimal(max as nat) + " exceeds "@ + decimal(cfg_fn as nat);
    if sum > cfg_file && max > cfg_fn {
        file_part + "\n"@ + fn_part
    } else if sum > cfg_file {
        file_part
    } else {
        fn_part
    }
}

/// The span that stands for a whole file.
pub open spec fn file_span_v(path: Seq<char>) -> SpanView {
    (path, Location { line: 1, column: 1 }, Location { line: 1, column: 1 })
}

/// A finding of this rule about the whole file.
pub open spec fn complexity_finding(
    severity: crate::report::Severity,
    path: Seq<char>,
    message: Seq<char>,
    help: Seq<char>,
    evidence: Option<Seq<char>>,
    tag: Seq<char>,
) -> FindingView {
    FindingView {
        help: Some(help),
        primary: Some(file_span_v(path)),
        evidence,
        tags: seq![tag],
        ..rule_finding_view(file_complexity_info(), severity, message)
    }
}

/// What checking one file gives: its metrics (in cyclomatic mode) and a finding
/// when it is over a limit.
#[derive(Debug)]
pub struct ComplexityCheck {
    pub metrics: Option<FileMetrics>,
    pub finding: Option<Finding>,
}

fn file_span(path: &str) -> (r: Span)
    ensures
        crate::report::span_v(r) == file_span_v(path@),
{
    Span::new(path, Location { line: 1, column: 1 }, Location { line: 1, column: 1 })
}

fn one_tag(tag: &str) -> (r: Vec<String>)
    ensures
        r@.map_values(|t: String| t@) == seq![tag@],
{
    let r = vec![tag.to_owned()];
    assert(r@.map_values(|t: String| t@) =~= seq![tag@]);
    r
}

fn whole_file_finding(
    severity: crate::report::Severity,
    path: &str,
    message: String,
    help: &str,
    evidence: Option<String>,
    tag: &str,
) -> (r: Finding)
    ensures
        r@ == complexity_finding(
            severity,
            path@,
            message@,
            help@,
            match evidence {
                Some(e) => Some(e@),
                None => None,
            },
            tag@,
        ),
{
    let f = Finding::from_rule(FileComplexityRule::static_info(), severity, message).with_primary(
        file_span(path),
    ).with_help(help.to_owned());
    let f = match evidence {
        Some(e) => f.with_evidence(e),
        None => f,
    };
    f.with_tags(one_tag(tag))
}

fn per_fn_lines(per_fn: &Vec<FnScore>) -> (r: String)
    ensures
        r@ == per_fn_text(per_fn@),
{
    let mut out = String::new();
    let mut i: usize = 0;
    while i < per_fn.len()
        invariant
            i <= per_fn@.len(),
            out@ == per_fn_text(per_fn@.take(i as int)),
        decreases per_fn.len() - i,
    {
        assert(per_fn@.take(i + 1).drop_last() =~= per_fn@.take(i as int));
        assert(per_fn@.take(i + 1).last() == per_fn@[i as int]);
        out.append(per_fn[i].name.as_str());
        out.append(": ");
        let d = u64_to_string(per_fn[i].score as u64);
        out.append(d.as_str());
        out.append("\n");
        i = i + 1;
    }
    assert(per_fn@.take(per_fn@.len() as int) =~= per_fn@);
    out
}

fn sum_and_max(per_fn: &Vec<FnScore>) -> (r: (u32, u32))
    requires
        score_sum(per_fn@) <= u32::MAX,
    ensures
        r.0 == score_sum(per_fn@),
        r.1 == score_max(per_fn@),
{
    let mut sum: u32 = 0;
    let mut max: u32 = 0;
    let mut i: usize = 0;
    while i < per_fn.len()
        invariant
            i <= per_fn@.len(),
            score_sum(per_fn@) <= u32::MAX,
            sum == score_sum(per_fn@.take(i as int)),
            max == score_max(per_fn@.take(i as int)),
        decreases per_fn.len() - i,
    {
        assert(per_fn@.take(i + 1).drop_last() =~= per_fn@.take(i as int));
        assert(per_fn@.take(i + 1).last() == per_fn@[i as int]);
        proof {
            lemma_score_sum_prefix(per_fn@, i + 1);
        }
        sum = sum + per_fn[i].score;
        if per_fn[i].score > max {
            max = per_fn[i].score;
        }
        i = i + 1;
    }
    assert(per_fn@.take(per_fn@.len() as int) =~= per_fn@);
    (sum, max)
}

proof fn lemma_score_sum_prefix(s: Seq<FnScore>, k: int)
    requires
        0 <= k <= s.len(),
    ensures
        score_sum(s.take(k)) <= score_sum(s),
    decreases s.len() - k,
{
    if k < s.len() {
        lemma_score_sum_prefix(s, k + 1);
        assert(s.take(k + 1).drop_last() =~= s.take(k));
    } else {
        assert(s.take(k) =~= s);
    }
}

/// What checking one file gives, by mode.
pub open spec fn spec_check(
    path: Seq<char>,
    cfg: FileComplexityConfig,
    text: Seq<char>,
    per_fn: Seq<FnScore>,
    logical: u32,
    r: ComplexityCheck,
) -> bool {
    let severity = cfg.level.spec_severity();
    match cfg.mode {
        ComplexityMode::Cyclomatic => {
            let sum = score_sum(per_fn);
            let max = score_max(per_fn);
            &&& r.metrics matches Some(m) && m.path@ == path && m.cyclomatic_sum == sum
                && m.cyclomatic_max_fn == max
            &&& if sum > cfg.max_file || max > cfg.max_fn {
                r.finding matches Some(f) && f@ == complexity_finding(
                    severity,
                    path,
                    cyclomatic_message(sum, max, cfg.max_file, cfg.max_fn),
                    "Split the functions or module to reduce branching."@,
                    Some(per_fn_text(per_fn)),
                    "complexity"@,
                )
            } else {
                r.finding is None
            }
        },
        ComplexityMode::PhysicalLoc => {
            let loc = physical_loc(text);
            &&& r.metrics is None
            &&& if (loc as u32) > cfg.max_file {
                r.finding matches Some(f) && f@ == complexity_finding(
                    severity,
                    path,
                    "file physical LOC "@ + decimal(loc) + " exceeds "@ + decimal(cfg.max_file as nat),
                    "Split the file into smaller modules."@,
                    None,
                    "size"@,
                )
            } else {
                r.finding is None
            }
        },
        ComplexityMode::LogicalLoc => {
            &&& r.metrics is None
            &&& if logical > cfg.max_file {
                r.finding matches Some(f) && f@ == complexity_finding(
                    severity,
                    path,
                    "file logical LOC "@ + decimal(logical as nat) + " exceeds "@ + decimal(cfg.max_file as nat),
                    "Split the file into smaller modules."@,
                    None,
                    "size"@,
                )
            } else {
                r.finding is None
            }
        },
    }
}

/// In cyclomatic mode each limit is enough on its own: a file is flagged
/// exactly when the sum of its functions' scores exceeds `max_file` or its
/// highest function score exceeds `max_fn`. The message names the limit (or
/// both limits) that was exceeded, and the metrics hold the sum and the
/// highest score.
pub proof fn cyclomatic_either_limit_flags(
    path: Seq<char>,
    cfg: FileComplexityConfig,
    text: Seq<char>,
    per_fn: Seq<FnScore>,
    logical: u32,
    r: ComplexityCheck,
)
    requires
        cfg.mode == ComplexityMode::Cyclomatic,
        spec_check(path, cfg, text, per_fn, logical, r),
    ensures
        r.metrics matches Some(m) && m.cyclomatic_sum == score_sum(per_fn) && m.cyclomatic_max_fn == score_max(per_fn),
        (r.finding is Some) <==> (score_sum(per_fn) > cfg.max_file || score_max(per_fn) > cfg.max_fn),
        score_sum(per_fn) > cfg.max_file && score_max(per_fn) <= cfg.max_fn ==> (r.finding matches Some(f)
            && f@.message == "file cyclomatic complexity sum "@ + decimal(score_sum(per_fn)) + " exceeds "@ + decimal(
            cfg.max_file as nat,
        )),
        score_sum(per_fn) <= cfg.max_file && score_max(per_fn) > cfg.max_fn ==> (r.finding matches Some(f)
            && f@.message == "max function cyclomatic complexity "@ + decimal(score_max(per_fn) as nat) + " exceeds "@
            + decimal(cfg.max_fn as nat)),
        score_sum(per_fn) > cfg.max_file && score_max(per_fn) > cfg.max_fn ==> (r.finding matches Some(f)
            && f@.message == "file cyclomatic complexity sum "@ + decimal(score_sum(per_fn)) + " exceeds "@ + decimal(
            cfg.max_file as nat,
        ) + "\n"@ + "max function cyclomatic complexity "@ + decimal(score_max(per_fn) as nat) + " exceeds "@
            + decimal(cfg.max_fn as nat)),
{
}

/// In the physical and logical modes a file is flagged exactly when its
/// count (physical lines, or statements) exceeds `max_file`, and no metrics
/// are recorded.
pub proof fn size_modes_flag_over_max_file(
    path: Seq<char>,
    cfg: FileComplexityConfig,
    text: Seq<char>,
    per_fn: Seq<FnScore>,
    logical: u32,
    r: ComplexityCheck,
)
    requires
        spec_check(path, cfg, text, per_fn, logical, r),
    ensures
        cfg.mode == ComplexityMode::PhysicalLoc ==> r.metrics is None && ((r.finding is Some) <==> (physical_loc(text)
            as u32) > cfg.max_file),
        cfg.mode == ComplexityMode::LogicalLoc ==> r.metrics is None && ((r.finding is Some) <==> logical
            > cfg.max_file),
{
}

impl FileComplexityRule {
    /// Check one file in the configured mode: in cyclomatic mode from the
    /// functions' scores (recording the file's metrics), in physical mode from
    /// its text, in logical mode from its statement count.
    pub fn check_file(
        path: &str,
        cfg: &FileComplexityConfig,
        text: &str,
        per_fn: &Vec<FnScore>,
        logical_stmts: u32,
    ) -> (r: ComplexityCheck)
        requires
            cfg.mode == ComplexityMode::Cyclomatic ==> score_sum(per_fn@) <= u32::MAX,
        ensures
            spec_check(path@, *cfg, text@, per_fn@, logical_stmts, r),
    {
        let severity = cfg.level.to_severity();
        match cfg.mode {
            ComplexityMode::Cyclomatic => {
                let (sum, max) = sum_and_max(per_fn);
                let metrics = FileMetrics { path: path.to_owned(), cyclomatic_sum: sum, cyclomatic_max_fn: max };
                let over_file = sum > cfg.max_file;
                let over_fn = max > cfg.max_fn;
                if !(over_file || over_fn) {
                    return ComplexityCheck { metrics: Some(metrics), finding: None };
                }
                let mut file_part = String::from_str("file cyclomatic complexity sum ");
                file_part.append(u64_to_string(sum as u64).as_str());
                file_part.append(" exceeds ");
                file_part.append(u64_to_string(cfg.max_file as u64).as_str());
                let mut fn_part = String::from_str("max function cyclomatic complexity ");
                fn_part.append(u64_to_string(max as u64).as_str());
                fn_part.append(" exceeds ");
                fn_part.append(u64_to_string(cfg.max_fn as u64).as_str());
                let message = if over_file && over_fn {
                    let mut m = file_part;
                    m.append("\n");
                    m.append(fn_part.as_str());
                    m
                } else if over_file {
                    file_part
                } else {
                    fn_part
                };
                let finding = whole_file_finding(
                    severity,
                    path,
                    message,
                    "Split the functions or module to reduce branching.",
                    Some(per_fn_lines(per_fn)),
                    "complexity",
                );
                ComplexityCheck { metrics: Some(metrics), finding: Some(finding) }
            },
            ComplexityMode::PhysicalLoc => {
                let loc = count_physical_loc(text);
                if (loc as u32) > cfg.max_file {
                    let mut m = String::from_str("file physical LOC ");
                    m.append(u64_to_string(loc as u64).as_str());
                    m.append(" exceeds ");
                    m.append(u64_to_string(cfg.max_file as u64).as_str());
                    let finding = whole_file_finding(
                        severity,
                        path,
                        m,
                        "Split the file into smaller modules.",
                        None,
                        "size",
                    );
                    ComplexityCheck { metrics: None, finding: Some(finding) }
                } else {
                    ComplexityCheck { metrics: None, finding: None }
                }
            },
            ComplexityMode::LogicalLoc => {
                if logical_stmts > cfg.max_file {
                    let mut m = String::from_str("file logical LOC ");
                    m.append(u64_to_string(logical_stmts as u64).as_str());
                    m.append(" exceeds ");
                    m.append(u64_to_string(cfg.max_file as u64).as_str());
                    let finding = whole_file_finding(
                        severity,
                        path,
                        m,
                        "Split the file into smaller modules.",
                        None,
                        "size",
                    );
                    ComplexityCheck { metrics: None, finding: Some(finding) }
                } else {
                    ComplexityCheck { metrics: None, finding: None }
                }
            },
        }
    }
}

/// What the syntax tree gives of one function's branching: the `if`, `for`,
/// `while`, `loop`, `&&` and `||` it holds, its `match` expressions and their
/// arms, and its `?` operators, each count saturating at `u32::MAX`.
#[derive(Debug)]
pub struct FnCounts {
    pub name: String,
    pub decisions: u32,
    pub matches: u32,
    pub match_arms: u32,
    pub tries: u32,
}

/// The cyclomatic score of a function: one, plus a point per decision, per
/// `match` (or per arm, with `match_arms`) and per `?` (with
/// `count_question`), saturating at `u32::MAX`.
pub open spec fn spec_score(c: FnCounts, count_question: bool, match_arms: bool) -> u32 {
    let total = 1 + c.decisions + (if match_arms {
        c.match_arms
    } else {
        c.matches
    }) + (if count_question {
        c.tries
    } else {
        0
    });
    if total > u32::MAX {
        u32::MAX
    } else {
        total as u32
    }
}

pub open spec fn scores_of(fns: Seq<FnCounts>, count_question: bool, match_arms: bool) -> Seq<FnScore> {
    fns.map_values(|c: FnCounts| FnScore { name: c.name, score: spec_score(c, count_question, match_arms) })
}

/// The scores of the functions, in order.
pub fn fn_scores(fns: &Vec<FnCounts>, count_question: bool, match_arms: bool) -> (r: Vec<FnScore>)
    ensures
        r@ == scores_of(fns@, count_question, match_arms),
{
    let ghost want = scores_of(fns@, count_question, match_arms);
    let mut out: Vec<FnScore> = Vec::new();
    let mut i: usize = 0;
    while i < fns.len()
        invariant
            i <= fns@.len(),
            want == scores_of(fns@, count_question, match_arms),
            out@ == want.take(i as int),
        decreases fns.len() - i,
    {
        let c = &fns[i];
        let arms: u64 = if match_arms {
            c.match_arms as u64
        } else {
            c.matches as u64
        };
        let tries: u64 = if count_question {
            c.tries as u64
        } else {
            0
        };
        let total: u64 = 1 + c.decisions as u64 + arms + tries;
        let score: u32 = if total > u32::MAX as u64 {
            u32::MAX
        } else {
            total as u32
        };
        let name = c.name.clone();
        out.push(FnScore { name, score });
        assert(out@ =~= want.take(i as int).push(want[i as int]));
        assert(want.take(i + 1) =~= want.take(i as int).push(want[i as int]));
        i = i + 1;
    }
    assert(want.take(want.len() as int) =~= want);
    out
}

/// The table the rule's options are read from for the file at `path`.
pub open spec fn complexity_table(policy: Policy, path: Seq<char>) -> TableData {
    settings_table(
        resolved_settings(policy, file_complexity_info().id@, Some(path), FileComplexityConfig::spec_default_level()),
    )
}

impl FileComplexityRule {
    /// Runs the rule on one file: its text, its functions' counts and its
    /// statement count (`None` for the counts when it did not parse). The
    /// check's metrics are recorded and its finding emitted.
    pub fn run_file(
        policy: &Policy,
        path: &str,
        text: &str,
        fns: Option<&Vec<FnCounts>>,
        statements: u32,
        out: &mut ReportEmitter,
    )
        requires
            complexity_sum_fits_spec(
                *policy,
                path@,
                match fns {
                    Some(f) => Some(f@),
                    None => None,
                },
            ),
        ensures
            if FileComplexityConfig::decodable(complexity_table(*policy, path@)) && fns is Some {
                exists|cfg: FileComplexityConfig, r: ComplexityCheck|
                    FileComplexityConfig::decodes(complexity_table(*policy, path@), cfg) && spec_check(
                        path@,
                        cfg,
                        text@,
                        scores_of(fns.unwrap()@, cfg.count_question, cfg.match_arms),
                        statements,
                        r,
                    ) && final(out).findings@.map_values(|f: Finding| f@) == old(out).findings@.map_values(
                        |f: Finding| f@,
                    ) + match r.finding {
                        Some(f) => seq![f@],
                        None => Seq::<FindingView>::empty(),
                    } && final(out).metrics@ == old(out).metrics@ + match r.metrics {
                        Some(m) => seq![m],
                        None => Seq::<FileMetrics>::empty(),
                    }
            } else {
                &&& final(out).findings@ == old(out).findings@
                &&& final(out).metrics@ == old(out).metrics@
            },
    {
        let cfg = match policy.decode_rule::<FileComplexityConfig>(FileComplexityRule::static_info().id, Some(path)) {
            Ok(c) => c,
            Err(_) => return,
        };
        let fns = match fns {
            Some(f) => f,
            None => return,
        };
        let per_fn = fn_scores(fns, cfg.count_question, cfg.match_arms);
        proof {
            let fo: Option<Seq<FnCounts>> = Some(fns@);
            assert(fo.unwrap() == fns@);
            if cfg.mode == ComplexityMode::Cyclomatic {
                assert(score_sum(scores_of(fo.unwrap(), cfg.count_question, cfg.match_arms)) <= u32::MAX);
            }
        }
        let check = FileComplexityRule::check_file(path, &cfg, text, &per_fn, statements);
        let ghost r = check;
        let ghost before = out.findings@.map_values(|f: Finding| f@);
        let ComplexityCheck { metrics, finding } = check;
        match metrics {
            Some(m) => out.record_metrics(m),
            None => {},
        }
        match finding {
            Some(f) => {
                let ghost v = f@;
                out.emit(f);
                assert(out.findings@.map_values(|f: Finding| f@) =~= before.push(v));
            },
            None => {},
        }
        assert(out.findings@.map_values(|f: Finding| f@) =~= before + match r.finding {
            Some(f) => seq![f@],
            None => Seq::<FindingView>::empty(),
        });
        assert(out.metrics@ =~= old(out).metrics@ + match r.metrics {
            Some(m) => seq![m],
            None => Seq::<FileMetrics>::empty(),
        });
    }
}


/// The precondition of [`FileComplexityRule::run_file`]: in cyclomatic mode,
/// the functions' scores add up within `u32`.
pub open spec fn complexity_sum_fits_spec(policy: Policy, path: Seq<char>, fns: Option<Seq<FnCounts>>) -> bool {
    forall|cfg: FileComplexityConfig|
        FileComplexityConfig::decodes(complexity_table(policy, path), cfg) && cfg.mode == ComplexityMode::Cyclomatic
            && fns is Some ==> #[trigger] score_sum(scores_of(fns.unwrap(), cfg.count_question, cfg.match_arms))
            <= u32::MAX
}

/// Whether the scores add up within `u32`.
fn sum_fits(scores: &Vec<FnScore>) -> (r: bool)
    ensures
        r == (score_sum(scores@) <= u32::MAX),
{
    let mut total: u64 = 0;
    let mut i: usize = 0;
    while i < scores.len()
        invariant
            i <= scores@.len(),
            total == score_sum(scores@.take(i as int)),
            total <= u32::MAX,
        decreases scores.len() - i,
    {
        assert(scores@.take(i + 1).drop_last() =~= scores@.take(i as int));
        assert(scores@.take(i + 1).last() == scores@[i as int]);
        total = total + scores[i].score as u64;
        if total > 0xFFFF_FFFFu64 {
            proof {
                lemma_sum_grows(scores@, (i + 1) as int);
            }
            return false;
        }
        i = i + 1;
    }
    assert(scores@.take(scores@.len() as int) =~= scores@);
    true
}

proof fn lemma_sum_grows(s: Seq<FnScore>, n: int)
    requires
        0 <= n <= s.len(),
    ensures
        score_sum(s.take(n)) <= score_sum(s),
    decreases s.len() - n,
{
    if n < s.len() {
        lemma_sum_grows(s, n + 1);
        assert(s.take(n + 1).drop_last() =~= s.take(n));
    } else {
        assert(s.take(n) =~= s);
    }
}

impl FileComplexityRule {
    /// Whether [`FileComplexityRule::run_file`] may be called on these
    /// functions: in cyclomatic mode their scores must add up within `u32`.
    pub fn complexity_sum_fits(policy: &Policy, path: &str, fns: Option<&Vec<FnCounts>>) -> (r: bool)
        ensures
            r == complexity_sum_fits_spec(
                *policy,
                path@,
                match fns {
                    Some(f) => Some(f@),
                    None => None,
                },
            ),
    {
        let cfg = match policy.decode_rule::<FileComplexityConfig>(FileComplexityRule::static_info().id, Some(path)) {
            Ok(c) => c,
            Err(_) => return true,
        };
        let fns = match fns {
            Some(f) => f,
            None => return true,
        };
        let ghost t = complexity_table(*policy, path@);
        let ghost fo: Option<Seq<FnCounts>> = Some(fns@);
        assert(fo.unwrap() == fns@);
        if cfg.mode != ComplexityMode::Cyclomatic {
            assert forall|c: FileComplexityConfig|
                FileComplexityConfig::decodes(t, c) && c.mode == ComplexityMode::Cyclomatic && fo is Some implies
                    #[trigger] score_sum(scores_of(fo.unwrap(), c.count_question, c.match_arms)) <= u32::MAX by {
                assert(c.mode == cfg.mode);
            }
            return true;
        }
        let per_fn = fn_scores(fns, cfg.count_question, cfg.match_arms);
        let fits = sum_fits(&per_fn);
        proof {
            if fits {
                assert forall|c: FileComplexityConfig|
                    FileComplexityConfig::decodes(t, c) && c.mode == ComplexityMode::Cyclomatic && fo is Some implies
                        #[trigger] score_sum(scores_of(fo.unwrap(), c.count_question, c.match_arms)) <= u32::MAX by {
                    assert(c.count_question == cfg.count_question);
                    assert(c.match_arms == cfg.match_arms);
                }
            } else {
                assert(!(score_sum(scores_of(fo.unwrap(), cfg.count_question, cfg.match_arms)) <= u32::MAX));
            }
        }
        fits
    }
}

} // verus!

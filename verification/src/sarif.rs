//! The SARIF form of a report.
use vstd::prelude::*;
use vstd::string::*;
use crate::sorted::{sorted_distinct, strictly_sorted};
use crate::report::{Finding, Report, RuleCatalogEntry, Severity};

verus! {

#[derive(Debug)]
pub struct SarifLog {
    pub version: String,
    pub schema: String,
    pub runs: Vec<Run>,
}

#[derive(Debug)]
pub struct Run {
    pub tool: Tool,
    pub results: Vec<ResultItem>,
}

#[derive(Debug)]
pub struct Tool {
    pub driver: Driver,
}

#[derive(Debug)]
pub struct Driver {
    pub name: String,
    pub rules: Vec<Rule>,
}

/// A rule as the log lists it.
#[derive(Debug)]
pub struct Rule {
    pub id: String,
    pub name: String,
}

/// One finding as a SARIF result.
#[derive(Debug)]
pub struct ResultItem {
    pub rule_id: String,
    pub level: String,
    pub message: Message,
    pub locations: Option<Vec<Location>>,
}

#[derive(Debug)]
pub struct Message {
    pub text: String,
}

#[derive(Debug)]
pub struct Location {
    pub physical_location: PhysicalLocation,
}

#[derive(Debug)]
pub struct PhysicalLocation {
    pub artifact_location: ArtifactLocation,
    pub region: Region,
}

#[derive(Debug)]
pub struct ArtifactLocation {
    pub uri: String,
}

#[derive(Debug, Clone, Copy, PartialEq, Eq, Structural)]
pub struct Region {
    pub start_line: u32,
    pub start_column: u32,
    pub end_line: u32,
    pub end_column: u32,
}

/// A result as a value: rule id, level, message, and the file and region of
/// its location.
pub type ResultView = (Seq<char>, Seq<char>, Seq<char>, Option<(Seq<char>, Region)>);

pub open spec fn sarif_level(s: Severity) -> Seq<char> {
    match s {
        Severity::Info => "note"@,
        Severity::Warn => "warning"@,
        Severity::Deny => "error"@,
    }
}

pub open spec fn result_v(r: ResultItem) -> ResultView {
    (
        r.rule_id@,
        r.level@,
        r.message.text@,
        match r.locations {
            Some(ls) => if ls@.len() == 1 {
                Some((ls@[0].physical_location.artifact_location.uri@, ls@[0].physical_location.region))
            } else {
                None
            },
            None => None,
        },
    )
}

/// What the result of a finding says: its rule, level and message, and the
/// region of its primary span.
pub open spec fn spec_result(f: Finding) -> ResultView {
    (
        f@.rule_id,
        sarif_level(f@.severity),
        f@.message,
        match f@.primary {
            Some(p) => Some(
                (
                    p.0,
                    Region { start_line: p.1.line, start_column: p.1.column, end_line: p.2.line, end_column: p.2.column },
                ),
            ),
            None => None,
        },
    )
}

fn finding_to_result(f: &Finding) -> (r: ResultItem)
    ensures
        result_v(r) == spec_result(*f),
        r.locations matches Some(ls) ==> ls@.len() == 1,
{
    let level = match f.severity() {
        Severity::Info => String::from_str("note"),
        Severity::Warn => String::from_str("warning"),
        Severity::Deny => String::from_str("error"),
    };
    let locations = match f.primary() {
        Some(span) => Some(
            vec![
                Location {
                    physical_location: PhysicalLocation {
                        artifact_location: ArtifactLocation { uri: span.file.clone() },
                        region: Region {
                            start_line: span.start.line,
                            start_column: span.start.column,
                            end_line: span.end.line,
                            end_column: span.end.column,
                        },
                    },
                },
            ],
        ),
        None => None,
    };
    ResultItem { rule_id: f.rule_id().to_owned(), level, message: Message { text: f.message().to_owned() }, locations }
}

/// The rule ids of the findings.
pub open spec fn finding_ids(fs: Seq<Finding>) -> Set<Seq<char>> {
    fs.map_values(|f: Finding| f@.rule_id).to_set()
}

/// The distinct rule ids of the findings, sorted.
fn sorted_rule_ids(findings: &Vec<Finding>) -> (r: Vec<String>)
    ensures
        strictly_sorted(r@.map_values(|s: String| s@)),
        r@.map_values(|s: String| s@).to_set() == finding_ids(findings@),
{
    let mut ids: Vec<String> = Vec::new();
    let mut i: usize = 0;
    while i < findings.len()
        invariant
            i <= findings@.len(),
            ids@.map_values(|s: String| s@) == findings@.take(i as int).map_values(|f: Finding| f@.rule_id),
        decreases findings.len() - i,
    {
        let ghost before = ids@.map_values(|s: String| s@);
        let id = findings[i].rule_id().to_owned();
        ids.push(id);
        assert(ids@.map_values(|s: String| s@) =~= before.push(findings@[i as int]@.rule_id));
        assert(findings@.take(i + 1).map_values(|f: Finding| f@.rule_id) =~= findings@.take(i as int).map_values(
            |f: Finding| f@.rule_id,
        ).push(findings@[i as int]@.rule_id));
        i = i + 1;
    }
    assert(findings@.take(findings@.len() as int) =~= findings@);
    sorted_distinct(&ids)
}

/// The rules of the log: the report's catalogue (id and summary) when it has
/// one, else each rule id that the findings use, once, in sorted order.
pub open spec fn rules_ok(report: Report, rules: Seq<Rule>) -> bool {
    if report.rule_catalog@.len() == 0 {
        &&& strictly_sorted(rules.map_values(|r: Rule| r.id@))
        &&& rules.map_values(|r: Rule| r.id@).to_set() == finding_ids(report.findings@)
        &&& forall|k: int| 0 <= k < rules.len() ==> (#[trigger] rules[k]).name@ == rules[k].id@
    } else {
        rules.map_values(|r: Rule| (r.id@, r.name@)) == report.rule_catalog@.map_values(
            |e: RuleCatalogEntry| (e.id@, e.summary@),
        )
    }
}

/// The report as a SARIF 2.1.0 log with one run of the `rscheck` tool: its
/// rules, and one result per finding, in order.
pub fn to_sarif(report: &Report) -> (r: SarifLog)
    ensures
        r.version@ == "2.1.0"@,
        r.schema@ == "https://json.schemastore.org/sarif-2.1.0.json"@,
        r.runs@.len() == 1,
        r.runs@[0].tool.driver.name@ == "rscheck"@,
        rules_ok(*report, r.runs@[0].tool.driver.rules@),
        r.runs@[0].results@.map_values(|x: ResultItem| result_v(x)) == report.findings@.map_values(
            |f: Finding| spec_result(f),
        ),
{
    let mut rules: Vec<Rule> = Vec::new();
    if report.rule_catalog.len() == 0 {
        let ids = sorted_rule_ids(&report.findings);
        let ghost iv = ids@.map_values(|s: String| s@);
        let mut k: usize = 0;
        while k < ids.len()
            invariant
                k <= ids@.len(),
                iv == ids@.map_values(|s: String| s@),
                rules@.map_values(|r: Rule| r.id@) == iv.take(k as int),
                forall|j: int| 0 <= j < rules@.len() ==> (#[trigger] rules@[j]).name@ == rules@[j].id@,
            decreases ids.len() - k,
        {
            let ghost before = rules@.map_values(|r: Rule| r.id@);
            let rule = Rule { id: ids[k].clone(), name: ids[k].clone() };
            rules.push(rule);
            assert(rules@.map_values(|r: Rule| r.id@) =~= before.push(rule.id@));
            assert(iv.take(k + 1) =~= iv.take(k as int).push(iv[k as int]));
            k = k + 1;
        }
        assert(iv.take(iv.len() as int) =~= iv);
    } else {
        let ghost cv = report.rule_catalog@.map_values(|e: RuleCatalogEntry| (e.id@, e.summary@));
        let mut k: usize = 0;
        while k < report.rule_catalog.len()
            invariant
                k <= report.rule_catalog@.len(),
                cv == report.rule_catalog@.map_values(|e: RuleCatalogEntry| (e.id@, e.summary@)),
                rules@.map_values(|r: Rule| (r.id@, r.name@)) == cv.take(k as int),
            decreases report.rule_catalog.len() - k,
        {
            let ghost before = rules@.map_values(|r: Rule| (r.id@, r.name@));
            let entry = &report.rule_catalog[k];
            let rule = Rule { id: entry.id.clone(), name: entry.summary.clone() };
            rules.push(rule);
            assert(rules@.map_values(|r: Rule| (r.id@, r.name@)) =~= before.push((rule.id@, rule.name@)));
            assert(cv.take(k + 1) =~= cv.take(k as int).push(cv[k as int]));
            k = k + 1;
        }
        assert(cv.take(cv.len() as int) =~= cv);
    }
    let ghost fv = report.findings@.map_values(|f: Finding| spec_result(f));
    let mut results: Vec<ResultItem> = Vec::new();
    let mut i: usize = 0;
    while i < report.findings.len()
        invariant
            i <= report.findings@.len(),
            fv == report.findings@.map_values(|f: Finding| spec_result(f)),
            results@.map_values(|x: ResultItem| result_v(x)) == fv.take(i as int),
        decreases report.findings.len() - i,
    {
        let ghost before = results@.map_values(|x: ResultItem| result_v(x));
        let item = finding_to_result(&report.findings[i]);
        let ghost iv = result_v(item);
        results.push(item);
        assert(results@.map_values(|x: ResultItem| result_v(x)) =~= before.push(iv));
        assert(fv.take(i + 1) =~= fv.take(i as int).push(fv[i as int]));
        i = i + 1;
    }
    assert(fv.take(fv.len() as int) =~= fv);
    let run = Run { tool: Tool { driver: Driver { name: String::from_str("rscheck"), rules } }, results };
    SarifLog {
        version: String::from_str("2.1.0"),
        schema: String::from_str("https://json.schemastore.org/sarif-2.1.0.json"),
        runs: vec![run],
    }
}

} // verus!

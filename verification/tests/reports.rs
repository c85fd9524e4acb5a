use rscheck::html::{escape_html, to_html};
use rscheck::report::{Finding, Report, RuleCatalogEntry, Severity};
use rscheck::rules::{RuleBackend, RuleFamily};
use rscheck::config::Level;
use rscheck::sarif::to_sarif;
use rscheck::span::{Location, Span};

fn span(file: &str) -> Span {
    Span { file: file.to_string(), start: Location { line: 3, column: 7 }, end: Location { line: 3, column: 9 } }
}

#[test]
fn escape_html_replaces_markup_characters() {
    assert_eq!(escape_html("a<b>&\"c'"), "a&lt;b&gt;&amp;&quot;c&#39;");
    assert_eq!(escape_html("plain text"), "plain text");
}

#[test]
fn html_rows_hold_escaped_text_and_location() {
    let mut report = Report::empty();
    report.findings.push(
        Finding::new(String::from("r<1>"), Severity::Deny, String::from("x & y"))
            .with_primary(span("src/a.rs"))
            .with_evidence(String::from("<pre>")),
    );
    let html = to_html(&report);
    assert!(html.starts_with("<!doctype html>"));
    assert!(html.ends_with("</tbody></table></body></html>"));
    assert!(html.contains(
        "<tr><td class=\"sev-deny\">deny</td><td><code>r&lt;1&gt;</code></td><td><code>src/a.rs:3:7</code></td><td>x &amp; y</td></tr>"
    ));
    assert!(html.contains("<tr><td colspan=\"4\"><pre>&lt;pre&gt;</pre></td></tr>"));
}

#[test]
fn sarif_lists_sorted_unique_rules_without_catalog() {
    let mut report = Report::empty();
    report.findings.push(Finding::new(String::from("b.rule"), Severity::Warn, String::from("one")).with_primary(span("f.rs")));
    report.findings.push(Finding::new(String::from("a.rule"), Severity::Info, String::from("two")));
    report.findings.push(Finding::new(String::from("b.rule"), Severity::Deny, String::from("three")));
    let log = to_sarif(&report);
    assert_eq!(log.version, "2.1.0");
    let run = &log.runs[0];
    let ids: Vec<&str> = run.tool.driver.rules.iter().map(|r| r.id.as_str()).collect();
    assert_eq!(ids, vec!["a.rule", "b.rule"]);
    assert_eq!(run.results.len(), 3);
    assert_eq!(run.results[0].level, "warning");
    assert_eq!(run.results[1].level, "note");
    assert_eq!(run.results[2].level, "error");
    let loc = &run.results[0].locations.as_ref().unwrap()[0].physical_location;
    assert_eq!(loc.artifact_location.uri, "f.rs");
    assert_eq!((loc.region.start_line, loc.region.start_column, loc.region.end_column), (3, 7, 9));
    assert!(run.results[1].locations.is_none());
}

#[test]
fn sarif_uses_catalog_summaries() {
    let mut report = Report::empty();
    report.rule_catalog.push(RuleCatalogEntry {
        id: String::from("z.rule"),
        family: RuleFamily::Design,
        backend: RuleBackend::Syntax,
        default_level: Level::Warn,
        summary: String::from("Zed."),
        fixable: false,
    });
    let log = to_sarif(&report);
    let rules = &log.runs[0].tool.driver.rules;
    assert_eq!(rules.len(), 1);
    assert_eq!((rules[0].id.as_str(), rules[0].name.as_str()), ("z.rule", "Zed."));
}

#[test]
fn worst_severity_decides_exit_code() {
    let mut report = Report::empty();
    assert_eq!(report.worst_severity().exit_code(), 0);
    report.findings.push(Finding::new(String::from("a"), Severity::Warn, String::from("m")));
    report.findings.push(Finding::new(String::from("b"), Severity::Info, String::from("m")));
    assert_eq!(report.worst_severity(), Severity::Warn);
    assert_eq!(report.worst_severity().exit_code(), 1);
}

#[test]
fn builder_chains_keep_the_rule_id() {
    let f = rscheck::report::Finding::new(String::from("demo.rule"), rscheck::report::Severity::Warn, String::from("m"))
        .with_help(String::from("h"))
        .with_evidence(String::from("e"))
        .with_confidence(String::from("high"))
        .with_tags(vec![String::from("t")])
        .with_notes(Vec::new())
        .with_fixes(Vec::new());
    assert_eq!(f.rule_id(), "demo.rule");
    assert_eq!(f.message(), "m");
}

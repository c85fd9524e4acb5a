//! The HTML rendering of a report.
use vstd::prelude::*;
use vstd::string::*;
use crate::report::{Finding, FindingView, Report, Severity};
use crate::text::{chars_of, decimal, u64_to_string};

verus! {

/// What one character becomes in HTML text.
pub open spec fn escape_char(c: char) -> Seq<char> {
    if c == '&' {
        "&amp;"@
    } else if c == '<' {
        "&lt;"@
    } else if c == '>' {
        "&gt;"@
    } else if c == '"' {
        "&quot;"@
    } else if c == '\'' {
        "&#39;"@
    } else {
        seq![c]
    }
}

/// `s` with `&`, `<`, `>`, `"` and `'` replaced by their entities.
pub open spec fn escaped(s: Seq<char>) -> Seq<char>
    decreases s.len(),
{
    if s.len() == 0 {
        Seq::empty()
    } else {
        escaped(s.drop_last()) + escape_char(s.last())
    }
}

/// `s` escaped for HTML text and attribute values.
pub fn escape_html(s: &str) -> (r: String)
    ensures
        r@ == escaped(s@),
{
    let cs = chars_of(s);
    let mut out = String::new();
    let mut i: usize = 0;
    while i < cs.len()
        invariant
            i <= cs@.len(),
            cs@ == s@,
            out@ == escaped(cs@.take(i as int)),
        decreases cs.len() - i,
    {
        assert(cs@.take(i + 1).drop_last() =~= cs@.take(i as int));
        let c = cs[i];
        if c == '&' {
            out.append("&amp;");
        } else if c == '<' {
            out.append("&lt;");
        } else if c == '>' {
            out.append("&gt;");
        } else if c == '"' {
            out.append("&quot;");
        } else if c == '\'' {
            out.append("&#39;");
        } else {
            let one = crate::text::string_of(&vec![c]);
            assert(one@ =~= seq![c]);
            out.append(one.as_str());
        }
        i = i + 1;
    }
    assert(cs@.take(cs@.len() as int) =~= cs@);
    out
}

/// The characters that escaping removes from text.
pub open spec fn is_markup(c: char) -> bool {
    c == '<' || c == '>' || c == '"' || c == '\''
}

/// Escaped text holds no `<`, `>`, `"` or `'`: it cannot open or close a tag
/// or an attribute value.
pub proof fn escaped_has_no_markup(s: Seq<char>)
    ensures
        forall|i: int| 0 <= i < escaped(s).len() ==> !is_markup(#[trigger] escaped(s)[i]),
    decreases s.len(),
{
    reveal_strlit("&amp;");
    reveal_strlit("&lt;");
    reveal_strlit("&gt;");
    reveal_strlit("&quot;");
    reveal_strlit("&#39;");
    if s.len() > 0 {
        escaped_has_no_markup(s.drop_last());
        let a = escaped(s.drop_last());
        let b = escape_char(s.last());
        assert forall|i: int| 0 <= i < escaped(s).len() implies !is_markup(#[trigger] escaped(s)[i]) by {
            if i < a.len() {
                assert(escaped(s)[i] == a[i]);
            } else {
                assert(escaped(s)[i] == b[i - a.len()]);
            }
        }
    }
}

/// Text without `&`, `<`, `>`, `"` and `'` is left as it is.
pub proof fn escaped_keeps_plain_text(s: Seq<char>)
    requires
        forall|i: int| 0 <= i < s.len() ==> !is_markup(#[trigger] s[i]) && s[i] != '&',
    ensures
        escaped(s) == s,
    decreases s.len(),
{
    if s.len() > 0 {
        escaped_keeps_plain_text(s.drop_last());
        assert(s.drop_last() + seq![s.last()] =~= s);
    }
}

/// The CSS class and the word for a severity.
pub open spec fn severity_class(s: Severity) -> (Seq<char>, Seq<char>) {
    match s {
        Severity::Info => ("sev-info"@, "info"@),
        Severity::Warn => ("sev-warn"@, "warn"@),
        Severity::Deny => ("sev-deny"@, "deny"@),
    }
}

/// `file:line:column` of the finding's primary span, or nothing.
pub open spec fn location_text(f: FindingView) -> Seq<char> {
    match f.primary {
        Some(p) => p.0 + ":"@ + decimal(p.1.line as nat) + ":"@ + decimal(p.1.column as nat),
        None => Seq::empty(),
    }
}

/// The table rows of one finding: its severity, rule, location and message,
/// then its evidence in a row of its own.
pub open spec fn finding_rows(f: FindingView) -> Seq<char> {
    "<tr><td class=\""@ + severity_class(f.severity).0 + "\">"@ + severity_class(f.severity).1
        + "</td><td><code>"@ + escaped(f.rule_id) + "</code></td><td><code>"@ + location_text(f)
        + "</code></td><td>"@ + escaped(f.message) + "</td></tr>"@ + match f.evidence {
        Some(e) => "<tr><td colspan=\"4\"><pre>"@ + escaped(e) + "</pre></td></tr>"@,
        None => Seq::empty(),
    }
}

pub open spec fn all_rows(fs: Seq<FindingView>) -> Seq<char>
    decreases fs.len(),
{
    if fs.len() == 0 {
        Seq::empty()
    } else {
        all_rows(fs.drop_last()) + finding_rows(fs.last())
    }
}

/// What comes before the rows.
pub open spec fn html_head() -> Seq<char> {
    "<!doctype html><html><head><meta charset=\"utf-8\"/>"@ + "<title>rscheck report</title>"@
        + STYLE@ + "</head><body>"@ + "<h1>rscheck report</h1>"@
        + "<table><thead><tr><th>Severity</th><th>Rule</th><th>Location</th><th>Message</th></tr></thead><tbody>"@
}

pub open spec fn html_tail() -> Seq<char> {
    "</tbody></table></body></html>"@
}

/// The whole page for a report's findings.
pub open spec fn html_page(fs: Seq<FindingView>) -> Seq<char> {
    html_head() + all_rows(fs) + html_tail()
}

/// The page's style sheet.
pub const STYLE: &'static str = "<style>body{font-family:ui-sans-serif,system-ui,Segoe UI,Roboto,Helvetica,Arial}\
     table{border-collapse:collapse;width:100%}th,td{border:1px solid #ddd;padding:6px}\
     th{text-align:left;background:#f6f6f6}\
     .sev-info{color:#555}.sev-warn{color:#b45309}.sev-deny{color:#b91c1c}\
     code,pre{font-family:ui-monospace,SFMono-Regular,Menlo,Monaco,Consolas,monospace}\
     </style>";

/// The report as one HTML page: a table with a row per finding and a row per
/// piece of evidence, all text escaped.
pub fn to_html(report: &Report) -> (r: String)
    ensures
        r@ == html_page(report.findings@.map_values(|f: Finding| f@)),
{
    let ghost fs = report.findings@.map_values(|f: Finding| f@);
    let mut html = String::new();
    html.append("<!doctype html><html><head><meta charset=\"utf-8\"/>");
    html.append("<title>rscheck report</title>");
    html.append(STYLE);
    html.append("</head><body>");
    html.append("<h1>rscheck report</h1>");
    html.append(
        "<table><thead><tr><th>Severity</th><th>Rule</th><th>Location</th><th>Message</th></tr></thead><tbody>",
    );
    assert(html@ =~= html_head());
    let mut i: usize = 0;
    while i < report.findings.len()
        invariant
            i <= report.findings@.len(),
            fs == report.findings@.map_values(|f: Finding| f@),
            html@ == html_head() + all_rows(fs.take(i as int)),
        decreases report.findings.len() - i,
    {
        assert(fs.take(i + 1).drop_last() =~= fs.take(i as int));
        let ghost before = html@;
        append_finding_rows(&mut html, &report.findings[i]);
        assert(html@ =~= html_head() + all_rows(fs.take(i + 1)));
        i = i + 1;
    }
    assert(fs.take(fs.len() as int) =~= fs);
    html.append("</tbody></table></body></html>");
    html
}

fn location_string(f: &Finding) -> (r: String)
    ensures
        r@ == location_text(f@),
{
    let mut loc = String::new();
    match f.primary() {
        Some(s) => {
            loc.append(s.file.as_str());
            loc.append(":");
            loc.append(u64_to_string(s.start.line as u64).as_str());
            loc.append(":");
            loc.append(u64_to_string(s.start.column as u64).as_str());
        },
        None => {},
    }
    assert(loc@ =~= location_text(f@));
    loc
}

/// The main row of a finding, from its already rendered cells.
fn main_row(class: &str, sev: &str, rule: &str, loc: &str, message: &str) -> (r: String)
    ensures
        r@ == "<tr><td class=\""@ + class@ + "\">"@ + sev@ + "</td><td><code>"@ + escaped(rule@)
            + "</code></td><td><code>"@ + loc@ + "</code></td><td>"@ + escaped(message@) + "</td></tr>"@,
{
    let mut html = String::new();
    html.append("<tr><td class=\"");
    html.append(class);
    html.append("\">");
    html.append(sev);
    html.append("</td><td><code>");
    html.append(escape_html(rule).as_str());
    html.append("</code></td><td><code>");
    html.append(loc);
    html.append("</code></td><td>");
    html.append(escape_html(message).as_str());
    html.append("</td></tr>");
    html
}

fn evidence_row(f: &Finding) -> (r: String)
    ensures
        r@ == match f@.evidence {
            Some(e) => "<tr><td colspan=\"4\"><pre>"@ + escaped(e) + "</pre></td></tr>"@,
            None => Seq::<char>::empty(),
        },
{
    let mut html = String::new();
    match f.evidence() {
        Some(evidence) => {
            html.append("<tr><td colspan=\"4\"><pre>");
            html.append(escape_html(evidence).as_str());
            html.append("</pre></td></tr>");
        },
        None => {},
    }
    html
}

fn append_finding_rows(html: &mut String, f: &Finding)
    ensures
        final(html)@ == old(html)@ + finding_rows(f@),
{
    let (sev_class, sev) = match f.severity() {
        Severity::Info => ("sev-info", "info"),
        Severity::Warn => ("sev-warn", "warn"),
        Severity::Deny => ("sev-deny", "deny"),
    };
    assert(sev_class@ == severity_class(f@.severity).0 && sev@ == severity_class(f@.severity).1);
    let loc = location_string(f);
    let row = main_row(sev_class, sev, f.rule_id(), loc.as_str(), f.message());
    let ev = evidence_row(f);
    html.append(row.as_str());
    html.append(ev.as_str());
    assert(html@ =~= old(html)@ + finding_rows(f@));
}

} // verus!

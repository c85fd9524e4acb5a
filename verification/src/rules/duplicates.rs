//! `shape.duplicate_logic`: which functions share token fingerprints, and how
//! many. The similarity itself is a floating-point ratio of these counts,
//! which the caller computes and compares with the configured threshold.
use vstd::prelude::*;
use vstd::string::*;
use crate::chars::starts_with_str;
use crate::fix::starts_with;
use crate::report::{Finding, Severity};
use crate::rules::catalog::{DuplicateLogicRule, duplicate_logic_info};
use crate::span::Span;

verus! {

/// The fingerprints of a function, in increasing order, each once.
pub open spec fn increasing(s: Seq<u64>) -> bool {
    forall|i: int, j: int| 0 <= i < j < s.len() ==> s[i] < s[j]
}

/// How many of the fingerprints `a` the fingerprints `b` also have.
pub open spec fn count_in(a: Seq<u64>, b: Seq<u64>) -> nat
    decreases a.len(),
{
    if a.len() == 0 {
        0
    } else {
        count_in(a.drop_last(), b) + if b.contains(a.last()) {
            1nat
        } else {
            0nat
        }
    }
}

proof fn lemma_count_in_bound(a: Seq<u64>, b: Seq<u64>)
    ensures
        count_in(a, b) <= a.len(),
    decreases a.len(),
{
    if a.len() > 0 {
        lemma_count_in_bound(a.drop_last(), b);
    }
}

/// Whether the increasing `b` holds `x`.
fn sorted_contains(b: &Vec<u64>, x: u64) -> (r: bool)
    requires
        increasing(b@),
    ensures
        r == b@.contains(x),
{
    let mut lo: usize = 0;
    let mut hi: usize = b.len();
    while lo < hi
        invariant
            lo <= hi <= b@.len(),
            increasing(b@),
            forall|k: int| 0 <= k < lo ==> b@[k] < x,
            forall|k: int| hi <= k < b@.len() ==> b@[k] > x,
        decreases hi - lo,
    {
        let mid = lo + (hi - lo) / 2;
        if b[mid] == x {
            assert(b@[mid as int] == x);
            return true;
        } else if b[mid] < x {
            lo = mid + 1;
        } else {
            hi = mid;
        }
    }
    false
}

/// How many fingerprints of `a` the increasing `b` also has.
fn common_count(a: &Vec<u64>, b: &Vec<u64>) -> (r: usize)
    requires
        increasing(b@),
    ensures
        r == count_in(a@, b@),
{
    let mut n: usize = 0;
    let mut i: usize = 0;
    while i < a.len()
        invariant
            i <= a@.len(),
            increasing(b@),
            n == count_in(a@.take(i as int), b@),
            n <= i,
        decreases a.len() - i,
    {
        assert(a@.take(i + 1).drop_last() =~= a@.take(i as int));
        assert(a@.take(i + 1).last() == a@[i as int]);
        if sorted_contains(b, a[i]) {
            n = n + 1;
        }
        i = i + 1;
    }
    assert(a@.take(a@.len() as int) =~= a@);
    n
}

/// Two functions whose fingerprints overlap: their indices, the number of
/// fingerprints of each, and how many they share.
#[derive(Debug, Clone, Copy)]
pub struct Overlap {
    pub first: usize,
    pub second: usize,
    pub first_len: usize,
    pub second_len: usize,
    pub shared: usize,
}

/// The functions `i` and `j` are compared: both have at least `min_tokens`
/// tokens and some fingerprints, and they share at least one fingerprint.
pub open spec fn compared(sets: Seq<Vec<u64>>, tokens: Seq<usize>, min_tokens: usize, i: int, j: int) -> bool {
    &&& tokens[i] >= min_tokens
    &&& tokens[j] >= min_tokens
    &&& sets[i]@.len() > 0
    &&& sets[j]@.len() > 0
    &&& count_in(sets[i]@, sets[j]@) > 0
}

/// `o` describes the compared pair `(o.first, o.second)` of the functions.
pub open spec fn describes(o: Overlap, sets: Seq<Vec<u64>>, tokens: Seq<usize>, min_tokens: usize) -> bool {
    &&& o.first < o.second < sets.len()
    &&& compared(sets, tokens, min_tokens, o.first as int, o.second as int)
    &&& o.first_len == sets[o.first as int]@.len()
    &&& o.second_len == sets[o.second as int]@.len()
    &&& o.shared == count_in(sets[o.first as int]@, sets[o.second as int]@)
}

/// `a` comes before `b`: by the first function, then by the second.
pub open spec fn pair_lt(a: Overlap, b: Overlap) -> bool {
    a.first < b.first || (a.first == b.first && a.second < b.second)
}

/// The pairs of functions to compare, given each function's fingerprints (in
/// increasing order) and token count: every pair `i < j` that [`compared`]
/// admits, once, in increasing order of `(i, j)`, with the counts that the
/// similarity is computed from.
pub fn overlapping_pairs(sets: &Vec<Vec<u64>>, tokens: &Vec<usize>, min_tokens: usize) -> (r: Vec<Overlap>)
    requires
        sets@.len() == tokens@.len(),
        forall|i: int| 0 <= i < sets@.len() ==> increasing(#[trigger] sets@[i]@),
    ensures
        forall|k: int| 0 <= k < r@.len() ==> describes(#[trigger] r@[k], sets@, tokens@, min_tokens),
        forall|i: int, j: int|
            0 <= i < j < sets@.len() && compared(sets@, tokens@, min_tokens, i, j) ==> exists|k: int|
                0 <= k < r@.len() && (#[trigger] r@[k]).first == i && r@[k].second == j,
        forall|k1: int, k2: int| 0 <= k1 < k2 < r@.len() ==> pair_lt(#[trigger] r@[k1], #[trigger] r@[k2]),
{
    let n = sets.len();
    let mut out: Vec<Overlap> = Vec::new();
    let mut i: usize = 0;
    while i < n
        invariant
            n == sets@.len(),
            sets@.len() == tokens@.len(),
            i <= n,
            forall|q: int| 0 <= q < sets@.len() ==> increasing(#[trigger] sets@[q]@),
            forall|k: int| 0 <= k < out@.len() ==> describes(#[trigger] out@[k], sets@, tokens@, min_tokens),
            forall|k: int| 0 <= k < out@.len() ==> (#[trigger] out@[k]).first < i,
            forall|a: int, b: int|
                0 <= a < i && a < b < n && compared(sets@, tokens@, min_tokens, a, b) ==> exists|k: int|
                    0 <= k < out@.len() && (#[trigger] out@[k]).first == a && out@[k].second == b,
            forall|k1: int, k2: int| 0 <= k1 < k2 < out@.len() ==> pair_lt(#[trigger] out@[k1], #[trigger] out@[k2]),
        decreases n - i,
    {
        let usable_i = tokens[i] >= min_tokens && sets[i].len() > 0;
        let mut j: usize = i + 1;
        while j < n
            invariant
                n == sets@.len(),
                sets@.len() == tokens@.len(),
                i < n,
                i < j <= n,
                usable_i == (tokens@[i as int] >= min_tokens && sets@[i as int]@.len() > 0),
                forall|q: int| 0 <= q < sets@.len() ==> increasing(#[trigger] sets@[q]@),
                forall|k: int| 0 <= k < out@.len() ==> describes(#[trigger] out@[k], sets@, tokens@, min_tokens),
                forall|k: int|
                    0 <= k < out@.len() ==> (#[trigger] out@[k]).first < i || (out@[k].first == i && out@[k].second < j),
                forall|a: int, b: int|
                    0 <= a < i && a < b < n && compared(sets@, tokens@, min_tokens, a, b) ==> exists|k: int|
                        0 <= k < out@.len() && (#[trigger] out@[k]).first == a && out@[k].second == b,
                forall|b: int|
                    i < b < j && compared(sets@, tokens@, min_tokens, i as int, b) ==> exists|k: int|
                        0 <= k < out@.len() && (#[trigger] out@[k]).first == i && out@[k].second == b,
                forall|k1: int, k2: int| 0 <= k1 < k2 < out@.len() ==> pair_lt(#[trigger] out@[k1], #[trigger] out@[k2]),
            decreases n - j,
        {
            if usable_i && tokens[j] >= min_tokens && sets[j].len() > 0 {
                let shared = common_count(&sets[i], &sets[j]);
                if shared > 0 {
                    let o = Overlap {
                        first: i,
                        second: j,
                        first_len: sets[i].len(),
                        second_len: sets[j].len(),
                        shared,
                    };
                    let ghost before = out@;
                    out.push(o);
                    assert(out@[before.len() as int] == o);
                    assert forall|k: int| 0 <= k < out@.len() implies describes(#[trigger] out@[k], sets@, tokens@, min_tokens) by {
                        if k < before.len() {
                            assert(out@[k] == before[k]);
                        }
                    }
                    assert forall|k1: int, k2: int| 0 <= k1 < k2 < out@.len() implies pair_lt(#[trigger] out@[k1], #[trigger] out@[k2]) by {
                        assert(out@[k1] == before[k1]);
                        if k2 < before.len() {
                            assert(out@[k2] == before[k2]);
                        }
                    }
                    assert forall|a: int, b: int|
                        0 <= a < i && a < b < n && compared(sets@, tokens@, min_tokens, a, b) implies exists|k: int|
                            0 <= k < out@.len() && (#[trigger] out@[k]).first == a && out@[k].second == b by {
                        let k = choose|k: int| 0 <= k < before.len() && (#[trigger] before[k]).first == a && before[k].second == b;
                        assert(out@[k] == before[k]);
                    }
                    assert forall|b: int|
                        i < b < j + 1 && compared(sets@, tokens@, min_tokens, i as int, b) implies exists|k: int|
                            0 <= k < out@.len() && (#[trigger] out@[k]).first == i && out@[k].second == b by {
                        if b < j {
                            let k = choose|k: int| 0 <= k < before.len() && (#[trigger] before[k]).first == i && before[k].second == b;
                            assert(out@[k] == before[k]);
                        }
                    }
                }
            }
            j = j + 1;
        }
        i = i + 1;
    }
    out
}


// ---------------------------------------------------------------------------
// Tokens
// ---------------------------------------------------------------------------

/// The class a literal token is normalised to: `STR` for a string literal (it
/// starts with `"`, `r"`, `r#` or `b"`), `INT` for a number (it starts with a
/// digit or `-`), `LIT` for any other literal.
pub open spec fn literal_class(s: Seq<char>) -> Seq<char> {
    if starts_with(s, "\""@) || starts_with(s, "r\""@) || starts_with(s, "r#"@) || starts_with(s, "b\""@) {
        "STR"@
    } else if s.len() > 0 && (('0' <= s[0] && s[0] <= '9') || s[0] == '-') {
        "INT"@
    } else {
        "LIT"@
    }
}

/// The class of the literal token `s`; see [`literal_class`].
pub fn classify_literal(s: &str) -> (r: &'static str)
    ensures
        r@ == literal_class(s@),
{
    if starts_with_str(s, "\"") || starts_with_str(s, "r\"") || starts_with_str(s, "r#") || starts_with_str(s, "b\"") {
        return "STR";
    }
    let cs = crate::text::chars_of(s);
    if cs.len() > 0 && (('0' <= cs[0] && cs[0] <= '9') || cs[0] == '-') {
        return "INT";
    }
    "LIT"
}

// ---------------------------------------------------------------------------
// Findings
// ---------------------------------------------------------------------------

/// The message of a finding: the similarity, already written as a whole
/// percentage, and the two functions' names.
pub open spec fn duplicate_message(percent: Seq<char>, a: Seq<char>, b: Seq<char>) -> Seq<char> {
    "duplicate logic: "@ + percent + "% similarity between `"@ + a + "` and `"@ + b + "`"@
}

/// The finding for two similar functions: at the first, with the second as the
/// secondary location, the side-by-side `evidence`, the advice to extract or
/// delete, and the tag `duplication`.
pub fn duplicate_logic_finding(
    severity: Severity,
    percent: &str,
    first_name: &str,
    first_span: Span,
    second_name: &str,
    second_span: Span,
    evidence: String,
) -> (r: Finding)
    ensures
        r.identity.rule_id@ == duplicate_logic_info().id@,
        r.identity.family == Some(duplicate_logic_info().family),
        r.identity.engine == Some(duplicate_logic_info().backend),
        r.diagnostic.severity == severity,
        r.diagnostic.message@ == duplicate_message(percent@, first_name@, second_name@),
        r.diagnostic.help matches Some(h) && h@ == "Extract shared code or delete one copy."@,
        r.location.primary == Some(first_span),
        r.location.secondary@ == seq![second_span],
        r.metadata.evidence == Some(evidence),
        r.metadata.confidence is None,
        r.metadata.tags@.len() == 1 && r.metadata.tags@[0]@ == "duplication"@,
        r.related.labels@.len() == 0,
        r.related.notes@.len() == 0,
        r.related.fixes@.len() == 0,
{
    let mut message = String::from_str("duplicate logic: ");
    message.append(percent);
    message.append("% similarity between `");
    message.append(first_name);
    message.append("` and `");
    message.append(second_name);
    message.append("`");
    let secondary = vec![second_span];
    let tags = vec![String::from_str("duplication")];
    let info = DuplicateLogicRule::static_info();
    Finding::from_rule(info, severity, message)
        .with_primary(first_span)
        .with_secondary(secondary)
        .with_help(String::from_str("Extract shared code or delete one copy."))
        .with_evidence(evidence)
        .with_tags(tags)
}


// ---------------------------------------------------------------------------
// The side-by-side evidence
// ---------------------------------------------------------------------------

/// What a line diff did with a line.
#[derive(Debug, Clone, Copy, PartialEq, Eq, Structural)]
pub enum LineTag {
    Delete,
    Insert,
    Equal,
}

/// One line of a line diff, with its text as the diff shows it.
#[derive(Debug)]
pub struct LineChange {
    pub tag: LineTag,
    pub text: String,
}

/// The lines that `similar` lists when it diffs `old` and `new` line by line.
pub uninterp spec fn line_changes_of(old: Seq<char>, new: Seq<char>) -> Seq<(LineTag, Seq<char>)>;

/// `similar::TextDiff::from_lines(old, new)` and its `iter_all_changes`: each
/// change's tag and text (`to_string`), in order; the list is named by
/// `line_changes_of`.
#[verifier::external_body]
fn line_changes(old: &str, new: &str) -> (r: Vec<LineChange>)
    ensures
        r@.map_values(|c: LineChange| (c.tag, c.text@)) == line_changes_of(old@, new@),
{
    let mut out = Vec::new();
    for change in similar::TextDiff::from_lines(old, new).iter_all_changes() {
        let tag = match change.tag() {
            similar::ChangeTag::Delete => LineTag::Delete,
            similar::ChangeTag::Insert => LineTag::Insert,
            similar::ChangeTag::Equal => LineTag::Equal,
        };
        out.push(LineChange { tag, text: change.to_string() });
    }
    out
}

/// `s` with each tab widened to four spaces.
pub open spec fn expand_tabs(s: Seq<char>) -> Seq<char>
    decreases s.len(),
{
    if s.len() == 0 {
        s
    } else {
        expand_tabs(s.drop_last()) + if s.last() == '\t' {
            "    "@
        } else {
            seq![s.last()]
        }
    }
}

/// A line as the table shows it: tabs widened, its final newline dropped.
pub open spec fn shown_line(s: Seq<char>) -> Seq<char> {
    let t = expand_tabs(s);
    if t.len() > 0 && t.last() == '\n' {
        t.drop_last()
    } else {
        t
    }
}

/// The text of a change in the left column (the first function's side).
pub open spec fn left_text(c: (LineTag, Seq<char>)) -> Seq<char> {
    if c.0 == LineTag::Insert {
        Seq::empty()
    } else {
        c.1
    }
}

/// The text of a change in the right column (the second function's side).
pub open spec fn right_text(c: (LineTag, Seq<char>)) -> Seq<char> {
    if c.0 == LineTag::Delete {
        Seq::empty()
    } else {
        c.1
    }
}

/// The byte length of a change's left text, at most 120.
pub open spec fn left_width(c: (LineTag, Seq<char>)) -> nat {
    let b = crate::fix::utf8(left_text(c)).len();
    if b < 120 {
        b
    } else {
        120
    }
}

/// The width of the left column: the byte length of the longest left text,
/// at most 120.
pub open spec fn column_width(cs: Seq<(LineTag, Seq<char>)>) -> nat
    decreases cs.len(),
{
    if cs.len() == 0 {
        0
    } else {
        let m = column_width(cs.drop_last());
        let l = left_width(cs.last());
        if l > m {
            l
        } else {
            m
        }
    }
}

/// The byte length of `s` in UTF-8, or `cap` when it is longer.
fn bytes_capped(s: &str, cap: usize) -> (r: usize)
    requires
        cap <= 1024,
    ensures
        r == if crate::fix::utf8(s@).len() < cap {
            crate::fix::utf8(s@).len()
        } else {
            cap as nat
        },
{
    let cs = crate::text::chars_of(s);
    let mut n: usize = 0;
    let mut i: usize = 0;
    while i < cs.len() && n < cap
        invariant
            i <= cs@.len(),
            cs@ == s@,
            cap <= 1024,
            n == crate::fix::utf8(cs@.take(i as int)).len(),
            n < cap + 4,
        decreases cs.len() - i,
    {
        proof {
            assert(cs@.take(i + 1) =~= cs@.take(i as int) + seq![cs@[i as int]]);
            crate::fix::lemma_utf8_concat(cs@.take(i as int), seq![cs@[i as int]]);
        }
        n = n + crate::fix::utf8_width(cs[i]);
        i = i + 1;
    }
    proof {
        assert(cs@ =~= cs@.take(i as int) + cs@.skip(i as int));
        crate::fix::lemma_utf8_concat(cs@.take(i as int), cs@.skip(i as int));
        if i == cs@.len() {
            assert(cs@.take(i as int) =~= cs@);
        }
    }
    if n < cap {
        n
    } else {
        cap
    }
}

/// `s` padded with spaces to `w` characters.
pub open spec fn padded(s: Seq<char>, w: nat) -> Seq<char> {
    if s.len() >= w {
        s
    } else {
        s + Seq::new((w - s.len()) as nat, |i: int| ' ')
    }
}

/// The table's rows: left text padded to `w`, ` | `, right text, a newline.
pub open spec fn table_rows(cs: Seq<(LineTag, Seq<char>)>, w: nat) -> Seq<char>
    decreases cs.len(),
{
    if cs.len() == 0 {
        Seq::empty()
    } else {
        table_rows(cs.drop_last(), w) + padded(shown_line(left_text(cs.last())), w) + " | "@ + shown_line(
            right_text(cs.last()),
        ) + "\n"@
    }
}

/// The two functions' code side by side, from the line diff `cs` of their
/// texts: a two-column table headed `A | B`.
pub open spec fn side_by_side_text(cs: Seq<(LineTag, Seq<char>)>) -> Seq<char> {
    "A | B\n---|---\n"@ + table_rows(cs, column_width(cs))
}

fn shown_line_exec(s: &str) -> (r: String)
    ensures
        r@ == shown_line(s@),
{
    let cs = crate::text::chars_of(s);
    let mut out: Vec<char> = Vec::new();
    let mut i: usize = 0;
    while i < cs.len()
        invariant
            i <= cs@.len(),
            cs@ == s@,
            out@ == expand_tabs(cs@.take(i as int)),
        decreases cs.len() - i,
    {
        assert(cs@.take(i + 1).drop_last() =~= cs@.take(i as int));
        assert(cs@.take(i + 1).last() == cs@[i as int]);
        if cs[i] == '\t' {
            out.push(' ');
            out.push(' ');
            out.push(' ');
            out.push(' ');
            proof {
                reveal_strlit("    ");
            }
            assert(out@ =~= expand_tabs(cs@.take(i as int)) + "    "@);
        } else {
            out.push(cs[i]);
            assert(out@ =~= expand_tabs(cs@.take(i as int)) + seq![cs@[i as int]]);
        }
        i = i + 1;
    }
    assert(cs@.take(cs@.len() as int) =~= cs@);
    if out.len() > 0 && out[out.len() - 1] == '\n' {
        out.pop();
    }
    crate::text::string_of(&out)
}

/// The left and right texts of a change.
fn columns(c: &LineChange) -> (r: (&str, &str))
    ensures
        r.0@ == left_text((c.tag, c.text@)),
        r.1@ == right_text((c.tag, c.text@)),
{
    proof {
        reveal_strlit("");
    }
    match c.tag {
        LineTag::Delete => (c.text.as_str(), ""),
        LineTag::Insert => ("", c.text.as_str()),
        LineTag::Equal => (c.text.as_str(), c.text.as_str()),
    }
}

/// The evidence of a finding: the two functions' code side by side, as the
/// line diff of `a` and `b` lays them out.
pub fn side_by_side(a: &str, b: &str) -> (r: String)
    ensures
        r@ == side_by_side_text(line_changes_of(a@, b@)),
{
    let changes = line_changes(a, b);
    side_by_side_table(&changes)
}

/// The two-column table of the line diff `changes`; see [`side_by_side_text`].
pub fn side_by_side_table(changes: &Vec<LineChange>) -> (r: String)
    ensures
        r@ == side_by_side_text(changes@.map_values(|c: LineChange| (c.tag, c.text@))),
{
    let ghost cs = changes@.map_values(|c: LineChange| (c.tag, c.text@));
    let mut width: usize = 0;
    let mut i: usize = 0;
    while i < changes.len()
        invariant
            i <= changes@.len(),
            cs == changes@.map_values(|c: LineChange| (c.tag, c.text@)),
            width == column_width(cs.take(i as int)),
            width <= 120,
        decreases changes.len() - i,
    {
        assert(cs.take(i + 1).drop_last() =~= cs.take(i as int));
        assert(cs.take(i + 1).last() == cs[i as int]);
        assert(cs[i as int] == (changes@[i as int].tag, changes@[i as int].text@));
        let (l, _) = columns(&changes[i]);
        let n = bytes_capped(l, 120);
        if n > width {
            width = n;
        }
        i = i + 1;
    }
    assert(cs.take(cs.len() as int) =~= cs);
    let mut out = String::from_str("A | B\n---|---\n");
    let ghost head = out@;
    let mut k: usize = 0;
    while k < changes.len()
        invariant
            k <= changes@.len(),
            cs == changes@.map_values(|c: LineChange| (c.tag, c.text@)),
            width == column_width(cs),
            out@ == head + table_rows(cs.take(k as int), width as nat),
        decreases changes.len() - k,
    {
        assert(cs.take(k + 1).drop_last() =~= cs.take(k as int));
        assert(cs.take(k + 1).last() == cs[k as int]);
        let (l, r) = columns(&changes[k]);
        let ls = shown_line_exec(l);
        let rs = shown_line_exec(r);
        let ghost before = out@;
        out.append(ls.as_str());
        let count = crate::text::chars_of(ls.as_str()).len();
        let mut pad: usize = count;
        while pad < width
            invariant
                count == ls@.len(),
                count <= pad <= width || (pad == count && count >= width),
                out@ == before + ls@ + Seq::new((pad - count) as nat, |q: int| ' '),
            decreases width - pad,
        {
            let ghost o = out@;
            crate::text::push_char(&mut out, ' ');
            pad = pad + 1;
            assert(out@ =~= before + ls@ + Seq::new((pad - count) as nat, |q: int| ' ')) by {
                assert(o.push(' ') =~= before + ls@ + Seq::new((pad - count) as nat, |q: int| ' '));
            }
        }
        assert(before + ls@ + Seq::new((pad - count) as nat, |q: int| ' ') =~= before + padded(ls@, width as nat));
        out.append(" | ");
        out.append(rs.as_str());
        out.append("\n");
        assert(out@ =~= head + table_rows(cs.take(k + 1), width as nat));
        k = k + 1;
    }
    assert(cs.take(cs.len() as int) =~= cs);
    out
}

} // verus!

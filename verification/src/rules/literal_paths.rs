//! `portability.absolute_literal_paths`: absolute filesystem paths in string
//! literals and line comments.
use vstd::prelude::*;
use vstd::string::*;
use crate::chars::{has_sub, occurs_at, line_at, lines, lines_from, next_line, slice_chars, contains_chars, starts_with_chars};
use crate::config::read::views;
use crate::config::rule_options::AbsoluteFilesystemPathsConfig;
use crate::fix::{is_whitespace, is_whitespace_exec, leading_ws, line_end_from, starts_with};
use crate::glob::{lenient_match, lenient_globs_match};
use crate::regex_match::{regex_set_match, regex_set_result};
use crate::report::{
    Finding, FindingLabel, FindingLabelKind, FindingNote, FindingNoteKind, FindingView, Severity, SpanView,
    rule_finding_view,
};
use crate::rules::catalog::{AbsoluteFilesystemPathsRule, absolute_literal_paths_info};
use crate::span::{LineColumn, Location, Span, location_of};
use crate::text::{chars_of, string_of};

verus! {

pub open spec fn ends_with(s: Seq<char>, p: Seq<char>) -> bool {
    p.len() <= s.len() && s.skip(s.len() - p.len()) == p
}

/// A literal that starts with `/` but is not a filesystem path: comment
/// markers, only slashes, URLs and route patterns.
pub open spec fn spec_non_filesystem_unix(v: Seq<char>) -> bool {
    ||| starts_with(v, "//"@) || starts_with(v, "/*"@)
    ||| (forall|i: int| 0 <= i < v.len() ==> v[i] == '/')
    ||| has_sub(v, "://"@) || starts_with(v, "/api/"@) || starts_with(v, "/graphql"@) || starts_with(
        v,
        "/oauth/"@,
    ) || starts_with(v, "/v1/"@) || starts_with(v, "/v2/"@) || starts_with(v, "/:"@)
    ||| has_sub(v, "/{"@) || has_sub(v, "/:"@) || v.contains('?') || v.contains('#') || starts_with(v, "^/"@)
        || ends_with(v, "/$"@)
}

/// The number of non-empty `\`-separated segments of `s` that start after a
/// `\` (or at the start, when `after_sep`).
pub open spec fn seg_starts(s: Seq<char>, after_sep: bool) -> nat
    decreases s.len(),
{
    if s.len() == 0 {
        0
    } else {
        (if s[0] != '\\' && after_sep { 1nat } else { 0nat }) + seg_starts(s.drop_first(), s[0] == '\\')
    }
}

pub open spec fn is_ascii_alpha(c: char) -> bool {
    ('a' <= c && c <= 'z') || ('A' <= c && c <= 'Z')
}

/// The kind of absolute path a literal is: `unix`, `windows-drive` or `unc`.
pub open spec fn spec_absolute_kind(s: Seq<char>) -> Option<Seq<char>> {
    if starts_with(s, "/"@) {
        if spec_non_filesystem_unix(s) {
            None
        } else {
            Some("unix"@)
        }
    } else if s.len() >= 3 && s[1] == ':' && (s[2] == '\\' || s[2] == '/') && is_ascii_alpha(s[0]) {
        Some("windows-drive"@)
    } else if starts_with(s, "\\\\"@) {
        if seg_starts(s, true) >= 2 {
            Some("unc"@)
        } else {
            None
        }
    } else {
        None
    }
}

/// A drive letter of either case, then `:` and a slash or backslash, starts
/// an absolute Windows drive path, whatever follows; so the case of the drive
/// letter never changes how a literal is classified.
pub proof fn drive_letter_paths_are_windows_drive(letter: char, sep: char, rest: Seq<char>)
    requires
        ('a' <= letter && letter <= 'z') || ('A' <= letter && letter <= 'Z'),
        sep == '\\' || sep == '/',
    ensures
        spec_absolute_kind(seq![letter, ':', sep] + rest) == Some("windows-drive"@),
{
    reveal_strlit("/");
    let s = seq![letter, ':', sep] + rest;
    assert(s[0] == letter && s[1] == ':' && s[2] == sep);
    assert(!starts_with(s, "/"@)) by {
        assert(s.take(1)[0] == letter);
    }
}

proof fn lemma_absent_char_no_sub(s: Seq<char>, p: Seq<char>, k: int)
    requires
        0 <= k < p.len(),
        forall|j: int| 0 <= j < s.len() ==> s[j] != p[k],
    ensures
        !has_sub(s, p),
{
    assert forall|i: int| !occurs_at(s, p, i) by {
        if occurs_at(s, p, i) {
            assert(s.subrange(i, i + p.len())[k] == s[i + k]);
        }
    }
}

/// A slash followed by a name made of lower-case ASCII letters, dots,
/// underscores, hyphens and further slashes, starting with a letter, is a
/// Unix absolute path, unless it reads as an API route (`/api/`, `/graphql`,
/// `/oauth/`).
pub proof fn plain_slash_paths_are_unix(w: Seq<char>)
    requires
        w.len() > 0,
        'a' <= w[0] && w[0] <= 'z',
        forall|i: int|
            0 <= i < w.len() ==> ('a' <= #[trigger] w[i] && w[i] <= 'z') || w[i] == '/' || w[i] == '.' || w[i] == '_'
                || w[i] == '-',
        !starts_with(w, "api/"@),
        !starts_with(w, "graphql"@),
        !starts_with(w, "oauth/"@),
    ensures
        spec_absolute_kind(seq!['/'] + w) == Some("unix"@),
{
    reveal_strlit("/");
    reveal_strlit("//");
    reveal_strlit("/*");
    reveal_strlit("://");
    reveal_strlit("/api/");
    reveal_strlit("api/");
    reveal_strlit("/graphql");
    reveal_strlit("graphql");
    reveal_strlit("/oauth/");
    reveal_strlit("oauth/");
    reveal_strlit("/v1/");
    reveal_strlit("/v2/");
    reveal_strlit("/:");
    reveal_strlit("/{");
    reveal_strlit("^/");
    reveal_strlit("/$");
    let v = seq!['/'] + w;
    assert forall|j: int| 1 <= j < v.len() implies v[j] == w[j - 1] by {}
    assert forall|j: int| 0 <= j < v.len() implies v[j] != ':' && v[j] != '{' && v[j] != '?' && v[j] != '#' && v[j]
        != '$' && v[j] != '*' && v[j] != '1' && v[j] != '2' by {
        if j > 0 {
            assert(v[j] == w[j - 1]);
        }
    }
    assert(v[1] == w[0]);
    assert(starts_with(v, "/"@)) by {
        assert(v.take(1) =~= "/"@);
    }
    assert(!starts_with(v, "//"@)) by {
        if starts_with(v, "//"@) {
            assert(v.take(2)[1] == v[1]);
        }
    }
    assert(!starts_with(v, "/*"@)) by {
        if starts_with(v, "/*"@) {
            assert(v.take(2)[1] == v[1]);
        }
    }
    assert(!(forall|i: int| 0 <= i < v.len() ==> v[i] == '/'));
    lemma_absent_char_no_sub(v, "://"@, 0);
    lemma_absent_char_no_sub(v, "/{"@, 1);
    lemma_absent_char_no_sub(v, "/:"@, 1);
    assert(!v.contains('?'));
    assert(!v.contains('#'));
    assert(!starts_with(v, "/api/"@)) by {
        if starts_with(v, "/api/"@) {
            assert(w.take(4) =~= "api/"@) by {
                assert forall|j: int| 0 <= j < 4 implies w.take(4)[j] == "api/"@[j] by {
                    assert(v.take(5)[j + 1] == "/api/"@[j + 1]);
                }
            }
        }
    }
    assert(!starts_with(v, "/graphql"@)) by {
        if starts_with(v, "/graphql"@) {
            assert(w.take(7) =~= "graphql"@) by {
                assert forall|j: int| 0 <= j < 7 implies w.take(7)[j] == "graphql"@[j] by {
                    assert(v.take(8)[j + 1] == "/graphql"@[j + 1]);
                }
            }
        }
    }
    assert(!starts_with(v, "/oauth/"@)) by {
        if starts_with(v, "/oauth/"@) {
            assert(w.take(6) =~= "oauth/"@) by {
                assert forall|j: int| 0 <= j < 6 implies w.take(6)[j] == "oauth/"@[j] by {
                    assert(v.take(7)[j + 1] == "/oauth/"@[j + 1]);
                }
            }
        }
    }
    assert(!starts_with(v, "/v1/"@)) by {
        if starts_with(v, "/v1/"@) {
            assert(v.take(4)[2] == v[2]);
        }
    }
    assert(!starts_with(v, "/v2/"@)) by {
        if starts_with(v, "/v2/"@) {
            assert(v.take(4)[2] == v[2]);
        }
    }
    assert(!starts_with(v, "/:"@)) by {
        if starts_with(v, "/:"@) {
            assert(v.take(2)[1] == v[1]);
        }
    }
    assert(!starts_with(v, "^/"@)) by {
        if starts_with(v, "^/"@) {
            assert(v.take(2)[0] == v[0]);
        }
    }
    assert(!ends_with(v, "/$"@)) by {
        if ends_with(v, "/$"@) {
            assert(v.skip(v.len() - 2)[1] == v[v.len() - 1]);
        }
    }
    assert(!spec_non_filesystem_unix(v));
}

/// A literal that starts with `/` but is a comment marker, only slashes, a
/// URL, an API route or a route pattern (with `?`, `#`, `/{` or `/:`) is not
/// an absolute path.
pub proof fn slash_literals_that_are_not_paths(v: Seq<char>)
    requires
        starts_with(v, "/"@),
        starts_with(v, "//"@) || starts_with(v, "/*"@) || (forall|i: int| 0 <= i < v.len() ==> v[i] == '/')
            || has_sub(v, "://"@) || starts_with(v, "/api/"@) || starts_with(v, "/graphql"@) || starts_with(
            v,
            "/oauth/"@,
        ) || starts_with(v, "/v1/"@) || starts_with(v, "/v2/"@) || has_sub(v, "/{"@) || has_sub(v, "/:"@)
            || v.contains('?') || v.contains('#'),
    ensures
        spec_absolute_kind(v) is None,
{
}

proof fn lemma_seg_concat(a: Seq<char>, t: Seq<char>, after: bool)
    ensures
        seg_starts(a + t, after) == seg_starts(a, after) + seg_starts(
            t,
            if a.len() > 0 {
                a.last() == '\\'
            } else {
                after
            },
        ),
    decreases a.len(),
{
    if a.len() == 0 {
        assert(a + t =~= t);
    } else {
        assert((a + t).drop_first() =~= a.drop_first() + t);
        assert((a + t)[0] == a[0]);
        lemma_seg_concat(a.drop_first(), t, a[0] == '\\');
        if a.len() > 1 {
            assert(a.drop_first().last() == a.last());
        }
    }
}

/// Two backslashes, a server name and a share name (neither empty nor
/// holding a backslash) separated by a backslash start a UNC path; two
/// backslashes and a server name alone do not.
pub proof fn unc_paths_need_server_and_share(server: Seq<char>, share: Seq<char>, rest: Seq<char>)
    requires
        server.len() > 0,
        share.len() > 0,
        forall|i: int| 0 <= i < server.len() ==> server[i] != '\\',
        forall|i: int| 0 <= i < share.len() ==> share[i] != '\\',
    ensures
        spec_absolute_kind(seq!['\\', '\\'] + server + seq!['\\'] + share + rest) == Some("unc"@),
        spec_absolute_kind(seq!['\\', '\\'] + server) is None,
{
    reveal_strlit("/");
    reveal_strlit("\\\\");
    let bs = seq!['\\', '\\'];
    let v = bs + server + seq!['\\'] + share + rest;
    let u = bs + server;
    assert(v[0] == '\\' && v[1] == '\\' && u[0] == '\\' && u[1] == '\\');
    assert(v.take(2) =~= "\\\\"@);
    assert(u.take(2) =~= "\\\\"@);
    assert(!starts_with(v, "/"@)) by {
        assert(v.take(1)[0] == '\\');
    }
    assert(!starts_with(u, "/"@)) by {
        assert(u.take(1)[0] == '\\');
    }
    lemma_no_backslash_segs(server, true);
    lemma_no_backslash_segs(server, false);
    lemma_no_backslash_segs(share, true);
    lemma_seg_concat(bs, server, true);
    assert(seg_starts(bs, true) == 0) by {
        let b1 = bs.drop_first();
        assert(b1.drop_first() =~= Seq::<char>::empty());
        assert(seg_starts(b1.drop_first(), true) == 0);
        assert(b1[0] == '\\');
        assert(seg_starts(b1, true) == 0);
    }
    assert(u == bs + server);
    assert(seg_starts(u, true) == 1);
    lemma_seg_concat(u, seq!['\\'], true);
    assert(u.last() == server.last());
    assert(seg_starts(seq!['\\'], false) == 0) by {
        assert(seq!['\\'].drop_first() =~= Seq::<char>::empty());
        assert(seg_starts(seq!['\\'].drop_first(), true) == 0);
    }
    let u2 = u + seq!['\\'];
    lemma_seg_concat(u2, share, true);
    assert(u2.last() == '\\');
    let u3 = u2 + share;
    lemma_seg_concat(u3, rest, true);
    assert(v == u3 + rest);
    assert(seg_starts(v, true) >= 2);
}

proof fn lemma_no_backslash_segs(s: Seq<char>, after: bool)
    requires
        s.len() > 0,
        forall|i: int| 0 <= i < s.len() ==> s[i] != '\\',
    ensures
        seg_starts(s, after) == if after { 1nat } else { 0nat },
    decreases s.len(),
{
    if s.len() > 1 {
        assert forall|i: int| 0 <= i < s.drop_first().len() implies s.drop_first()[i] != '\\' by {
            assert(s.drop_first()[i] == s[i + 1]);
        }
        lemma_no_backslash_segs(s.drop_first(), false);
    } else {
        assert(s.drop_first() =~= Seq::<char>::empty());
        assert(seg_starts(s.drop_first(), false) == 0);
    }
}

fn ends_with_chars(s: &Vec<char>, p: &Vec<char>) -> (r: bool)
    ensures
        r == ends_with(s@, p@),
{
    if p.len() > s.len() {
        return false;
    }
    let tail = slice_chars(s, s.len() - p.len(), s.len());
    assert(tail@ =~= s@.skip(s@.len() - p@.len()));
    let mut k: usize = 0;
    while k < p.len()
        invariant
            k <= p@.len(),
            p@.len() <= s@.len(),
            tail@ == s@.skip(s@.len() - p@.len()),
            tail@.len() == p@.len(),
            forall|q: int| 0 <= q < k ==> tail@[q] == p@[q],
        decreases p.len() - k,
    {
        if tail[k] != p[k] {
            assert(tail@[k as int] != p@[k as int]);
            return false;
        }
        k = k + 1;
    }
    assert(tail@ =~= p@);
    true
}

fn has_char(s: &Vec<char>, c: char) -> (r: bool)
    ensures
        r == s@.contains(c),
{
    let mut i: usize = 0;
    while i < s.len()
        invariant
            i <= s@.len(),
            forall|j: int| 0 <= j < i ==> s@[j] != c,
        decreases s.len() - i,
    {
        if s[i] == c {
            return true;
        }
        i = i + 1;
    }
    false
}

fn sw(s: &Vec<char>, p: &str) -> (r: bool)
    ensures
        r == starts_with(s@, p@),
{
    starts_with_chars(s, &chars_of(p))
}

fn has(s: &Vec<char>, p: &str) -> (r: bool)
    ensures
        r == has_sub(s@, p@),
{
    contains_chars(s, &chars_of(p))
}

/// Whether a literal that starts with `/` is not a filesystem path.
pub fn is_non_filesystem_unix_literal(value: &str) -> (r: bool)
    ensures
        r == spec_non_filesystem_unix(value@),
{
    let v = chars_of(value);
    if sw(&v, "//") || sw(&v, "/*") {
        return true;
    }
    let mut all_slash = true;
    let mut i: usize = 0;
    while i < v.len()
        invariant
            i <= v@.len(),
            all_slash == forall|j: int| 0 <= j < i ==> v@[j] == '/',
        decreases v.len() - i,
    {
        if v[i] != '/' {
            all_slash = false;
        }
        i = i + 1;
    }
    if all_slash {
        return true;
    }
    if has(&v, "://") || sw(&v, "/api/") || sw(&v, "/graphql") || sw(&v, "/oauth/") || sw(&v, "/v1/") || sw(
        &v,
        "/v2/",
    ) || sw(&v, "/:") {
        return true;
    }
    let dollar = chars_of("/$");
    has(&v, "/{") || has(&v, "/:") || has_char(&v, '?') || has_char(&v, '#') || sw(&v, "^/") || ends_with_chars(
        &v,
        &dollar,
    )
}

fn count_segments(s: &Vec<char>) -> (r: usize)
    ensures
        r == seg_starts(s@, true),
{
    let mut n: usize = 0;
    let mut after = true;
    let mut i: usize = 0;
    assert(s@.skip(0) =~= s@);
    while i < s.len()
        invariant
            i <= s@.len(),
            n <= i,
            seg_starts(s@, true) == n + seg_starts(s@.skip(i as int), after),
        decreases s.len() - i,
    {
        assert(s@.skip(i as int)[0] == s@[i as int]);
        assert(s@.skip(i as int).drop_first() =~= s@.skip(i + 1));
        if s[i] != '\\' && after {
            n = n + 1;
        }
        after = s[i] == '\\';
        i = i + 1;
    }
    n
}

/// The kind of absolute path `s` is, if it is one.
pub fn absolute_kind(s: &str) -> (r: Option<&'static str>)
    ensures
        match r {
            Some(k) => spec_absolute_kind(s@) == Some(k@),
            None => spec_absolute_kind(s@) is None,
        },
{
    let v = chars_of(s);
    if sw(&v, "/") {
        if is_non_filesystem_unix_literal(s) {
            return None;
        }
        return Some("unix");
    }
    if v.len() >= 3 && v[1] == ':' && (v[2] == '\\' || v[2] == '/') && (('a' <= v[0] && v[0] <= 'z') || (
    'A' <= v[0] && v[0] <= 'Z')) {
        return Some("windows-drive");
    }
    if sw(&v, "\\\\") {
        if count_segments(&v) >= 2 {
            return Some("unc");
        }
        return None;
    }
    None
}

// ---------------------------------------------------------------------------
// Allow lists
// ---------------------------------------------------------------------------

/// The allow lists cover `value`: the set of allow globs that compile matches
/// it, or the set of allow regular expressions does (a set that does not
/// build matches nothing).
pub open spec fn spec_allowed(cfg: AbsoluteFilesystemPathsConfig, value: Seq<char>) -> bool {
    lenient_match(views(cfg.allow_globs@), value) || regex_set_result(views(cfg.allow_regex@), value) == Some(true)
}

pub fn allowed(cfg: &AbsoluteFilesystemPathsConfig, value: &str) -> (r: bool)
    ensures
        r == spec_allowed(*cfg, value@),
{
    lenient_globs_match(&cfg.allow_globs, value) || match regex_set_match(&cfg.allow_regex, value) {
        Some(b) => b,
        None => false,
    }
}

// ---------------------------------------------------------------------------
// Findings for string literals
// ---------------------------------------------------------------------------

pub open spec fn help_text() -> Seq<char> {
    "Prefer relative paths or build paths via `PathBuf` at runtime."@
}

/// The finding for an absolute path of kind `kind` in a string literal.
pub open spec fn literal_finding(severity: Severity, kind: Seq<char>, value: Seq<char>, span: SpanView) -> FindingView {
    FindingView {
        help: Some(help_text()),
        primary: Some(span),
        tags: seq!["paths"@],
        labels: seq![(FindingLabelKind::Primary, span, Some(kind + " path literal"@))],
        notes: seq![(FindingNoteKind::Help, help_text())],
        ..rule_finding_view(
            absolute_literal_paths_info(),
            severity,
            "absolute filesystem path ("@ + kind + "): "@ + value,
        )
    }
}

impl AbsoluteFilesystemPathsRule {
    /// A string literal with value `value` at `start..end` of `file`: a finding
    /// when it is an absolute path that the allow lists do not cover.
    pub fn check_str(
        file: &str,
        cfg: &AbsoluteFilesystemPathsConfig,
        value: &str,
        start: LineColumn,
        end: LineColumn,
    ) -> (r: Option<Finding>)
        ensures
            match spec_absolute_kind(value@) {
                Some(kind) => if spec_allowed(*cfg, value@) {
                    r is None
                } else {
                    r matches Some(f) && f@ == literal_finding(
                        cfg.level.spec_severity(),
                        kind,
                        value@,
                        (file@, location_of(start), location_of(end)),
                    )
                },
                None => r is None,
            },
    {
        let kind = match absolute_kind(value) {
            Some(k) => k,
            None => return None,
        };
        if allowed(cfg, value) {
            return None;
        }
        let mut message = String::from_str("absolute filesystem path (");
        message.append(kind);
        message.append("): ");
        message.append(value);
        let mut label_text = String::from_str(kind);
        label_text.append(" path literal");
        let label = FindingLabel {
            kind: FindingLabelKind::Primary,
            span: Span::from_pm_span(file, start, end),
            message: Some(label_text),
        };
        let note = FindingNote {
            kind: FindingNoteKind::Help,
            message: String::from_str("Prefer relative paths or build paths via `PathBuf` at runtime."),
        };
        let tags = vec![String::from_str("paths")];
        let labels = vec![label];
        let notes = vec![note];
        let f = Finding::from_rule(AbsoluteFilesystemPathsRule::static_info(), cfg.level.to_severity(), message)
            .with_primary(Span::from_pm_span(file, start, end))
            .with_help(String::from_str("Prefer relative paths or build paths via `PathBuf` at runtime."))
            .with_tags(tags)
            .with_labels(labels)
            .with_notes(notes);
        assert(f@.tags =~= seq!["paths"@]);
        assert(f@.labels =~= seq![(FindingLabelKind::Primary, (file@, location_of(start), location_of(end)), Some(kind@ + " path literal"@))]);
        assert(f@.notes =~= seq![(FindingNoteKind::Help, help_text())]);
        Some(f)
    }
}

// ---------------------------------------------------------------------------
// Line comments
// ---------------------------------------------------------------------------

/// The punctuation trimmed from both ends of a word in a comment.
pub open spec fn is_comment_punct(c: char) -> bool {
    c == '`' || c == '"' || c == '\'' || c == ',' || c == '.' || c == ';' || c == ')' || c == '('
}

pub open spec fn lead_punct(s: Seq<char>) -> nat
    decreases s.len(),
{
    if s.len() > 0 && is_comment_punct(s[0]) {
        1 + lead_punct(s.drop_first())
    } else {
        0
    }
}

pub open spec fn trail_count(s: Seq<char>, c: spec_fn(char) -> bool) -> nat
    decreases s.len(),
{
    if s.len() > 0 && c(s.last()) {
        1 + trail_count(s.drop_last(), c)
    } else {
        0
    }
}

/// The characters trimmed from the end of a word: colons, or comment punctuation.
pub open spec fn trail_pred(colon: bool) -> spec_fn(char) -> bool {
    if colon {
        |c: char| c == ':'
    } else {
        |c: char| is_comment_punct(c)
    }
}

/// A word of a comment with its surrounding punctuation removed, then any
/// trailing colons.
pub open spec fn trim_punct(s: Seq<char>) -> Seq<char> {
    let a = s.skip(lead_punct(s) as int);
    let b = a.take(a.len() - trail_count(a, trail_pred(false)));
    b.take(b.len() - trail_count(b, trail_pred(true)))
}

/// The white-space separated words of `s` from index `i` on.
pub open spec fn words_from(s: Seq<char>, i: int) -> Seq<Seq<char>>
    decreases s.len() - i,
{
    if i < 0 || i >= s.len() {
        Seq::empty()
    } else if is_whitespace(s[i]) {
        words_from(s, i + 1)
    } else {
        proof {
            lemma_word_end(s, i);
        }
        let e = word_end(s, i);
        seq![s.subrange(i, e)] + words_from(s, e)
    }
}

/// Where the word that starts at `i` ends: the next white space, or the end.
pub open spec fn word_end(s: Seq<char>, i: int) -> int
    decreases s.len() - i,
{
    if i < 0 {
        0
    } else if i >= s.len() || is_whitespace(s[i]) {
        i
    } else {
        word_end(s, i + 1)
    }
}

pub proof fn lemma_word_end(s: Seq<char>, i: int)
    requires
        0 <= i < s.len(),
    ensures
        i <= word_end(s, i) <= s.len(),
        !is_whitespace(s[i]) ==> i < word_end(s, i),
        forall|q: int| i <= q < word_end(s, i) ==> !is_whitespace(#[trigger] s[q]),
        word_end(s, i) < s.len() ==> is_whitespace(s[word_end(s, i)]),
    decreases s.len() - i,
{
    if !is_whitespace(s[i]) {
        if i + 1 < s.len() {
            lemma_word_end(s, i + 1);
        } else {
            assert(word_end(s, i + 1) == i + 1);
        }
    }
}

/// The white-space separated words of `s`, as `str::split_whitespace` gives them.
pub open spec fn words(s: Seq<char>) -> Seq<Seq<char>> {
    words_from(s, 0)
}

fn punct_exec(c: char) -> (r: bool)
    ensures
        r == is_comment_punct(c),
{
    c == '`' || c == '"' || c == '\'' || c == ',' || c == '.' || c == ';' || c == ')' || c == '('
}

fn count_lead_punct(s: &Vec<char>) -> (r: usize)
    ensures
        r == lead_punct(s@),
        r <= s@.len(),
{
    let mut i: usize = 0;
    assert(s@.skip(0) =~= s@);
    while i < s.len() && punct_exec(s[i])
        invariant
            i <= s@.len(),
            lead_punct(s@) == i + lead_punct(s@.skip(i as int)),
        decreases s.len() - i,
    {
        assert(s@.skip(i as int)[0] == s@[i as int]);
        assert(s@.skip(i as int).drop_first() =~= s@.skip(i + 1));
        i = i + 1;
    }
    if i < s.len() {
        assert(s@.skip(i as int)[0] == s@[i as int]);
    }
    i
}

fn count_trail(s: &Vec<char>, colon: bool) -> (r: usize)
    ensures
        r == trail_count(s@, trail_pred(colon)),
        r <= s@.len(),
{
    let mut n: usize = 0;
    assert(s@.take(s@.len() as int) =~= s@);
    loop
        invariant
            n <= s@.len(),
            trail_count(s@, trail_pred(colon)) == n + trail_count(s@.take(s@.len() - n), trail_pred(colon)),
        ensures
            trail_count(s@.take(s@.len() - n), trail_pred(colon)) == 0,
        decreases s.len() - n,
    {
        if n >= s.len() {
            assert(s@.take(s@.len() - n) =~= Seq::<char>::empty());
            break;
        }
        let c = s[s.len() - 1 - n];
        let hit = if colon {
            c == ':'
        } else {
            punct_exec(c)
        };
        let ghost t = s@.take(s@.len() - n);
        assert(t.last() == c);
        assert(hit == (trail_pred(colon))(c));
        if !hit {
            break;
        }
        assert(t.drop_last() =~= s@.take(s@.len() - n - 1));
        n = n + 1;
    }
    n
}

/// A word of a comment with its surrounding punctuation removed.
pub fn trim_comment_punctuation(part: &Vec<char>) -> (r: Vec<char>)
    ensures
        r@ == trim_punct(part@),
{
    let a = count_lead_punct(part);
    let rest = slice_chars(part, a, part.len());
    assert(rest@ =~= part@.skip(a as int));
    let b = count_trail(&rest, false);
    let mid = slice_chars(&rest, 0, rest.len() - b);
    assert(mid@ =~= rest@.take(rest@.len() - b));
    let c = count_trail(&mid, true);
    let out = slice_chars(&mid, 0, mid.len() - c);
    assert(out@ =~= mid@.take(mid@.len() - c));
    out
}

/// The location that stands for line `idx` (counted from 0) of a file.
pub open spec fn comment_line(idx: usize) -> u32 {
    if (idx as u32) < u32::MAX { ((idx as u32) + 1) as u32 } else { u32::MAX }
}

/// The finding for an absolute path in a line comment.
pub open spec fn comment_finding(severity: Severity, file: Seq<char>, line: u32, candidate: Seq<char>) -> FindingView {
    FindingView {
        primary: Some((file, Location { line, column: 1 }, Location { line, column: 1 })),
        tags: seq!["paths"@, "comments"@],
        ..rule_finding_view(
            absolute_literal_paths_info(),
            severity,
            "absolute filesystem path in comment: "@ + candidate,
        )
    }
}

/// The findings for the words of one comment, in order.
pub open spec fn word_findings(
    cfg: AbsoluteFilesystemPathsConfig,
    file: Seq<char>,
    line: u32,
    ws: Seq<Seq<char>>,
) -> Seq<FindingView>
    decreases ws.len(),
{
    if ws.len() == 0 {
        Seq::empty()
    } else {
        let c = trim_punct(ws.last());
        word_findings(cfg, file, line, ws.drop_last()) + if spec_absolute_kind(c) is Some && !spec_allowed(cfg, c) {
            seq![comment_finding(cfg.level.spec_severity(), file, line, c)]
        } else {
            Seq::empty()
        }
    }
}

/// The findings for line `idx` of a file: none unless it is a line comment
/// (after leading white space).
pub open spec fn line_findings(cfg: AbsoluteFilesystemPathsConfig, file: Seq<char>, idx: usize, line: Seq<char>) -> Seq<FindingView> {
    let t = line.skip(leading_ws(line) as int);
    if starts_with(t, "//"@) {
        word_findings(cfg, file, comment_line(idx), words(t))
    } else {
        Seq::empty()
    }
}

/// The findings for the first `n` lines of `ls`.
pub open spec fn comment_findings(cfg: AbsoluteFilesystemPathsConfig, file: Seq<char>, ls: Seq<Seq<char>>, n: int) -> Seq<FindingView>
    decreases n,
{
    if n <= 0 || n > ls.len() {
        Seq::empty()
    } else {
        comment_findings(cfg, file, ls, n - 1) + line_findings(cfg, file, (n - 1) as usize, ls[n - 1])
    }
}

fn skip_leading_ws(s: &Vec<char>) -> (r: Vec<char>)
    ensures
        r@ == s@.skip(leading_ws(s@) as int),
{
    let mut i: usize = 0;
    assert(s@.skip(0) =~= s@);
    while i < s.len() && is_whitespace_exec(s[i])
        invariant
            i <= s@.len(),
            leading_ws(s@) == i + leading_ws(s@.skip(i as int)),
        decreases s.len() - i,
    {
        assert(s@.skip(i as int)[0] == s@[i as int]);
        assert(s@.skip(i as int).drop_first() =~= s@.skip(i + 1));
        i = i + 1;
    }
    if i < s.len() {
        assert(s@.skip(i as int)[0] == s@[i as int]);
    }
    let r = slice_chars(s, i, s.len());
    assert(r@ =~= s@.skip(i as int));
    r
}

fn word_findings_exec(
    file: &str,
    cfg: &AbsoluteFilesystemPathsConfig,
    line_no: u32,
    t: &Vec<char>,
    out: &mut Vec<Finding>,
)
    ensures
        final(out)@.map_values(|f: Finding| f@) == old(out)@.map_values(|f: Finding| f@) + word_findings(
            *cfg,
            file@,
            line_no,
            words(t@),
        ),
{
    let ghost base = out@.map_values(|f: Finding| f@);
    let ghost mut done: Seq<Seq<char>> = Seq::empty();
    let mut i: usize = 0;
    assert(out@.map_values(|f: Finding| f@) =~= base + word_findings(*cfg, file@, line_no, done));
    while i < t.len()
        invariant
            i <= t@.len(),
            words(t@) == done + words_from(t@, i as int),
            out@.map_values(|f: Finding| f@) == base + word_findings(*cfg, file@, line_no, done),
        decreases t.len() - i,
    {
        if is_whitespace_exec(t[i]) {
            assert(words_from(t@, i as int) == words_from(t@, i + 1));
            i = i + 1;
        } else {
            proof {
                lemma_word_end(t@, i as int);
            }
            let mut e = i;
            while e < t.len() && !is_whitespace_exec(t[e])
                invariant
                    i <= e <= t@.len(),
                    word_end(t@, i as int) == word_end(t@, e as int),
                decreases t.len() - e,
            {
                e = e + 1;
            }
            let word = slice_chars(t, i, e);
            assert(words_from(t@, i as int) == seq![word@] + words_from(t@, e as int));
            let candidate = trim_comment_punctuation(&word);
            let cand = string_of(&candidate);
            let ghost before = out@.map_values(|f: Finding| f@);
            proof {
                assert(done.push(word@).drop_last() =~= done);
                assert(done.push(word@).last() == word@);
            }
            match absolute_kind(cand.as_str()) {
                Some(_) => {
                    if !allowed(cfg, cand.as_str()) {
                        let mut message = String::from_str("absolute filesystem path in comment: ");
                        message.append(cand.as_str());
                        let tags = vec![String::from_str("paths"), String::from_str("comments")];
                        let loc = Location { line: line_no, column: 1 };
                        let f = Finding::from_rule(AbsoluteFilesystemPathsRule::static_info(), cfg.level.to_severity(), message)
                            .with_primary(Span::new(file, loc, loc))
                            .with_tags(tags);
                        assert(f@.tags =~= seq!["paths"@, "comments"@]);
                        out.push(f);
                        assert(out@.map_values(|f: Finding| f@) =~= before.push(f@));
                    }
                },
                None => {},
            }
            proof {
                assert(words(t@) =~= done.push(word@) + words_from(t@, e as int));
                done = done.push(word@);
            }
            i = e;
        }
    }
    assert(words_from(t@, i as int) =~= Seq::<Seq<char>>::empty());
    assert(done =~= words(t@));
}

impl AbsoluteFilesystemPathsRule {
    /// The findings for absolute paths in the line comments of a file with text `text`.
    pub fn scan_line_comments(file: &str, text: &str, cfg: &AbsoluteFilesystemPathsConfig) -> (r: Vec<Finding>)
        ensures
            r@.map_values(|f: Finding| f@) == comment_findings(*cfg, file@, lines(text@), lines(text@).len() as int),
    {
        let cs = chars_of(text);
        let slashes = chars_of("//");
        let mut out: Vec<Finding> = Vec::new();
        let mut p: usize = 0;
        let mut idx: usize = 0;
        assert(lines(cs@).skip(0) =~= lines(cs@));
        assert(out@.map_values(|f: Finding| f@) =~= Seq::<FindingView>::empty());
        while p < cs.len()
            invariant
                p <= cs@.len(),
                idx <= p,
                cs@ == text@,
                slashes@ == "//"@,
                idx <= lines(cs@).len(),
                lines(cs@).skip(idx as int) == lines_from(cs@, p as int),
                out@.map_values(|f: Finding| f@) == comment_findings(*cfg, file@, lines(cs@), idx as int),
            decreases cs.len() - p,
        {
            let (line, next) = next_line(&cs, p);
            assert(lines_from(cs@, p as int)[0] == line@);
            assert(lines_from(cs@, p as int).len() > 0);
            assert(idx < lines(cs@).len());
            assert(lines(cs@).skip(idx as int)[0] == lines(cs@)[idx as int]);
            assert(lines(cs@).skip(idx + 1) =~= lines(cs@).skip(idx as int).drop_first());
            assert(lines_from(cs@, p as int).drop_first() =~= lines_from(cs@, next as int));
            let t = skip_leading_ws(&line);
            if starts_with_chars(&t, &slashes) {
                word_findings_exec(file, cfg, if (idx as u32) < u32::MAX { (idx as u32) + 1 } else { u32::MAX }, &t, &mut out);
            }
            idx = idx + 1;
            p = next;
        }
        assert(lines_from(cs@, p as int) =~= Seq::<Seq<char>>::empty());
        assert(lines(cs@).len() == idx);
        out
    }
}

} // verus!

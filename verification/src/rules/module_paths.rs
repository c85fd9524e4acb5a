//! `architecture.qualified_module_paths`: which paths are flagged, and the
//! import fix suggested for them.
use vstd::prelude::*;
use vstd::string::*;
use crate::chars::{contains_str, has_sub, starts_with_str};
use crate::config::rule_options::AbsoluteModulePathsConfig;
use crate::config::read::views;
use crate::config::value::str_eq;
use crate::fix::{header_end, line_col_offset, line_col_to_byte_offset, find_use_insertion_offset, starts_with, utf8};
use crate::report::{
    EditView, FindingLabel, FindingLabelKind, FindingNote, FindingNoteKind, FindingView, Finding, Fix,
    FixSafety, FixView, Severity, SpanView, TextEdit, rule_finding_view, span_v,
};
use crate::rules::catalog::{AbsoluteModulePathsRule, qualified_module_paths_info};
use crate::span::{LineColumn, Location, Span, location_of};
use crate::text::{chars_of, join, join_strings};

verus! {

/// The index of the first `::` in `s` at or after `i`, or the length of `s`.
pub open spec fn sep_from(s: Seq<char>, i: int) -> int
    decreases s.len() - i,
{
    if i < 0 || i + 2 > s.len() {
        s.len() as int
    } else if s[i] == ':' && s[i + 1] == ':' {
        i
    } else {
        sep_from(s, i + 1)
    }
}

/// The index of the first `::` in `s`, or the length of `s`.
pub open spec fn first_sep(s: Seq<char>) -> int {
    sep_from(s, 0)
}

/// A path that the rule flags: one with a leading `::`, or one whose first
/// segment is a configured root and that has more than one segment.
pub open spec fn spec_should_flag(path: Seq<char>, roots: Seq<Seq<char>>) -> bool {
    if starts_with(path, "::"@) {
        true
    } else {
        let first = path.take(first_sep(path));
        first.len() > 0 && roots.contains(first) && first_sep(path) < path.len()
    }
}

proof fn lemma_sep_from_bounds(s: Seq<char>, i: int)
    requires
        0 <= i,
    ensures
        i <= sep_from(s, i) <= s.len() || sep_from(s, i) == s.len(),
        sep_from(s, i) < s.len() ==> sep_from(s, i) + 2 <= s.len() && s[sep_from(s, i)] == ':'
            && s[sep_from(s, i) + 1] == ':',
    decreases s.len() - i,
{
    if i + 2 <= s.len() && !(s[i] == ':' && s[i + 1] == ':') {
        lemma_sep_from_bounds(s, i + 1);
    }
}

/// The index of the first `::` in `cs` at or after `i`, or the length of `cs`.
fn find_sep(cs: &Vec<char>, i: usize) -> (r: usize)
    requires
        i <= cs@.len(),
    ensures
        r == sep_from(cs@, i as int),
        r <= cs@.len(),
{
    let mut k = i;
    while cs.len() - k >= 2
        invariant
            i <= k <= cs@.len(),
            sep_from(cs@, i as int) == sep_from(cs@, k as int),
        decreases cs.len() - k,
    {
        if cs[k] == ':' && cs[k + 1] == ':' {
            return k;
        }
        k = k + 1;
    }
    cs.len()
}

fn contains_string(list: &Vec<String>, s: &Vec<char>) -> (r: bool)
    ensures
        r == views(list@).contains(s@),
{
    let mut i: usize = 0;
    while i < list.len()
        invariant
            i <= list@.len(),
            forall|j: int| 0 <= j < i ==> list@[j]@ != s@,
        decreases list.len() - i,
    {
        let item = chars_of(list[i].as_str());
        if item.len() == s.len() {
            let mut k: usize = 0;
            let mut same = true;
            while k < item.len()
                invariant
                    k <= item@.len(),
                    item@.len() == s@.len(),
                    same == forall|q: int| 0 <= q < k ==> item@[q] == s@[q],
                decreases item.len() - k,
            {
                if item[k] != s[k] {
                    same = false;
                }
                k = k + 1;
            }
            if same {
                assert(item@ =~= s@);
                assert(views(list@)[i as int] == s@);
                return true;
            }
        }
        i = i + 1;
    }
    assert forall|j: int| 0 <= j < views(list@).len() implies views(list@)[j] != s@ by {
        assert(views(list@)[j] == list@[j]@);
    }
    false
}

/// Whether the rule flags `path_str` with roots `roots`.
pub fn should_flag_path(path_str: &str, roots: &Vec<String>) -> (r: bool)
    ensures
        r == spec_should_flag(path_str@, views(roots@)),
{
    if starts_with_str(path_str, "::") {
        return true;
    }
    let cs = chars_of(path_str);
    let sep = find_sep(&cs, 0);
    if sep == 0 {
        return false;
    }
    let first = crate::chars::slice_chars(&cs, 0, sep);
    assert(first@ =~= cs@.take(sep as int));
    if !contains_string(roots, &first) {
        return false;
    }
    sep < cs.len()
}

/// The item of a path `crate::ITEM` with exactly two segments, the second non-empty.
pub open spec fn spec_crate_root_ident(path: Seq<char>) -> Option<Seq<char>> {
    if starts_with(path, "::"@) {
        None
    } else {
        let i = first_sep(path);
        if i >= path.len() {
            None
        } else {
            let rest = path.skip(i + 2);
            if first_sep(rest) < rest.len() || path.take(i) != "crate"@ || rest.len() == 0 {
                None
            } else {
                Some(rest)
            }
        }
    }
}

pub fn two_segment_crate_root_ident(path_str: &str) -> (r: Option<String>)
    ensures
        match r {
            Some(s) => spec_crate_root_ident(path_str@) == Some(s@),
            None => spec_crate_root_ident(path_str@) is None,
        },
{
    if starts_with_str(path_str, "::") {
        return None;
    }
    let cs = chars_of(path_str);
    let i = find_sep(&cs, 0);
    if i >= cs.len() {
        return None;
    }
    proof {
        lemma_sep_from_bounds(cs@, 0);
    }
    let rest = crate::chars::slice_chars(&cs, i + 2, cs.len());
    assert(rest@ =~= cs@.skip(i + 2));
    let j = find_sep(&rest, 0);
    let first = crate::chars::slice_chars(&cs, 0, i);
    assert(first@ =~= cs@.take(i as int));
    let first_s = crate::text::string_of(&first);
    if j < rest.len() || !str_eq(first_s.as_str(), "crate") || rest.len() == 0 {
        return None;
    }
    Some(crate::text::string_of(&rest))
}

pub open spec fn is_ascii_upper(c: char) -> bool {
    'A' <= c && c <= 'Z'
}

pub open spec fn is_ascii_digit(c: char) -> bool {
    '0' <= c && c <= '9'
}

/// An upper-case ASCII letter followed by upper-case letters, digits and underscores.
pub open spec fn spec_screaming_snake(s: Seq<char>) -> bool {
    s.len() > 0 && is_ascii_upper(s[0]) && forall|i: int|
        1 <= i < s.len() ==> is_ascii_upper(#[trigger] s[i]) || is_ascii_digit(s[i]) || s[i] == '_'
}

pub fn is_screaming_snake(ident: &str) -> (r: bool)
    ensures
        r == spec_screaming_snake(ident@),
{
    let cs = chars_of(ident);
    if cs.len() == 0 {
        return false;
    }
    if !('A' <= cs[0] && cs[0] <= 'Z') {
        return false;
    }
    let mut i: usize = 1;
    while i < cs.len()
        invariant
            1 <= i <= cs@.len(),
            cs@ == ident@,
            forall|j: int| 1 <= j < i ==> is_ascii_upper(#[trigger] cs@[j]) || is_ascii_digit(cs@[j]) || cs@[j] == '_',
        decreases cs.len() - i,
    {
        let c = cs[i];
        if !(('A' <= c && c <= 'Z') || ('0' <= c && c <= '9') || c == '_') {
            return false;
        }
        i = i + 1;
    }
    true
}

proof fn lemma_no_colon_no_sep(s: Seq<char>, i: int)
    requires
        0 <= i,
        forall|k: int| 0 <= k < s.len() ==> s[k] != ':',
    ensures
        sep_from(s, i) == s.len(),
    decreases s.len() - i,
{
    if i + 2 <= s.len() {
        lemma_no_colon_no_sep(s, i + 1);
    }
}

/// An identifier that starts with an upper-case ASCII letter and goes on with
/// upper-case ASCII letters, ASCII digits and underscores only is in
/// screaming snake case, so `crate::IDENT` names a crate-root constant that
/// the rule leaves alone when such constants are allowed, and flags otherwise.
pub proof fn screaming_snake_crate_consts_are_allowed(ident: Seq<char>, enabled: bool)
    requires
        ident.len() > 0,
        'A' <= ident[0] && ident[0] <= 'Z',
        forall|i: int|
            1 <= i < ident.len() ==> ('A' <= #[trigger] ident[i] && ident[i] <= 'Z') || ('0' <= ident[i] && ident[i]
                <= '9') || ident[i] == '_',
    ensures
        spec_screaming_snake(ident),
        spec_allowed_const("crate::"@ + ident, enabled) == enabled,
{
    reveal_strlit("crate::");
    reveal_strlit("crate");
    reveal_strlit("::");
    let p = "crate::"@ + ident;
    assert forall|k: int| 0 <= k < ident.len() implies ident[k] != ':' by {
        if k > 0 {
            assert(('A' <= ident[k] && ident[k] <= 'Z') || ('0' <= ident[k] && ident[k] <= '9') || ident[k] == '_');
        }
    }
    lemma_no_colon_no_sep(ident, 0);
    assert(p[5] == ':' && p[6] == ':');
    assert(sep_from(p, 5) == 5);
    assert(sep_from(p, 4) == 5);
    assert(sep_from(p, 3) == 5);
    assert(sep_from(p, 2) == 5);
    assert(sep_from(p, 1) == 5);
    assert(sep_from(p, 0) == 5);
    assert(p.skip(7) =~= ident);
    assert(p.take(5) =~= "crate"@);
    assert(!starts_with(p, "::"@)) by {
        assert(p.take(2)[0] == 'c');
    }
    assert(spec_crate_root_ident(p) == Some(ident));
}

proof fn lemma_sep_after_prefix(root: Seq<char>, rest: Seq<char>, i: int)
    requires
        0 <= i <= root.len(),
        forall|k: int| 0 <= k < root.len() ==> root[k] != ':',
    ensures
        sep_from(root + "::"@ + rest, i) == root.len(),
    decreases root.len() - i,
{
    reveal_strlit("::");
    let p = root + "::"@ + rest;
    assert(p[root.len() as int] == ':' && p[root.len() as int + 1] == ':');
    if i < root.len() {
        assert(p[i] == root[i]);
        lemma_sep_after_prefix(root, rest, i + 1);
    }
}

/// Which paths the rule flags: every path with a leading `::`; every path
/// whose first segment is a configured root and that goes on past it; no
/// path without `::` in it; and no path whose first segment is not a root.
pub proof fn flagged_paths_law(root: Seq<char>, rest: Seq<char>, roots: Seq<Seq<char>>)
    requires
        root.len() > 0,
        forall|k: int| 0 <= k < root.len() ==> root[k] != ':',
    ensures
        spec_should_flag("::"@ + rest, roots),
        roots.contains(root) ==> spec_should_flag(root + "::"@ + rest, roots),
        !roots.contains(root) ==> !spec_should_flag(root + "::"@ + rest, roots),
        !spec_should_flag(root, roots),
{
    reveal_strlit("::");
    let p = root + "::"@ + rest;
    assert(("::"@ + rest).take(2) =~= "::"@);
    lemma_sep_after_prefix(root, rest, 0);
    assert(p.take(root.len() as int) =~= root);
    assert(!starts_with(p, "::"@)) by {
        assert(p.take(2)[0] == root[0]);
    }
    lemma_no_colon_no_sep(root, 0);
    assert(root.take(root.len() as int) =~= root);
    assert(!starts_with(root, "::"@)) by {
        if root.len() >= 2 {
            assert(root.take(2)[0] == root[0]);
        }
    }
}

/// An identifier with a lower-case ASCII letter anywhere in it, first or
/// not, is not in screaming snake case.
pub proof fn other_idents_are_not_screaming_snake(ident: Seq<char>, i: int)
    requires
        0 <= i < ident.len(),
        'a' <= ident[i] && ident[i] <= 'z',
    ensures
        !spec_screaming_snake(ident),
        !spec_screaming_snake(seq![ident[i]] + ident),
{
    let t = seq![ident[i]] + ident;
    assert(t[0] == ident[i]);
}

/// A call `crate::f(..)` (two segments) that the rule leaves alone when allowed.
pub fn is_allowed_crate_root_call(path_str: &str) -> (r: bool)
    ensures
        r == spec_crate_root_ident(path_str@) is Some,
{
    two_segment_crate_root_ident(path_str).is_some()
}

/// A macro `crate::m!` (two segments) that the rule leaves alone when allowed.
pub fn is_allowed_crate_root_macro(path_str: &str) -> (r: bool)
    ensures
        r == spec_crate_root_ident(path_str@) is Some,
{
    two_segment_crate_root_ident(path_str).is_some()
}

/// A constant `crate::NAME` that the rule leaves alone when `enabled`.
pub open spec fn spec_allowed_const(path: Seq<char>, enabled: bool) -> bool {
    enabled && match spec_crate_root_ident(path) {
        Some(i) => spec_screaming_snake(i),
        None => false,
    }
}

pub fn is_allowed_crate_root_const(path_str: &str, enabled: bool) -> (r: bool)
    ensures
        r == spec_allowed_const(path_str@, enabled),
{
    if !enabled {
        return false;
    }
    match two_segment_crate_root_ident(path_str) {
        Some(ident) => is_screaming_snake(ident.as_str()),
        None => false,
    }
}

/// The path starts with one of the non-empty configured prefixes.
pub open spec fn spec_allowed_prefix(path: Seq<char>, prefixes: Seq<Seq<char>>) -> bool {
    exists|i: int| 0 <= i < prefixes.len() && #[trigger] prefixes[i].len() > 0 && starts_with(path, prefixes[i])
}

pub fn allowed_by_prefix(path_str: &str, prefixes: &Vec<String>) -> (r: bool)
    ensures
        r == spec_allowed_prefix(path_str@, views(prefixes@)),
{
    let mut i: usize = 0;
    while i < prefixes.len()
        invariant
            i <= prefixes@.len(),
            forall|j: int| 0 <= j < i ==> !(#[trigger] views(prefixes@)[j].len() > 0 && starts_with(path_str@, views(prefixes@)[j])),
        decreases prefixes.len() - i,
    {
        assert(views(prefixes@)[i as int] == prefixes@[i as int]@);
        if prefixes[i].as_str().unicode_len() > 0 && starts_with_str(path_str, prefixes[i].as_str()) {
            return true;
        }
        i = i + 1;
    }
    false
}

// ---------------------------------------------------------------------------
// The import fix
// ---------------------------------------------------------------------------

/// One segment of a path: its identifier and its full text (with generic
/// arguments), white space removed.
#[derive(Debug)]
pub struct PathSegmentText {
    pub ident: String,
    pub tokens: String,
}

/// A path as the rule sees it: whether it starts with `::`, its segments, and
/// its full text with white space removed.
#[derive(Debug)]
pub struct PathText {
    pub leading_colon: bool,
    pub segments: Vec<PathSegmentText>,
    pub text: String,
}

pub open spec fn idents_of(segs: Seq<PathSegmentText>) -> Seq<Seq<char>> {
    segs.map_values(|s: PathSegmentText| s.ident@)
}

/// A name that starts with an upper-case ASCII letter names a type.
pub open spec fn names_type(ident: Seq<char>) -> bool {
    ident.len() > 0 && is_ascii_upper(ident[0])
}

/// What to import, what to write in place of the path, and the name the import
/// brings in.
pub open spec fn spec_import(p: PathText) -> Option<(Seq<char>, Seq<char>, Seq<char>)> {
    let segs = p.segments@;
    let n = segs.len();
    if p.leading_colon || n < 2 || segs[0].ident@.len() == 0 {
        None
    } else {
        let idents = idents_of(segs);
        let last = segs[n - 1];
        let penult = segs[n - 2];
        if n == 2 || names_type(last.ident@) {
            Some((join(idents, "::"@), last.tokens@, last.ident@))
        } else if names_type(penult.ident@) {
            Some((join(idents.take(n - 1), "::"@), penult.tokens@ + "::"@ + last.tokens@, penult.ident@))
        } else {
            Some((join(idents, "::"@), last.tokens@, last.ident@))
        }
    }
}

fn idents_vec(segs: &Vec<PathSegmentText>, n: usize) -> (r: Vec<String>)
    requires
        n <= segs@.len(),
    ensures
        views(r@) == idents_of(segs@).take(n as int),
{
    let mut out: Vec<String> = Vec::new();
    let mut i: usize = 0;
    while i < n
        invariant
            i <= n <= segs@.len(),
            views(out@) == idents_of(segs@).take(i as int),
        decreases n - i,
    {
        let ghost before = out@;
        out.push(segs[i].ident.clone());
        assert(views(out@) =~= views(before).push(segs@[i as int].ident@));
        assert(idents_of(segs@).take(i + 1) =~= idents_of(segs@).take(i as int).push(segs@[i as int].ident@));
        i = i + 1;
    }
    out
}

/// What to import, what to write in place of the path, and the name the import
/// brings in; `None` for a path with a leading `::` or fewer than two segments.
pub fn compute_import_and_replacement(path: &PathText) -> (r: Option<(String, String, Option<String>)>)
    ensures
        match spec_import(*path) {
            Some((imp, rep, name)) => r matches Some((i, p, Some(n))) && i@ == imp && p@ == rep && n@ == name,
            None => r is None,
        },
{
    let segs = &path.segments;
    let n = segs.len();
    if path.leading_colon || n < 2 || segs[0].ident.as_str().unicode_len() == 0 {
        return None;
    }
    let last = &segs[n - 1];
    let penult = &segs[n - 2];
    let last_is_type = {
        let c = chars_of(last.ident.as_str());
        c.len() > 0 && 'A' <= c[0] && c[0] <= 'Z'
    };
    let penult_is_type = {
        let c = chars_of(penult.ident.as_str());
        c.len() > 0 && 'A' <= c[0] && c[0] <= 'Z'
    };
    let all = idents_vec(segs, n);
    assert(idents_of(segs@).take(n as int) =~= idents_of(segs@));
    if n == 2 || last_is_type {
        return Some((join_strings(&all, "::"), last.tokens.clone(), Some(last.ident.clone())));
    }
    if penult_is_type {
        let head = idents_vec(segs, n - 1);
        let mut rep = penult.tokens.clone();
        rep.append("::");
        rep.append(last.tokens.as_str());
        return Some((join_strings(&head, "::"), rep, Some(penult.ident.clone())));
    }
    Some((join_strings(&all, "::"), last.tokens.clone(), Some(last.ident.clone())))
}

/// The id of the import fix.
pub open spec fn import_fix_id() -> Seq<char> {
    "architecture.qualified_module_paths"@ + "::import"@
}

/// The line and column of a syntax-tree position, as the fix counts them.
pub open spec fn fix_line(p: LineColumn) -> u32 {
    location_of(p).line
}

pub open spec fn fix_column(p: LineColumn) -> u32 {
    location_of(p).column
}

/// The fixes suggested for a flagged path in a file with text `text`: none for a
/// path with a leading `::`, one the import cannot be computed for, or positions
/// outside the text; otherwise an import fix, unsafe when the imported name is
/// already taken in the file, that replaces the path and, unless the file
/// already has the `use` item, inserts it after the file's inner attributes.
pub open spec fn spec_fixes(
    file: Seq<char>,
    text: Seq<char>,
    text_bytes: Seq<u8>,
    path: PathText,
    start: LineColumn,
    end: LineColumn,
    taken: Seq<Seq<char>>,
) -> Seq<FixView> {
    match spec_import(path) {
        None => Seq::empty(),
        Some((imp, rep, name)) => {
            match (
                line_col_offset(text_bytes, fix_line(start), fix_column(start)),
                line_col_offset(text_bytes, fix_line(end), fix_column(end)),
            ) {
                (Some(bs), Some(be)) => {
                    let safety = if taken.contains(name) { FixSafety::Unsafe } else { FixSafety::Safe };
                    let replace: EditView = (file, bs as u32, be as u32, rep);
                    let use_item = "use "@ + imp + ";"@;
                    let at = utf8(text.take(header_end(text, 0))).len();
                    let edits = if has_sub(text, use_item) {
                        seq![replace]
                    } else {
                        seq![replace, (file, at as u32, at as u32, use_item + "\n"@)]
                    };
                    seq![(import_fix_id(), safety, "Import `"@ + imp + "` and use `"@ + rep + "`."@, edits)]
                },
                _ => Seq::empty(),
            }
        },
    }
}

/// The fixes for a flagged path; `taken` holds the names already bound in the file.
pub fn build_fixes(
    file: &str,
    text: &str,
    path: &PathText,
    start: LineColumn,
    end: LineColumn,
    taken: &Vec<String>,
) -> (r: Vec<Fix>)
    ensures
        r@.map_values(|f: Fix| crate::report::fix_v(f)) == spec_fixes(
            file@,
            text@,
            text.spec_bytes(),
            *path,
            start,
            end,
            views(taken@),
        ),
{
    let none: Vec<Fix> = Vec::new();
    assert(none@.map_values(|f: Fix| crate::report::fix_v(f)) =~= Seq::<FixView>::empty());
    let (import_path, replacement, imported) = match compute_import_and_replacement(path) {
        Some(v) => v,
        None => return none,
    };
    let name = match imported {
        Some(n) => n,
        None => return none,
    };
    let name_cs = chars_of(name.as_str());
    let safety = if contains_string(taken, &name_cs) {
        FixSafety::Unsafe
    } else {
        FixSafety::Safe
    };
    let sl = start.line as u32;
    let sc = (start.column as u32).saturating_add(1);
    let el = end.line as u32;
    let ec = (end.column as u32).saturating_add(1);
    assert(sl == fix_line(start) && sc == fix_column(start));
    assert(el == fix_line(end) && ec == fix_column(end));
    let byte_start = match line_col_to_byte_offset(text, sl, sc) {
        Ok(v) => v,
        Err(_) => return none,
    };
    let byte_end = match line_col_to_byte_offset(text, el, ec) {
        Ok(v) => v,
        Err(_) => return none,
    };
    let mut edits: Vec<TextEdit> = Vec::new();
    edits.push(
        TextEdit {
            file: file.to_owned(),
            byte_start: byte_start as u32,
            byte_end: byte_end as u32,
            replacement: replacement.clone(),
        },
    );
    let mut use_item = String::from_str("use ");
    use_item.append(import_path.as_str());
    use_item.append(";");
    if !contains_str(text, use_item.as_str()) {
        let at = find_use_insertion_offset(text);
        let mut inserted = use_item.clone();
        inserted.append("\n");
        edits.push(TextEdit { file: file.to_owned(), byte_start: at as u32, byte_end: at as u32, replacement: inserted });
    }
    let mut message = String::from_str("Import `");
    message.append(import_path.as_str());
    message.append("` and use `");
    message.append(replacement.as_str());
    message.append("`.");
    let mut id = String::from_str(AbsoluteModulePathsRule::static_info().id);
    id.append("::import");
    let fix = Fix { id, safety, message, edits };
    let r = vec![fix];
    proof {
        assert(r@[0].edits@.map_values(|e: TextEdit| crate::report::edit_v(e)) =~= spec_fixes(
            file@,
            text@,
            text.spec_bytes(),
            *path,
            start,
            end,
            views(taken@),
        )[0].3);
        assert(r@.map_values(|f: Fix| crate::report::fix_v(f)) =~= spec_fixes(
            file@,
            text@,
            text.spec_bytes(),
            *path,
            start,
            end,
            views(taken@),
        ));
    }
    r
}

// ---------------------------------------------------------------------------
// Findings
// ---------------------------------------------------------------------------

pub open spec fn span_of(file: Seq<char>, start: LineColumn, end: LineColumn) -> SpanView {
    (file, location_of(start), location_of(end))
}

/// The finding for a flagged path, with the given fixes.
pub open spec fn qualified_path_finding(
    severity: Severity,
    path: Seq<char>,
    span: SpanView,
    fixes: Seq<FixView>,
) -> FindingView {
    FindingView {
        help: Some("Import the item and use the local name."@),
        primary: Some(span),
        tags: seq!["imports"@, "style"@],
        labels: seq![(FindingLabelKind::Primary, span, Some("qualified path used here"@))],
        notes: seq![(FindingNoteKind::Help, "Import the item and use the local name."@)],
        fixes,
        ..rule_finding_view(qualified_module_paths_info(), severity, "qualified module path: "@ + path)
    }
}

fn path_finding(
    file: &str,
    severity: Severity,
    path_str: &str,
    start: LineColumn,
    end: LineColumn,
    fixes: Vec<Fix>,
) -> (r: Finding)
    ensures
        r@ == qualified_path_finding(
            severity,
            path_str@,
            span_of(file@, start, end),
            fixes@.map_values(|f: Fix| crate::report::fix_v(f)),
        ),
{
    let mut message = String::from_str("qualified module path: ");
    message.append(path_str);
    let span = Span::from_pm_span(file, start, end);
    let label = FindingLabel {
        kind: FindingLabelKind::Primary,
        span: Span::from_pm_span(file, start, end),
        message: Some(String::from_str("qualified path used here")),
    };
    let note = FindingNote { kind: FindingNoteKind::Help, message: String::from_str("Import the item and use the local name.") };
    let tags = vec![String::from_str("imports"), String::from_str("style")];
    let labels = vec![label];
    let notes = vec![note];
    let r = Finding::from_rule(AbsoluteModulePathsRule::static_info(), severity, message).with_primary(span).with_help(
        String::from_str("Import the item and use the local name."),
    ).with_tags(tags).with_labels(labels).with_notes(notes).with_fixes(fixes);
    assert(r@.tags =~= seq!["imports"@, "style"@]);
    assert(r@.labels =~= seq![(FindingLabelKind::Primary, span_of(file@, start, end), Some("qualified path used here"@))]);
    assert(r@.notes =~= seq![(FindingNoteKind::Help, "Import the item and use the local name."@)]);
    r
}

/// The rule's settings for one file, with the file's text and the names bound in it.
pub struct ModulePathsContext<'a> {
    pub file: &'a str,
    pub text: &'a str,
    pub config: &'a AbsoluteModulePathsConfig,
    pub taken: &'a Vec<String>,
}

impl AbsoluteModulePathsRule {
    /// A path in a type: flagged when the rule flags it and no allowed prefix
    /// covers it, with the import fix.
    pub fn check_path(ctx: &ModulePathsContext, path: &PathText, start: LineColumn, end: LineColumn) -> (r: Option<Finding>)
        ensures
            (spec_should_flag(path.text@, views(ctx.config.roots@)) && !spec_allowed_prefix(path.text@, views(ctx.config.allow_prefixes@)))
                ==> (r matches Some(f) && f@ == qualified_path_finding(
                    ctx.config.level.spec_severity(),
                    path.text@,
                    span_of(ctx.file@, start, end),
                    spec_fixes(ctx.file@, ctx.text@, ctx.text.spec_bytes(), *path, start, end, views(ctx.taken@)),
                )),
            !(spec_should_flag(path.text@, views(ctx.config.roots@)) && !spec_allowed_prefix(path.text@, views(ctx.config.allow_prefixes@)))
                ==> r is None,
    {
        if !should_flag_path(path.text.as_str(), &ctx.config.roots) {
            return None;
        }
        if allowed_by_prefix(path.text.as_str(), &ctx.config.allow_prefixes) {
            return None;
        }
        let fixes = build_fixes(ctx.file, ctx.text, path, start, end, ctx.taken);
        Some(path_finding(ctx.file, ctx.config.level.to_severity(), path.text.as_str(), start, end, fixes))
    }

    /// A path in an expression or a pattern: as [`Self::check_path`], except
    /// that an allowed crate-root constant is left alone.
    pub fn check_value_path(ctx: &ModulePathsContext, path: &PathText, start: LineColumn, end: LineColumn) -> (r: Option<Finding>)
        ensures
            spec_allowed_const(path.text@, ctx.config.allow_crate_root_consts) ==> r is None,
            !spec_allowed_const(path.text@, ctx.config.allow_crate_root_consts)
                && spec_should_flag(path.text@, views(ctx.config.roots@))
                && !spec_allowed_prefix(path.text@, views(ctx.config.allow_prefixes@))
                ==> (r matches Some(f) && f@ == qualified_path_finding(
                    ctx.config.level.spec_severity(),
                    path.text@,
                    span_of(ctx.file@, start, end),
                    spec_fixes(ctx.file@, ctx.text@, ctx.text.spec_bytes(), *path, start, end, views(ctx.taken@)),
                )),
            !(spec_should_flag(path.text@, views(ctx.config.roots@)) && !spec_allowed_prefix(path.text@, views(ctx.config.allow_prefixes@)))
                ==> r is None,
    {
        if is_allowed_crate_root_const(path.text.as_str(), ctx.config.allow_crate_root_consts) {
            return None;
        }
        AbsoluteModulePathsRule::check_path(ctx, path, start, end)
    }

    /// A path named as text (a macro or a `use` item): flagged unless an
    /// allowed prefix covers it, without a fix.
    pub fn check_text(ctx: &ModulePathsContext, path_str: &str, start: LineColumn, end: LineColumn) -> (r: Option<Finding>)
        ensures
            spec_allowed_prefix(path_str@, views(ctx.config.allow_prefixes@)) ==> r is None,
            !spec_allowed_prefix(path_str@, views(ctx.config.allow_prefixes@)) ==> (r matches Some(f)
                && f@ == qualified_path_finding(
                ctx.config.level.spec_severity(),
                path_str@,
                span_of(ctx.file@, start, end),
                Seq::empty(),
            )),
    {
        if allowed_by_prefix(path_str, &ctx.config.allow_prefixes) {
            return None;
        }
        let none: Vec<Fix> = Vec::new();
        assert(none@.map_values(|f: Fix| crate::report::fix_v(f)) =~= Seq::<FixView>::empty());
        Some(path_finding(ctx.file, ctx.config.level.to_severity(), path_str, start, end, none))
    }

    /// A macro path: flagged when the rule flags it, unless it is an allowed
    /// crate-root macro.
    pub fn check_macro(ctx: &ModulePathsContext, path_str: &str, start: LineColumn, end: LineColumn) -> (r: Option<Finding>)
        ensures
            (spec_should_flag(path_str@, views(ctx.config.roots@)) && !(ctx.config.allow_crate_root_macros
                && spec_crate_root_ident(path_str@) is Some) && !spec_allowed_prefix(path_str@, views(ctx.config.allow_prefixes@)))
                ==> (r matches Some(f) && f@ == qualified_path_finding(
                ctx.config.level.spec_severity(),
                path_str@,
                span_of(ctx.file@, start, end),
                Seq::empty(),
            )),
            !(spec_should_flag(path_str@, views(ctx.config.roots@)) && !(ctx.config.allow_crate_root_macros
                && spec_crate_root_ident(path_str@) is Some) && !spec_allowed_prefix(path_str@, views(ctx.config.allow_prefixes@)))
                ==> r is None,
    {
        if !should_flag_path(path_str, &ctx.config.roots) {
            return None;
        }
        if ctx.config.allow_crate_root_macros && is_allowed_crate_root_macro(path_str) {
            return None;
        }
        AbsoluteModulePathsRule::check_text(ctx, path_str, start, end)
    }

    /// A call whose callee is an allowed crate-root function: only its
    /// arguments are checked.
    pub fn skips_call(config: &AbsoluteModulePathsConfig, callee: &str) -> (r: bool)
        ensures
            r == (config.allow_crate_root_fn_calls && spec_crate_root_ident(callee@) is Some),
    {
        config.allow_crate_root_fn_calls && is_allowed_crate_root_call(callee)
    }
}

/// The text of a `use` tree: its parts joined by `::`, with `::` in front for a
/// leading colon; `None` when it has no parts.
pub open spec fn spec_use_tree_text(leading_colon: bool, parts: Seq<Seq<char>>) -> Option<Seq<char>> {
    if parts.len() == 0 {
        None
    } else if leading_colon {
        Some("::"@ + join(parts, "::"@))
    } else {
        Some(join(parts, "::"@))
    }
}

pub fn use_tree_path_str(leading_colon: bool, parts: &Vec<String>) -> (r: Option<String>)
    ensures
        match r {
            Some(s) => spec_use_tree_text(leading_colon, views(parts@)) == Some(s@),
            None => spec_use_tree_text(leading_colon, views(parts@)) is None,
        },
{
    if parts.len() == 0 {
        return None;
    }
    let joined = join_strings(parts, "::");
    assert(parts@.map_values(|s: String| s@) =~= views(parts@));
    if leading_colon {
        let mut s = String::from_str("::");
        s.append(joined.as_str());
        Some(s)
    } else {
        Some(joined)
    }
}

} // verus!

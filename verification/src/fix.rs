//! Text edits: locating line/column positions and applying replacements.
use vstd::prelude::*;
use vstd::utf8::*;
use vstd::string::*;
use crate::report::TextEdit;

verus! {

broadcast use vstd::utf8::encode_utf8_valid_utf8;

#[derive(Debug, Clone, Copy, PartialEq, Eq, Structural)]
pub enum FixError {
    InvalidLineColumn,
    InvalidUtf8Boundary,
    OutOfBounds,
    Overlap,
}

/// The text of each error.
pub open spec fn fix_error_text(e: FixError) -> Seq<char> {
    match e {
        FixError::InvalidLineColumn => "invalid line/column"@,
        FixError::InvalidUtf8Boundary => "invalid utf-8 boundaries for edit"@,
        FixError::OutOfBounds => "edit out of bounds"@,
        FixError::Overlap => "overlapping edits"@,
    }
}

impl FixError {
    /// The error's text.
    pub fn message(&self) -> (r: &'static str)
        ensures
            r@ == fix_error_text(*self),
    {
        match self {
            FixError::InvalidLineColumn => "invalid line/column",
            FixError::InvalidUtf8Boundary => "invalid utf-8 boundaries for edit",
            FixError::OutOfBounds => "edit out of bounds",
            FixError::Overlap => "overlapping edits",
        }
    }
}

/// The UTF-8 bytes of a character sequence.
pub open spec fn utf8(s: Seq<char>) -> Seq<u8> {
    encode_utf8(s)
}

/// A byte that starts the encoding of a character (not a continuation byte).
pub open spec fn is_char_start(byte: u8) -> bool {
    !(0x80 <= byte && byte < 0xC0)
}

/// The index of the first newline byte at or after `p`, or the length when there is none.
pub open spec fn next_newline(b: Seq<u8>, p: int) -> int
    decreases b.len() - p,
{
    if p < 0 || p >= b.len() {
        b.len() as int
    } else if b[p] == 10u8 {
        p
    } else {
        next_newline(b, p + 1)
    }
}

/// The offset at which the 0-based line `k` starts, if the text has that many lines.
pub open spec fn line_start(b: Seq<u8>, k: nat) -> Option<int>
    decreases k,
{
    if k == 0 {
        Some(0)
    } else {
        match line_start(b, (k - 1) as nat) {
            Some(p) => {
                let q = next_newline(b, p);
                if q < b.len() {
                    Some(q + 1)
                } else {
                    None
                }
            },
            None => None,
        }
    }
}

/// Walking the line from `pos` to `end` with `col` characters already passed, the
/// offset of the character numbered `target` (or of the line's end when the line
/// has exactly `target` characters).
pub open spec fn column_offset(b: Seq<u8>, pos: int, end: int, col: nat, target: nat) -> Option<int>
    decreases end - pos,
{
    if pos >= end {
        if col == target {
            Some(end)
        } else {
            None
        }
    } else if is_char_start(b[pos]) {
        if col == target {
            Some(pos)
        } else {
            column_offset(b, pos + 1, end, col + 1, target)
        }
    } else {
        column_offset(b, pos + 1, end, col, target)
    }
}

/// The byte offset of the 1-based line and column in the text `b`.
pub open spec fn line_col_offset(b: Seq<u8>, line_1: u32, col_1: u32) -> Option<int> {
    if line_1 == 0 || col_1 == 0 {
        None
    } else {
        match line_start(b, (line_1 - 1) as nat) {
            Some(s) => column_offset(b, s, next_newline(b, s), 0, (col_1 - 1) as nat),
            None => None,
        }
    }
}

proof fn lemma_line_start_none_persists(b: Seq<u8>, k: nat, m: nat)
    requires
        line_start(b, k) is None,
        k <= m,
    ensures
        line_start(b, m) is None,
    decreases m,
{
    if k < m {
        lemma_line_start_none_persists(b, k, (m - 1) as nat);
    }
}

proof fn lemma_next_newline_bounds(b: Seq<u8>, p: int)
    requires
        0 <= p <= b.len(),
    ensures
        p <= next_newline(b, p) <= b.len(),
        next_newline(b, p) < b.len() ==> b[next_newline(b, p)] == 10u8,
    decreases b.len() - p,
{
    if p < b.len() && b[p] != 10u8 {
        lemma_next_newline_bounds(b, p + 1);
    }
}

fn find_newline(b: &[u8], p: usize) -> (r: usize)
    requires
        p <= b@.len(),
    ensures
        r as int == next_newline(b@, p as int),
{
    let mut i = p;
    while i < b.len()
        invariant
            p <= i <= b@.len(),
            next_newline(b@, p as int) == next_newline(b@, i as int),
        decreases b.len() - i,
    {
        if b[i] == 10u8 {
            return i;
        }
        i = i + 1;
    }
    i
}

/// The byte offset in `text` of the 1-based `line_1` and `col_1`, counting columns in characters.
pub fn line_col_to_byte_offset(text: &str, line_1: u32, col_1: u32) -> (r: Result<usize, FixError>)
    ensures
        match r {
            Ok(off) => line_col_offset(text.spec_bytes(), line_1, col_1) == Some(off as int),
            Err(e) => e == FixError::InvalidLineColumn && line_col_offset(
                text.spec_bytes(),
                line_1,
                col_1,
            ) is None,
        },
{
    let b = text.as_bytes();
    if line_1 == 0 || col_1 == 0 {
        return Err(FixError::InvalidLineColumn);
    }
    let mut current_line: u32 = 1;
    let mut idx: usize = 0;
    while current_line < line_1
        invariant
            1 <= current_line <= line_1,
            1 <= col_1,
            b@ == text.spec_bytes(),
            idx <= b@.len(),
            line_start(b@, (current_line - 1) as nat) == Some(idx as int),
        decreases line_1 - current_line,
    {
        let q = find_newline(b, idx);
        if q >= b.len() {
            proof {
                assert(line_start(b@, ((current_line as nat) - 1) as nat) == Some(idx as int));
                assert(line_start(b@, current_line as nat) is None);
                lemma_line_start_none_persists(b@, current_line as nat, (line_1 - 1) as nat);
            }
            return Err(FixError::InvalidLineColumn);
        }
        idx = q + 1;
        current_line = current_line + 1;
    }
    let line_end = find_newline(b, idx);
    proof {
        lemma_next_newline_bounds(b@, idx as int);
    }
    let target: usize = (col_1 - 1) as usize;
    let mut pos = idx;
    let mut col: usize = 0;
    while pos < line_end
        invariant
            idx <= pos <= line_end <= b@.len(),
            1 <= line_1,
            b@ == text.spec_bytes(),
            line_start(b@, (line_1 - 1) as nat) == Some(idx as int),
            line_end as int == next_newline(b@, idx as int),
            col <= target,
            target == col_1 - 1,
            column_offset(b@, idx as int, line_end as int, 0, target as nat) == column_offset(
                b@,
                pos as int,
                line_end as int,
                col as nat,
                target as nat,
            ),
        decreases line_end - pos,
    {
        let byte = b[pos];
        if !(0x80u8 <= byte && byte < 0xC0u8) {
            if col == target {
                assert(line_start(b@, (line_1 - 1) as nat) == Some(idx as int));
                assert(column_offset(b@, pos as int, line_end as int, col as nat, target as nat) == Some(pos as int));
                return Ok(pos);
            }
            col = col + 1;
        }
        pos = pos + 1;
    }
    if col < target {
        return Err(FixError::InvalidLineColumn);
    }
    Ok(line_end)
}

// ---------------------------------------------------------------------------
// Applying edits
// ---------------------------------------------------------------------------

/// `a` sorts strictly before `b` by `(byte_start, byte_end)`.
pub open spec fn key_lt(a: TextEdit, b: TextEdit) -> bool {
    a.byte_start < b.byte_start || (a.byte_start == b.byte_start && a.byte_end < b.byte_end)
}

/// `e` inserted into `s` (sorted by descending key) after every element whose key is not smaller.
pub open spec fn insert_desc(s: Seq<TextEdit>, e: TextEdit) -> Seq<TextEdit>
    decreases s.len(),
{
    if s.len() == 0 {
        seq![e]
    } else if key_lt(s[0], e) {
        seq![e] + s
    } else {
        seq![s[0]] + insert_desc(s.drop_first(), e)
    }
}

/// The edits in descending order of `(byte_start, byte_end)`, ties kept in their given order.
pub open spec fn sort_desc(s: Seq<TextEdit>) -> Seq<TextEdit>
    decreases s.len(),
{
    if s.len() == 0 {
        s
    } else {
        insert_desc(sort_desc(s.drop_last()), s.last())
    }
}

/// The bytes `b` with `b[s..e]` replaced by `r`.
pub open spec fn splice(b: Seq<u8>, s: int, e: int, r: Seq<u8>) -> Seq<u8> {
    b.subrange(0, s) + r + b.subrange(e, b.len() as int)
}

/// Applying `edits`, in the given order, to the bytes `b`; `last` is the start of the
/// previously applied edit.
pub open spec fn apply_sorted(b: Seq<u8>, edits: Seq<TextEdit>, last: Option<u32>) -> Result<
    Seq<u8>,
    FixError,
>
    decreases edits.len(),
{
    if edits.len() == 0 {
        Ok(b)
    } else {
        let e = edits[0];
        if e.byte_start > e.byte_end {
            Err(FixError::OutOfBounds)
        } else if last is Some && e.byte_end > last->0 {
            Err(FixError::Overlap)
        } else if e.byte_end > b.len() {
            Err(FixError::OutOfBounds)
        } else if !is_char_boundary(b, e.byte_start as int) || !is_char_boundary(
            b,
            e.byte_end as int,
        ) {
            Err(FixError::InvalidUtf8Boundary)
        } else {
            apply_sorted(
                splice(b, e.byte_start as int, e.byte_end as int, utf8(e.replacement@)),
                edits.drop_first(),
                Some(e.byte_start),
            )
        }
    }
}

/// The result of applying all `edits` to the bytes `b`, from the highest offset down.
pub open spec fn apply_edits_spec(b: Seq<u8>, edits: Seq<TextEdit>) -> Result<Seq<u8>, FixError> {
    apply_sorted(b, sort_desc(edits), None)
}

/// Two edits share a byte: each starts before the other ends.
pub open spec fn edits_intersect(a: TextEdit, b: TextEdit) -> bool {
    a.byte_start < b.byte_end && b.byte_start < a.byte_end
}

/// Sorted by descending key, and no two edits share a byte.
spec fn desc_disjoint(t: Seq<TextEdit>) -> bool {
    forall|i: int, j: int| 0 <= i < j < t.len() ==> !key_lt(#[trigger] t[i], #[trigger] t[j]) && !edits_intersect(t[i], t[j])
}

proof fn lemma_insert_desc_contents(t: Seq<TextEdit>, e: TextEdit)
    ensures
        insert_desc(t, e).len() == t.len() + 1,
        forall|k: int| 0 <= k < insert_desc(t, e).len() ==> #[trigger] insert_desc(t, e)[k] == e || t.contains(insert_desc(t, e)[k]),
    decreases t.len(),
{
    if t.len() > 0 && !key_lt(t[0], e) {
        let d = t.drop_first();
        lemma_insert_desc_contents(d, e);
        let r = insert_desc(t, e);
        assert forall|k: int| 0 <= k < r.len() implies #[trigger] r[k] == e || t.contains(r[k]) by {
            if k > 0 {
                let x = insert_desc(d, e)[k - 1];
                assert(r[k] == x);
                if x != e {
                    let m = choose|m: int| 0 <= m < d.len() && d[m] == x;
                    assert(t[m + 1] == x);
                }
            } else {
                assert(t[0] == r[0]);
            }
        }
    } else if t.len() > 0 {
        let r = insert_desc(t, e);
        assert forall|k: int| 0 <= k < r.len() implies #[trigger] r[k] == e || t.contains(r[k]) by {
            if k > 0 {
                assert(r[k] == t[k - 1]);
            }
        }
    }
}

proof fn lemma_insert_desc_keeps(t: Seq<TextEdit>, e: TextEdit)
    requires
        desc_disjoint(t),
        forall|k: int| 0 <= k < t.len() ==> !edits_intersect(#[trigger] t[k], e),
    ensures
        desc_disjoint(insert_desc(t, e)),
    decreases t.len(),
{
    lemma_insert_desc_contents(t, e);
    if t.len() == 0 {
    } else if key_lt(t[0], e) {
        let r = seq![e] + t;
        assert forall|i: int, j: int| 0 <= i < j < r.len() implies !key_lt(#[trigger] r[i], #[trigger] r[j])
            && !edits_intersect(r[i], r[j]) by {
            assert(r[j] == t[j - 1]);
            if i == 0 {
                if j > 1 {
                    assert(!key_lt(t[0], t[j - 1]));
                }
            } else {
                assert(r[i] == t[i - 1]);
            }
        }
        assert(insert_desc(t, e) == r);
    } else {
        let d = t.drop_first();
        assert forall|i: int, j: int| 0 <= i < j < d.len() implies !key_lt(#[trigger] d[i], #[trigger] d[j])
            && !edits_intersect(d[i], d[j]) by {
            assert(d[i] == t[i + 1] && d[j] == t[j + 1]);
        }
        assert forall|k: int| 0 <= k < d.len() implies !edits_intersect(#[trigger] d[k], e) by {
            assert(d[k] == t[k + 1]);
        }
        lemma_insert_desc_keeps(d, e);
        lemma_insert_desc_contents(d, e);
        let q = insert_desc(d, e);
        let r = seq![t[0]] + q;
        assert forall|i: int, j: int| 0 <= i < j < r.len() implies !key_lt(#[trigger] r[i], #[trigger] r[j])
            && !edits_intersect(r[i], r[j]) by {
            assert(r[j] == q[j - 1]);
            if i == 0 {
                assert(r[0] == t[0]);
                let x = q[j - 1];
                if x != e {
                    let m = choose|m: int| 0 <= m < d.len() && d[m] == x;
                    assert(d[m] == t[m + 1]);
                }
            } else {
                assert(r[i] == q[i - 1]);
            }
        }
        assert(insert_desc(t, e) == r);
    }
}

proof fn lemma_sort_desc_contents(s: Seq<TextEdit>)
    ensures
        sort_desc(s).len() == s.len(),
        forall|k: int| 0 <= k < sort_desc(s).len() ==> exists|m: int| 0 <= m < s.len() && #[trigger] sort_desc(s)[k] == s[m],
    decreases s.len(),
{
    if s.len() > 0 {
        let d = s.drop_last();
        lemma_sort_desc_contents(d);
        lemma_insert_desc_contents(sort_desc(d), s.last());
        let r = sort_desc(s);
        assert forall|k: int| 0 <= k < r.len() implies exists|m: int| 0 <= m < s.len() && #[trigger] r[k] == s[m] by {
            if r[k] == s.last() {
                assert(r[k] == s[s.len() - 1]);
            } else {
                let n = choose|n: int| 0 <= n < sort_desc(d).len() && sort_desc(d)[n] == r[k];
                let m = choose|m: int| 0 <= m < d.len() && sort_desc(d)[n] == d[m];
                assert(d[m] == s[m]);
            }
        }
    }
}

/// No two edits, at different places of `s`, share a byte.
pub open spec fn pairwise_disjoint(s: Seq<TextEdit>) -> bool {
    forall|i: int, j: int| 0 <= i < s.len() && 0 <= j < s.len() && i != j ==> !edits_intersect(#[trigger] s[i], #[trigger] s[j])
}

proof fn lemma_sort_desc_disjoint(s: Seq<TextEdit>)
    requires
        pairwise_disjoint(s),
    ensures
        desc_disjoint(sort_desc(s)),
    decreases s.len(),
{
    if s.len() > 0 {
        let d = s.drop_last();
        assert forall|i: int, j: int| 0 <= i < d.len() && 0 <= j < d.len() && i != j implies !edits_intersect(
            #[trigger] d[i],
            #[trigger] d[j],
        ) by {
            assert(d[i] == s[i] && d[j] == s[j]);
        }
        lemma_sort_desc_disjoint(d);
        lemma_sort_desc_contents(d);
        let t = sort_desc(d);
        assert forall|k: int| 0 <= k < t.len() implies !edits_intersect(#[trigger] t[k], s.last()) by {
            let m = choose|m: int| 0 <= m < d.len() && t[k] == d[m];
            assert(d[m] == s[m]);
            assert(s.last() == s[s.len() - 1]);
        }
        lemma_insert_desc_keeps(t, s.last());
    }
}

proof fn lemma_sorted_no_overlap(b: Seq<u8>, t: Seq<TextEdit>, last: Option<u32>)
    requires
        desc_disjoint(t),
        t.len() > 0 && last is Some ==> t[0].byte_end <= last->0,
    ensures
        apply_sorted(b, t, last) != Err::<Seq<u8>, FixError>(FixError::Overlap),
    decreases t.len(),
{
    if t.len() > 0 {
        let e = t[0];
        if e.byte_start <= e.byte_end && !(last is Some && e.byte_end > last->0) && e.byte_end <= b.len()
            && is_char_boundary(b, e.byte_start as int) && is_char_boundary(b, e.byte_end as int) {
            let d = t.drop_first();
            assert forall|i: int, j: int| 0 <= i < j < d.len() implies !key_lt(#[trigger] d[i], #[trigger] d[j])
                && !edits_intersect(d[i], d[j]) by {
                assert(d[i] == t[i + 1] && d[j] == t[j + 1]);
            }
            if d.len() > 0 {
                assert(d[0] == t[1]);
                assert(!key_lt(t[0], t[1]) && !edits_intersect(t[0], t[1]));
            }
            lemma_sorted_no_overlap(
                splice(b, e.byte_start as int, e.byte_end as int, utf8(e.replacement@)),
                d,
                Some(e.byte_start),
            );
        }
    }
}

/// Edits of which no two share a byte are never refused as overlapping.
pub proof fn disjoint_edits_never_overlap(b: Seq<u8>, edits: Seq<TextEdit>)
    requires
        pairwise_disjoint(edits),
    ensures
        apply_edits_spec(b, edits) != Err::<Seq<u8>, FixError>(FixError::Overlap),
{
    lemma_sort_desc_disjoint(edits);
    lemma_sorted_no_overlap(b, sort_desc(edits), None);
}

/// An edit that cannot be applied to `b` on its own: it ends before it
/// starts, ends past the end of `b`, or starts or ends inside a character.
pub open spec fn edit_invalid(b: Seq<u8>, e: TextEdit) -> bool {
    e.byte_start > e.byte_end || e.byte_end > b.len() || !is_char_boundary(b, e.byte_start as int)
        || !is_char_boundary(b, e.byte_end as int)
}

/// Some edit of `t` is invalid on `b`, or ends after the start of the edit
/// before it (of `last`, for the first).
spec fn step_bad(b: Seq<u8>, t: Seq<TextEdit>, last: Option<u32>) -> bool {
    exists|k: int|
        0 <= k < t.len() && (edit_invalid(b, #[trigger] t[k]) || (k == 0 && last is Some && t[0].byte_end > last->0)
            || (k > 0 && t[k].byte_end > t[k - 1].byte_start))
}

/// Sorted by descending `(byte_start, byte_end)`.
spec fn sorted_desc_keys(t: Seq<TextEdit>) -> bool {
    forall|i: int, j: int| 0 <= i < j < t.len() ==> !key_lt(#[trigger] t[i], #[trigger] t[j])
}

/// Replacing a range between two character boundaries keeps the bytes valid,
/// and keeps which positions up to the range's start are boundaries.
proof fn lemma_splice_boundaries(b: Seq<u8>, s: int, e: int, r: Seq<char>)
    requires
        valid_utf8(b),
        0 <= s <= e <= b.len(),
        is_char_boundary(b, s),
        is_char_boundary(b, e),
    ensures
        valid_utf8(splice(b, s, e, utf8(r))),
        splice(b, s, e, utf8(r)).len() >= s,
        forall|i: int| 0 <= i <= s ==> is_char_boundary(splice(b, s, e, utf8(r)), i) == is_char_boundary(b, i),
{
    let c = splice(b, s, e, utf8(r));
    let u = utf8(r);
    valid_utf8_split(b, s);
    valid_utf8_split(b, e);
    valid_utf8_concat(b.subrange(0, s), u);
    valid_utf8_concat(b.subrange(0, s) + u, b.subrange(e, b.len() as int));
    assert forall|i: int| 0 <= i <= s implies is_char_boundary(c, i) == is_char_boundary(b, i) by {
        if i < s {
            assert(c[i] == b[i]);
            is_char_boundary_iff_not_is_continuation_byte(b, i);
            is_char_boundary_iff_not_is_continuation_byte(c, i);
        } else if i == c.len() {
            is_char_boundary_start_end_of_seq(c);
        } else {
            is_char_boundary_iff_not_is_continuation_byte(c, i);
            if u.len() > 0 {
                assert(c[i] == u[0]);
                is_char_boundary_iff_not_is_continuation_byte(u, 0);
            } else {
                assert(c[i] == b[e]);
                is_char_boundary_iff_not_is_continuation_byte(b, e);
            }
        }
    }
}

/// Applying `t` after edits that left `cur` (whose boundaries up to `last`
/// are those of `b`) fails exactly when `step_bad` holds.
proof fn lemma_apply_sorted_fails(b: Seq<u8>, cur: Seq<u8>, t: Seq<TextEdit>, last: Option<u32>)
    requires
        valid_utf8(b),
        valid_utf8(cur),
        last is None ==> cur == b,
        last is Some ==> last->0 <= b.len() && last->0 <= cur.len() && forall|i: int|
            0 <= i <= last->0 ==> is_char_boundary(cur, i) == is_char_boundary(b, i),
    ensures
        apply_sorted(cur, t, last) is Err <==> step_bad(b, t, last),
    decreases t.len(),
{
    if t.len() > 0 {
        let e = t[0];
        if e.byte_start > e.byte_end {
            assert(edit_invalid(b, t[0]));
        } else if last is Some && e.byte_end > last->0 {
            assert(step_bad(b, t, last));
        } else if e.byte_end > cur.len() {
            assert(edit_invalid(b, t[0]));
        } else if !is_char_boundary(cur, e.byte_start as int) || !is_char_boundary(cur, e.byte_end as int) {
            assert(edit_invalid(b, t[0]));
        } else {
            let c = splice(cur, e.byte_start as int, e.byte_end as int, utf8(e.replacement@));
            lemma_splice_boundaries(cur, e.byte_start as int, e.byte_end as int, e.replacement@);
            assert(!edit_invalid(b, e));
            let d = t.drop_first();
            lemma_apply_sorted_fails(b, c, d, Some(e.byte_start));
            if step_bad(b, d, Some(e.byte_start)) {
                let k = choose|k: int|
                    0 <= k < d.len() && (edit_invalid(b, #[trigger] d[k]) || (k == 0 && Some(e.byte_start) is Some
                        && d[0].byte_end > e.byte_start) || (k > 0 && d[k].byte_end > d[k - 1].byte_start));
                assert(t[k + 1] == d[k]);
                if k > 0 {
                    assert(t[k] == d[k - 1]);
                }
                assert(step_bad(b, t, last));
            }
            if step_bad(b, t, last) {
                let k = choose|k: int|
                    0 <= k < t.len() && (edit_invalid(b, #[trigger] t[k]) || (k == 0 && last is Some
                        && t[0].byte_end > last->0) || (k > 0 && t[k].byte_end > t[k - 1].byte_start));
                assert(k > 0);
                assert(d[k - 1] == t[k]);
                if k > 1 {
                    assert(d[k - 2] == t[k - 1]);
                }
                assert(step_bad(b, d, Some(e.byte_start)));
            }
        }
    }
}

/// In edits sorted by descending key, with none invalid, each ends no later
/// than any edit before it starts.
proof fn lemma_sorted_chain(b: Seq<u8>, t: Seq<TextEdit>, i: int, j: int)
    requires
        0 <= i < j < t.len(),
        !step_bad(b, t, None),
    ensures
        t[j].byte_end <= t[i].byte_start,
    decreases j - i,
{
    assert(!(edit_invalid(b, t[j]) || (j > 0 && t[j].byte_end > t[j - 1].byte_start)));
    if j > i + 1 {
        lemma_sorted_chain(b, t, i, j - 1);
        assert(!edit_invalid(b, t[j - 1]));
    }
}

/// For sorted edits of which none is invalid, a step that ends after the
/// previous start is exactly a pair of edits sharing a byte.
proof fn lemma_sorted_bad_iff_intersect(b: Seq<u8>, t: Seq<TextEdit>)
    requires
        sorted_desc_keys(t),
        forall|k: int| 0 <= k < t.len() ==> !edit_invalid(b, #[trigger] t[k]),
    ensures
        step_bad(b, t, None) <==> !pairwise_disjoint(t),
{
    if step_bad(b, t, None) {
        let k = choose|k: int|
            0 <= k < t.len() && (edit_invalid(b, #[trigger] t[k]) || (k == 0 && None::<u32> is Some
                && t[0].byte_end > 0) || (k > 0 && t[k].byte_end > t[k - 1].byte_start));
        assert(!edit_invalid(b, t[k]));
        assert(!edit_invalid(b, t[k - 1]));
        assert(!key_lt(t[k - 1], t[k]));
        assert(edits_intersect(t[k - 1], t[k]));
    } else {
        assert forall|i: int, j: int| 0 <= i < t.len() && 0 <= j < t.len() && i != j implies !edits_intersect(
            #[trigger] t[i],
            #[trigger] t[j],
        ) by {
            if i < j {
                lemma_sorted_chain(b, t, i, j);
            } else {
                lemma_sorted_chain(b, t, j, i);
            }
        }
    }
}

proof fn lemma_insert_desc_sorted(t: Seq<TextEdit>, e: TextEdit)
    requires
        sorted_desc_keys(t),
    ensures
        sorted_desc_keys(insert_desc(t, e)),
        exists|i: int| 0 <= i <= t.len() && insert_desc(t, e) == t.insert(i, e),
    decreases t.len(),
{
    if t.len() == 0 {
        assert(insert_desc(t, e) == t.insert(0, e));
    } else if key_lt(t[0], e) {
        let r = seq![e] + t;
        assert forall|i: int, j: int| 0 <= i < j < r.len() implies !key_lt(#[trigger] r[i], #[trigger] r[j]) by {
            assert(r[j] == t[j - 1]);
            if i == 0 {
                if j > 1 {
                    assert(!key_lt(t[0], t[j - 1]));
                }
            } else {
                assert(r[i] == t[i - 1]);
            }
        }
        assert(r =~= t.insert(0, e));
    } else {
        let d = t.drop_first();
        assert forall|i: int, j: int| 0 <= i < j < d.len() implies !key_lt(#[trigger] d[i], #[trigger] d[j]) by {
            assert(d[i] == t[i + 1] && d[j] == t[j + 1]);
        }
        lemma_insert_desc_sorted(d, e);
        let q = insert_desc(d, e);
        let n = choose|n: int| 0 <= n <= d.len() && q == d.insert(n, e);
        let r = seq![t[0]] + q;
        assert forall|i: int, j: int| 0 <= i < j < r.len() implies !key_lt(#[trigger] r[i], #[trigger] r[j]) by {
            assert(r[j] == q[j - 1]);
            if i == 0 {
                assert(r[0] == t[0]);
                if j - 1 != n {
                    if j - 1 < n {
                        assert(q[j - 1] == d[j - 1]);
                        assert(d[j - 1] == t[j]);
                    } else {
                        assert(q[j - 1] == d[j - 2]);
                        assert(d[j - 2] == t[j - 1]);
                    }
                }
            } else {
                assert(r[i] == q[i - 1]);
            }
        }
        assert(r =~= t.insert(n + 1, e));
    }
}

/// Sorting keeps every edit, as often as it occurs, in descending key order.
proof fn lemma_sort_desc_permutes(s: Seq<TextEdit>)
    ensures
        sorted_desc_keys(sort_desc(s)),
        sort_desc(s).to_multiset() == s.to_multiset(),
    decreases s.len(),
{
    broadcast use vstd::seq_lib::to_multiset_build, vstd::seq_lib::to_multiset_insert;

    if s.len() == 0 {
    } else {
        let d = s.drop_last();
        lemma_sort_desc_permutes(d);
        lemma_insert_desc_sorted(sort_desc(d), s.last());
        let n = choose|n: int| 0 <= n <= sort_desc(d).len() && insert_desc(sort_desc(d), s.last()) == sort_desc(d).insert(n, s.last());
        assert(d.push(s.last()) =~= s);
    }
}

/// A value at two places of `s` counts at least twice.
proof fn lemma_count_two(s: Seq<TextEdit>, i: int, j: int)
    requires
        0 <= i < j < s.len(),
        s[i] == s[j],
    ensures
        s.to_multiset().count(s[i]) >= 2,
    decreases s.len(),
{
    broadcast use vstd::seq_lib::to_multiset_build;

    let d = s.drop_last();
    assert(d.push(s.last()) =~= s);
    d.to_multiset_ensures();
    if j < s.len() - 1 {
        assert(d[i] == s[i] && d[j] == s[j]);
        lemma_count_two(d, i, j);
    } else {
        assert(d[i] == s[i]);
        assert(d.contains(s[i]));
    }
}

/// A value that counts at least twice stands at two places of `s`.
proof fn lemma_two_places(s: Seq<TextEdit>, x: TextEdit)
    requires
        s.to_multiset().count(x) >= 2,
    ensures
        exists|i: int, j: int| 0 <= i < j < s.len() && s[i] == x && s[j] == x,
    decreases s.len(),
{
    broadcast use vstd::seq_lib::to_multiset_build;

    s.to_multiset_ensures();
    let d = s.drop_last();
    assert(d.push(s.last()) =~= s);
    d.to_multiset_ensures();
    if s.last() == x {
        assert(d.contains(x));
        let i = choose|i: int| 0 <= i < d.len() && d[i] == x;
        assert(s[i] == x && s[s.len() - 1] == x);
    } else {
        lemma_two_places(d, x);
        let (i, j) = choose|i: int, j: int| 0 <= i < j < d.len() && d[i] == x && d[j] == x;
        assert(s[i] == x && s[j] == x);
    }
}

/// Applying edits to valid UTF-8 fails exactly when one of them cannot be
/// applied on its own (it ends before it starts, ends past the end, or starts
/// or ends inside a character) or two of them share a byte.
pub proof fn edits_fail_exactly_when_invalid_or_overlapping(b: Seq<u8>, edits: Seq<TextEdit>)
    requires
        valid_utf8(b),
    ensures
        apply_edits_spec(b, edits) is Err <==> (exists|k: int| 0 <= k < edits.len() && edit_invalid(b, #[trigger] edits[k]))
            || !pairwise_disjoint(edits),
{
    let t = sort_desc(edits);
    lemma_sort_desc_permutes(edits);
    lemma_apply_sorted_fails(b, b, t, None);
    t.to_multiset_ensures();
    edits.to_multiset_ensures();
    let any_invalid_t = exists|k: int| 0 <= k < t.len() && edit_invalid(b, #[trigger] t[k]);
    let any_invalid_s = exists|k: int| 0 <= k < edits.len() && edit_invalid(b, #[trigger] edits[k]);
    if any_invalid_t {
        let k = choose|k: int| 0 <= k < t.len() && edit_invalid(b, #[trigger] t[k]);
        assert(t.contains(t[k]));
        assert(t.to_multiset().count(t[k]) > 0);
        assert(edits.contains(t[k]));
        let m = choose|m: int| 0 <= m < edits.len() && edits[m] == t[k];
        assert(step_bad(b, t, None));
    }
    if any_invalid_s {
        let k = choose|k: int| 0 <= k < edits.len() && edit_invalid(b, #[trigger] edits[k]);
        assert(edits.contains(edits[k]));
        assert(edits.to_multiset().count(edits[k]) > 0);
        assert(t.contains(edits[k]));
        let m = choose|m: int| 0 <= m < t.len() && t[m] == edits[k];
        assert(step_bad(b, t, None));
    }
    if !any_invalid_t {
        lemma_sorted_bad_iff_intersect(b, t);
        if pairwise_disjoint(edits) {
            lemma_sort_desc_disjoint(edits);
            assert(pairwise_disjoint(t)) by {
                assert forall|i: int, j: int| 0 <= i < t.len() && 0 <= j < t.len() && i != j implies !edits_intersect(
                    #[trigger] t[i],
                    #[trigger] t[j],
                ) by {
                    if i < j {
                        assert(!edits_intersect(t[i], t[j]));
                    } else {
                        assert(!edits_intersect(t[j], t[i]));
                    }
                }
            }
        } else {
            let (i, j) = choose|i: int, j: int| 0 <= i < edits.len() && 0 <= j < edits.len() && i != j && edits_intersect(
                #[trigger] edits[i],
                #[trigger] edits[j],
            );
            if edits[i] == edits[j] {
                if i < j {
                    lemma_count_two(edits, i, j);
                } else {
                    lemma_count_two(edits, j, i);
                }
                lemma_two_places(t, edits[i]);
                let (p, q) = choose|p: int, q: int| 0 <= p < q < t.len() && t[p] == edits[i] && t[q] == edits[i];
                assert(edits_intersect(t[p], t[q]));
            } else {
                assert(edits.contains(edits[i]) && edits.contains(edits[j]));
                assert(edits.to_multiset().count(edits[i]) > 0 && edits.to_multiset().count(edits[j]) > 0);
                assert(t.contains(edits[i]) && t.contains(edits[j]));
                let p = choose|p: int| 0 <= p < t.len() && t[p] == edits[i];
                let q = choose|q: int| 0 <= q < t.len() && t[q] == edits[j];
                assert(edits_intersect(t[p], t[q]));
            }
            assert(!pairwise_disjoint(t));
        }
    }
}

/// The UTF-8 encoding of a concatenation is the concatenation of the encodings.
pub proof fn lemma_utf8_concat(a: Seq<char>, b: Seq<char>)
    ensures
        utf8(a + b) == utf8(a) + utf8(b),
    decreases a.len(),
{
    if a.len() == 0 {
        assert(a + b =~= b);
        assert(utf8(a) + utf8(b) =~= utf8(b));
    } else {
        lemma_utf8_concat(a.drop_first(), b);
        assert((a + b).drop_first() =~= a.drop_first() + b);
        assert((a + b)[0] == a[0]);
        assert(utf8(a + b) =~= encode_scalar(a[0] as u32) + (utf8(a.drop_first()) + utf8(b)));
    }
}

proof fn lemma_boundary_shift(b: Seq<u8>, i: int, j: int)
    requires
        valid_utf8(b),
        is_char_boundary(b, i),
        is_char_boundary(b, j),
        0 <= i <= j,
    ensures
        valid_utf8(b.subrange(i, b.len() as int)),
        is_char_boundary(b.subrange(i, b.len() as int), j - i),
    decreases b.len(),
{
    if i == 0 {
        assert(b.subrange(0, b.len() as int) =~= b);
    } else {
        let k = length_of_first_scalar(b);
        let p = pop_first_scalar(b);
        assert(b.len() > 0);
        assert(valid_utf8(p));
        assert(is_char_boundary(p, i - k));
        assert(i - k >= 0);
        assert(is_char_boundary(p, j - k));
        assert(p.len() < b.len());
        lemma_boundary_shift(p, i - k, j - k);
        assert(p.subrange(i - k, p.len() as int) =~= b.subrange(i, b.len() as int));
    }
}

proof fn lemma_insert_desc_at(s: Seq<TextEdit>, e: TextEdit, i: int)
    requires
        0 <= i <= s.len(),
        forall|j: int| 0 <= j < i ==> !key_lt(#[trigger] s[j], e),
        i < s.len() ==> key_lt(s[i], e),
    ensures
        insert_desc(s, e) == s.insert(i, e),
    decreases s.len(),
{
    if s.len() == 0 {
        assert(s.insert(i, e) =~= seq![e]);
    } else if i == 0 {
        assert(s.insert(0, e) =~= seq![e] + s);
    } else {
        let t = s.drop_first();
        assert forall|j: int| 0 <= j < i - 1 implies !key_lt(#[trigger] t[j], e) by {
            assert(t[j] == s[j + 1]);
        }
        lemma_insert_desc_at(t, e, i - 1);
        assert(seq![s[0]] + t.insert(i - 1, e) =~= s.insert(i, e));
    }
}

fn key_lt_exec(a: &TextEdit, b: &TextEdit) -> (r: bool)
    ensures
        r == key_lt(*a, *b),
{
    a.byte_start < b.byte_start || (a.byte_start == b.byte_start && a.byte_end < b.byte_end)
}

impl TextEdit {
    /// An exact copy of this edit.
    pub fn duplicate(&self) -> (r: TextEdit)
        ensures
            r == *self,
    {
        TextEdit {
            file: self.file.clone(),
            byte_start: self.byte_start,
            byte_end: self.byte_end,
            replacement: self.replacement.clone(),
        }
    }
}

fn sorted_desc(edits: &[TextEdit]) -> (r: Vec<TextEdit>)
    ensures
        r@ == sort_desc(edits@),
{
    let mut out: Vec<TextEdit> = Vec::new();
    let mut i: usize = 0;
    while i < edits.len()
        invariant
            i <= edits@.len(),
            out@ == sort_desc(edits@.take(i as int)),
        decreases edits.len() - i,
    {
        let e = edits[i].duplicate();
        let mut j: usize = 0;
        while j < out.len() && !key_lt_exec(&out[j], &e)
            invariant
                j <= out@.len(),
                forall|k: int| 0 <= k < j ==> !key_lt(#[trigger] out@[k], e),
            decreases out.len() - j,
        {
            j = j + 1;
        }
        proof {
            lemma_insert_desc_at(out@, e, j as int);
            assert(edits@.take(i + 1).drop_last() =~= edits@.take(i as int));
            assert(edits@.take(i + 1).last() == edits@[i as int]);
        }
        out.insert(j, e);
        i = i + 1;
    }
    assert(edits@.take(i as int) =~= edits@);
    out
}

/// `text` with all `edits` applied; the edits must not overlap.
pub fn apply_text_edits(text: &str, edits: &[TextEdit]) -> (r: Result<String, FixError>)
    ensures
        match r {
            Ok(s) => apply_edits_spec(text.spec_bytes(), edits@) == Ok::<Seq<u8>, FixError>(
                utf8(s@),
            ),
            Err(e) => apply_edits_spec(text.spec_bytes(), edits@) == Err::<Seq<u8>, FixError>(
                e,
            ),
        },
{
    let ordered = sorted_desc(edits);
    let mut out: String = text.to_owned();
    assert(ordered@.skip(0) =~= ordered@);
    assert(utf8(out@) == text.spec_bytes());
    let mut last_start: Option<u32> = None;
    let mut i: usize = 0;
    while i < ordered.len()
        invariant
            i <= ordered@.len(),
            ordered@ == sort_desc(edits@),
            apply_edits_spec(text.spec_bytes(), edits@) == apply_sorted(
                utf8(out@),
                ordered@.skip(i as int),
                last_start,
            ),
        decreases ordered.len() - i,
    {
        let ghost cur = utf8(out@);
        let e = &ordered[i];
        assert(ordered@.skip(i as int)[0] == ordered@[i as int]);
        assert(ordered@.skip(i as int).drop_first() =~= ordered@.skip(i + 1));
        if e.byte_start > e.byte_end {
            assert(apply_sorted(utf8(out@), ordered@.skip(i as int), last_start) == Err::<Seq<u8>, FixError>(FixError::OutOfBounds));
            return Err(FixError::OutOfBounds);
        }
        if let Some(last) = last_start {
            if e.byte_end > last {
                return Err(FixError::Overlap);
            }
        }
        let start = e.byte_start as usize;
        let end = e.byte_end as usize;
        if end > out.as_str().as_bytes().len() {
            return Err(FixError::OutOfBounds);
        }
        if !out.as_str().is_char_boundary(start) || !out.as_str().is_char_boundary(end) {
            return Err(FixError::InvalidUtf8Boundary);
        }
        last_start = Some(e.byte_start);
        let next: String;
        {
            let s = out.as_str();
            let (head, rest) = s.split_at(start);
            proof {
                lemma_boundary_shift(cur, start as int, end as int);
                assert(rest.spec_bytes() =~= cur.subrange(start as int, cur.len() as int));
            }
            let (_mid, tail) = rest.split_at(end - start);
            let mut n = head.to_owned();
            n.append(e.replacement.as_str());
            n.append(tail);
            proof {
                lemma_utf8_concat(head@, e.replacement@);
                lemma_utf8_concat(head@ + e.replacement@, tail@);
                assert(tail.spec_bytes() =~= cur.subrange(end as int, cur.len() as int));
                assert(utf8(n@) =~= splice(
                    cur,
                    start as int,
                    end as int,
                    utf8(e.replacement@),
                ));
            }
            next = n;
        }
        out = next;
        i = i + 1;
    }
    Ok(out)
}

// ---------------------------------------------------------------------------
// Where a `use` item may be inserted
// ---------------------------------------------------------------------------

/// Unicode white space, as `char::is_whitespace` tests it.
pub open spec fn is_whitespace(c: char) -> bool {
    let v = c as u32;
    (9 <= v <= 13) || v == 32 || v == 0x85 || v == 0xA0 || v == 0x1680 || (0x2000 <= v
        <= 0x200A) || v == 0x2028 || v == 0x2029 || v == 0x202F || v == 0x205F || v == 0x3000
}

pub fn is_whitespace_exec(c: char) -> (r: bool)
    ensures
        r == is_whitespace(c),
{
    let v = c as u32;
    (9 <= v && v <= 13) || v == 32 || v == 0x85 || v == 0xA0 || v == 0x1680 || (0x2000 <= v
        && v <= 0x200A) || v == 0x2028 || v == 0x2029 || v == 0x202F || v == 0x205F || v
        == 0x3000
}

/// The number of leading white-space characters of `s`.
pub open spec fn leading_ws(s: Seq<char>) -> nat
    decreases s.len(),
{
    if s.len() > 0 && is_whitespace(s[0]) {
        1 + leading_ws(s.drop_first())
    } else {
        0
    }
}

/// The index just past the first newline at or after `p`, or the end of `s`.
pub open spec fn line_end_from(s: Seq<char>, p: int) -> int
    decreases s.len() - p,
{
    if p < 0 || p >= s.len() {
        s.len() as int
    } else if s[p] == '\n' {
        p + 1
    } else {
        line_end_from(s, p + 1)
    }
}

/// `p` is a prefix of `s`.
pub open spec fn starts_with(s: Seq<char>, p: Seq<char>) -> bool {
    p.len() <= s.len() && s.take(p.len() as int) == p
}

/// A line holding an inner attribute or inner doc comment, leading white space ignored.
pub open spec fn is_header_line(line: Seq<char>) -> bool {
    let t = line.skip(leading_ws(line) as int);
    starts_with(t, seq!['#', '!', '[']) || starts_with(t, seq!['/', '/', '!']) || starts_with(
        t,
        seq!['/', '*', '!'],
    )
}

/// Where the run of header lines that starts at `p` ends.
pub open spec fn header_end(s: Seq<char>, p: int) -> int
    decreases s.len() - p,
{
    if p < 0 || p >= s.len() {
        p
    } else {
        let e = line_end_from(s, p);
        if p < e && e <= s.len() && is_header_line(s.subrange(p, e)) {
            header_end(s, e)
        } else {
            p
        }
    }
}

pub proof fn lemma_line_end_bounds(s: Seq<char>, p: int)
    requires
        0 <= p < s.len(),
    ensures
        p < line_end_from(s, p) <= s.len(),
    decreases s.len() - p,
{
    if s[p] != '\n' {
        if p + 1 < s.len() {
            lemma_line_end_bounds(s, p + 1);
        } else {
            assert(line_end_from(s, p + 1) == s.len());
        }
    }
}

pub fn utf8_width(c: char) -> (r: usize)
    ensures
        r == utf8(seq![c]).len(),
        1 <= r <= 4,
{
    let v = c as u32;
    proof {
        vstd::utf8::char_is_scalar(c);
        assert(seq![c].drop_first() =~= Seq::<char>::empty());
        assert(encode_utf8(Seq::<char>::empty()) =~= Seq::<u8>::empty());
        assert(utf8(seq![c]) =~= encode_scalar(c as u32) + encode_utf8(Seq::<char>::empty()));
        assert(utf8(seq![c]) =~= encode_scalar(c as u32));
    }
    if v <= 0x7F {
        1
    } else if v <= 0x7FF {
        2
    } else if v <= 0xFFFF {
        3
    } else {
        4
    }
}

fn starts_with_at(cs: &Vec<char>, at: usize, limit: usize, p0: char, p1: char, p2: char) -> (r: bool)
    requires
        at <= limit <= cs@.len(),
    ensures
        r == starts_with(cs@.subrange(at as int, limit as int), seq![p0, p1, p2]),
{
    let ok = limit - at >= 3 && cs[at] == p0 && cs[at + 1] == p1 && cs[at + 2] == p2;
    proof {
        let t = cs@.subrange(at as int, limit as int);
        if limit - at >= 3 {
            if ok {
                assert(t.take(3) =~= seq![p0, p1, p2]);
            } else {
                assert(t.take(3)[0] == cs@[at as int]);
                assert(t.take(3)[1] == cs@[at + 1]);
                assert(t.take(3)[2] == cs@[at + 2]);
            }
        }
    }
    ok
}

/// The byte offset just past the run of inner attributes and inner doc comments
/// that opens `text`; a new `use` item is inserted there.
pub fn find_use_insertion_offset(text: &str) -> (r: usize)
    ensures
        r == utf8(text@.take(header_end(text@, 0))).len(),
{
    let cs = crate::text::chars_of(text);
    let ghost all = text@;
    let mut offset: usize = 0;
    let mut pos: usize = 0;
    proof {
        assert(all.take(0) =~= Seq::<char>::empty());
    }
    let bytes = text.as_bytes();
    let total_bytes = bytes.len();
    loop
        invariant_except_break
            cs@ == all,
            all == text@,
            pos <= cs@.len(),
            total_bytes == utf8(all).len(),
            offset == utf8(all.take(pos as int)).len(),
            header_end(all, 0) == header_end(all, pos as int),
        ensures
            offset == utf8(all.take(header_end(all, 0))).len(),
        decreases cs.len() - pos,
    {
        if pos >= cs.len() {
            break;
        }
        proof {
            lemma_line_end_bounds(all, pos as int);
        }
        let mut end = pos;
        let mut line_bytes: usize = 0;
        loop
            invariant_except_break
                cs@ == all,
                pos <= end <= cs@.len(),
                end < cs@.len() || pos < end,
                line_end_from(all, pos as int) == line_end_from(all, end as int),
                end > pos ==> all[end - 1] != '\n',
                line_bytes == utf8(all.subrange(pos as int, end as int)).len(),
                total_bytes == utf8(all).len(),
                offset == utf8(all.take(pos as int)).len(),
            ensures
                pos < end <= cs@.len(),
                end == line_end_from(all, pos as int),
                line_bytes == utf8(all.subrange(pos as int, end as int)).len(),
                offset + line_bytes == utf8(all.take(end as int)).len(),
                offset + line_bytes <= total_bytes,
            decreases cs.len() - end,
        {
            proof {
                lemma_utf8_concat(all.take(pos as int), all.subrange(pos as int, end as int));
                assert(all.take(pos as int) + all.subrange(pos as int, end as int) =~= all.take(
                    end as int,
                ));
                lemma_utf8_concat(all.take(end as int), all.skip(end as int));
                assert(all.take(end as int) + all.skip(end as int) =~= all);
            }
            if end >= cs.len() {
                break;
            }
            let c = cs[end];
            let w = utf8_width(c);
            proof {
                lemma_utf8_concat(all.subrange(pos as int, end as int), seq![c]);
                assert(all.subrange(pos as int, end as int) + seq![c] =~= all.subrange(
                    pos as int,
                    end + 1,
                ));
                lemma_utf8_concat(all.take(end as int), seq![c]);
                assert(all.take(end as int) + seq![c] =~= all.take(end + 1));
                lemma_utf8_concat(all.take(end + 1), all.skip(end + 1));
                assert(all.take(end + 1) + all.skip(end + 1) =~= all);
                lemma_utf8_concat(all.take(pos as int), all.subrange(pos as int, end + 1));
                assert(all.take(pos as int) + all.subrange(pos as int, end + 1) =~= all.take(
                    end + 1,
                ));
            }
            line_bytes = line_bytes + w;
            end = end + 1;
            if c == '\n' {
                break;
            }
        }
        let mut k = pos;
        while k < end && is_whitespace_exec(cs[k])
            invariant
                pos <= k <= end <= cs@.len(),
                cs@ == all,
                leading_ws(all.subrange(pos as int, end as int)) == (k - pos) + leading_ws(
                    all.subrange(k as int, end as int),
                ),
            decreases end - k,
        {
            assert(all.subrange(k as int, end as int).drop_first() =~= all.subrange(
                k + 1,
                end as int,
            ));
            k = k + 1;
        }
        proof {
            if k < end {
                assert(all.subrange(k as int, end as int)[0] == all[k as int]);
            }
            assert(all.subrange(pos as int, end as int).skip((k - pos) as int) =~= all.subrange(
                k as int,
                end as int,
            ));
        }
        let header = starts_with_at(&cs, k, end, '#', '!', '[') || starts_with_at(
            &cs,
            k,
            end,
            '/',
            '/',
            '!',
        ) || starts_with_at(&cs, k, end, '/', '*', '!');
        if !header {
            break;
        }
        offset = offset + line_bytes;
        pos = end;
    }
    offset
}

} // verus!

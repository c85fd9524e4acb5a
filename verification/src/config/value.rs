//! A model of TOML data: the values that policy files hold.
use vstd::prelude::*;

verus! {

/// One `key = value` pair of a table.
#[derive(Debug)]
pub struct TomlEntry {
    pub key: String,
    pub value: TomlValue,
}

/// A TOML table: its entries, each key at most once.
#[derive(Debug)]
pub struct TomlTable {
    pub entries: Vec<TomlEntry>,
}

/// A TOML value. A float is held by the bits of its `f64`, a date-time by its text.
#[derive(Debug)]
pub enum TomlValue {
    String(String),
    Integer(i64),
    Float(u64),
    Boolean(bool),
    Datetime(String),
    Array(Vec<TomlValue>),
    Table(TomlTable),
}

/// The mathematical content of a TOML value.
pub enum TomlData {
    Str(Seq<char>),
    Int(i64),
    Float(u64),
    Bool(bool),
    Datetime(Seq<char>),
    Array(Seq<TomlData>),
    Table(Seq<(Seq<char>, TomlData)>),
}

/// The content of a table: its `(key, value)` pairs in order.
pub type TableData = Seq<(Seq<char>, TomlData)>;

pub open spec fn view_values(xs: Seq<TomlValue>) -> Seq<TomlData>
    decreases xs, 0int,
{
    Seq::new(
        xs.len(),
        |i: int|
            if 0 <= i < xs.len() {
                view_value(xs[i])
            } else {
                TomlData::Bool(false)
            },
    )
}

pub open spec fn view_entries(es: Seq<TomlEntry>) -> TableData
    decreases es, 0int,
{
    Seq::new(
        es.len(),
        |i: int|
            if 0 <= i < es.len() {
                view_entry(es[i])
            } else {
                (Seq::empty(), TomlData::Bool(false))
            },
    )
}

pub open spec fn view_entry(e: TomlEntry) -> (Seq<char>, TomlData)
    decreases e, 2int,
{
    (e.key@, view_value(e.value))
}

pub open spec fn view_value(v: TomlValue) -> TomlData
    decreases v, 1int,
{
    match v {
        TomlValue::String(s) => TomlData::Str(s@),
        TomlValue::Integer(i) => TomlData::Int(i),
        TomlValue::Float(f) => TomlData::Float(f),
        TomlValue::Boolean(b) => TomlData::Bool(b),
        TomlValue::Datetime(s) => TomlData::Datetime(s@),
        TomlValue::Array(xs) => TomlData::Array(view_values(xs@)),
        TomlValue::Table(t) => TomlData::Table(view_entries(t.entries@)),
    }
}

impl View for TomlValue {
    type V = TomlData;

    open spec fn view(&self) -> TomlData {
        view_value(*self)
    }
}

impl View for TomlTable {
    type V = TableData;

    open spec fn view(&self) -> TableData {
        view_entries(self.entries@)
    }
}

// ---------------------------------------------------------------------------
// Tables as association lists
// ---------------------------------------------------------------------------

/// The index of the first entry with key `k`, or -1.
pub open spec fn find_key(t: TableData, k: Seq<char>) -> int
    decreases t.len(),
{
    if t.len() == 0 {
        -1
    } else if t[0].0 == k {
        0
    } else {
        let r = find_key(t.drop_first(), k);
        if r < 0 {
            -1
        } else {
            r + 1
        }
    }
}

/// The value stored under `k`.
pub open spec fn tget(t: TableData, k: Seq<char>) -> Option<TomlData> {
    let i = find_key(t, k);
    if 0 <= i < t.len() {
        Some(t[i].1)
    } else {
        None
    }
}

/// `a` sorts before `b`, comparing characters by code point.
pub open spec fn str_lt(a: Seq<char>, b: Seq<char>) -> bool
    decreases a.len(),
{
    if b.len() == 0 {
        false
    } else if a.len() == 0 {
        true
    } else if (a[0] as u32) != (b[0] as u32) {
        (a[0] as u32) < (b[0] as u32)
    } else {
        str_lt(a.drop_first(), b.drop_first())
    }
}

/// Where a new key `k` goes: before the first entry whose key sorts after it.
pub open spec fn insert_pos(t: TableData, k: Seq<char>) -> int
    decreases t.len(),
{
    if t.len() == 0 {
        0
    } else if str_lt(k, t[0].0) {
        0
    } else {
        1 + insert_pos(t.drop_first(), k)
    }
}

/// `t` with `k` set to `v`: the existing entry is replaced, or a new one is
/// placed in key order.
pub open spec fn tinsert(t: TableData, k: Seq<char>, v: TomlData) -> TableData {
    let i = find_key(t, k);
    if 0 <= i < t.len() {
        t.update(i, (k, v))
    } else {
        t.insert(insert_pos(t, k), (k, v))
    }
}

/// `t` without the entry for `k`.
pub open spec fn tremove(t: TableData, k: Seq<char>) -> TableData {
    let i = find_key(t, k);
    if 0 <= i < t.len() {
        t.remove(i)
    } else {
        t
    }
}

pub proof fn lemma_find_key_bounds(t: TableData, k: Seq<char>)
    ensures
        -1 <= find_key(t, k) < t.len(),
        find_key(t, k) >= 0 ==> t[find_key(t, k)].0 == k,
        find_key(t, k) < 0 ==> forall|j: int| 0 <= j < t.len() ==> t[j].0 != k,
        forall|j: int| 0 <= j < find_key(t, k) ==> t[j].0 != k,
    decreases t.len(),
{
    if t.len() > 0 && t[0].0 != k {
        let r = t.drop_first();
        lemma_find_key_bounds(r, k);
        assert forall|j: int| 0 < j < t.len() implies #[trigger] t[j] == r[j - 1] by {}
    }
}

/// Setting a key to the value it already has leaves the table as it is.
pub proof fn lemma_tinsert_same(t: TableData, k: Seq<char>, v: TomlData)
    requires
        tget(t, k) == Some(v),
    ensures
        tinsert(t, k, v) == t,
{
    lemma_find_key_bounds(t, k);
    let i = find_key(t, k);
    assert(t.update(i, (k, v)) =~= t);
}

pub proof fn lemma_insert_pos_bounds(t: TableData, k: Seq<char>)
    ensures
        0 <= insert_pos(t, k) <= t.len(),
    decreases t.len(),
{
    if t.len() > 0 && !str_lt(k, t[0].0) {
        lemma_insert_pos_bounds(t.drop_first(), k);
    }
}

/// Looking up a key right after setting it gives the value set, and every other
/// key keeps its value.
pub proof fn lemma_tget_tinsert(t: TableData, k: Seq<char>, v: TomlData, k2: Seq<char>)
    ensures
        tget(tinsert(t, k, v), k2) == if k2 == k {
            Some(v)
        } else {
            tget(t, k2)
        },
{
    lemma_find_key_bounds(t, k);
    lemma_find_key_bounds(t, k2);
    let n = tinsert(t, k, v);
    lemma_find_key_bounds(n, k2);
    let i = find_key(t, k);
    if 0 <= i < t.len() {
        assert(n.len() == t.len());
        if k2 == k {
            assert(n[i].0 == k2);
        } else {
            let j = find_key(t, k2);
            let j2 = find_key(n, k2);
            if j >= 0 {
                assert(n[j].0 == k2);
                if j2 < j {
                    assert(n[j2] == t[j2]);
                }
            } else if j2 >= 0 {
                assert(n[j2] == t[j2]);
            }
        }
    } else {
        let p = insert_pos(t, k);
        lemma_insert_pos_bounds(t, k);
        if k2 == k {
            assert(n[p].0 == k);
            if find_key(n, k2) < p {
                let j2 = find_key(n, k2);
                assert(n[j2] == t[j2]);
            }
        } else {
            let j = find_key(t, k2);
            let j2 = find_key(n, k2);
            if j >= 0 {
                let jj = if j < p { j } else { j + 1 };
                assert(n[jj] == t[j]);
                if j2 < jj {
                    if j2 < p {
                        assert(n[j2] == t[j2]);
                    } else if j2 > p {
                        assert(n[j2] == t[j2 - 1]);
                    }
                }
            } else if j2 >= 0 {
                if j2 < p {
                    assert(n[j2] == t[j2]);
                } else if j2 > p {
                    assert(n[j2] == t[j2 - 1]);
                }
            }
        }
    }
}

/// No key occurs twice.
pub open spec fn keys_unique(t: TableData) -> bool {
    forall|i: int, j: int| 0 <= i < j < t.len() ==> t[i].0 != t[j].0
}

/// Looking up a key after removing it finds nothing, and every other key keeps
/// its value.
pub proof fn lemma_tget_tremove(t: TableData, k: Seq<char>, k2: Seq<char>)
    requires
        keys_unique(t),
    ensures
        tget(tremove(t, k), k2) == if k2 == k {
            None
        } else {
            tget(t, k2)
        },
{
    lemma_find_key_bounds(t, k);
    lemma_find_key_bounds(t, k2);
    let n = tremove(t, k);
    lemma_find_key_bounds(n, k2);
    let i = find_key(t, k);
    if 0 <= i < t.len() {
        let j = find_key(t, k2);
        let j2 = find_key(n, k2);
        if k2 == k {
            if j2 >= 0 {
                if j2 < i {
                    assert(n[j2] == t[j2]);
                } else {
                    assert(n[j2] == t[j2 + 1]);
                }
            }
        } else {
            if j >= 0 {
                let jj = if j < i { j } else { j - 1 };
                assert(n[jj] == t[j]);
                if j2 < jj {
                    if j2 < i {
                        assert(n[j2] == t[j2]);
                    } else {
                        assert(n[j2] == t[j2 + 1]);
                    }
                }
            } else if j2 >= 0 {
                if j2 < i {
                    assert(n[j2] == t[j2]);
                } else {
                    assert(n[j2] == t[j2 + 1]);
                }
            }
        }
    }
}

// ---------------------------------------------------------------------------
// Executable operations
// ---------------------------------------------------------------------------

/// Character-wise comparison of two strings.
/// `str_lt` never holds of a string and itself.
pub proof fn lemma_str_lt_irrefl(a: Seq<char>)
    ensures
        !str_lt(a, a),
    decreases a.len(),
{
    if a.len() > 0 {
        lemma_str_lt_irrefl(a.drop_first());
    }
}

/// `str_lt` is transitive.
pub proof fn lemma_str_lt_trans(a: Seq<char>, b: Seq<char>, c: Seq<char>)
    requires
        str_lt(a, b),
        str_lt(b, c),
    ensures
        str_lt(a, c),
    decreases a.len(),
{
    if a.len() > 0 && b.len() > 0 && c.len() > 0 {
        if (a[0] as u32) == (b[0] as u32) && (b[0] as u32) == (c[0] as u32) {
            lemma_str_lt_trans(a.drop_first(), b.drop_first(), c.drop_first());
        }
    }
}

/// Two different strings are ordered one way or the other by `str_lt`.
pub proof fn lemma_str_lt_total(a: Seq<char>, b: Seq<char>)
    requires
        a != b,
    ensures
        str_lt(a, b) || str_lt(b, a),
    decreases a.len(),
{
    if a.len() == 0 {
        if b.len() == 0 {
            assert(a =~= b);
        }
    } else if b.len() == 0 {
    } else if (a[0] as u32) == (b[0] as u32) {
        vstd::utf8::char_u32_cast(a[0], a[0] as u32);
        vstd::utf8::char_u32_cast(b[0], b[0] as u32);
        assert(a[0] == b[0]);
        if a.drop_first() == b.drop_first() {
            assert(a =~= seq![a[0]] + a.drop_first());
            assert(b =~= seq![b[0]] + b.drop_first());
        }
        lemma_str_lt_total(a.drop_first(), b.drop_first());
    }
}

/// `str_lt` is asymmetric.
pub proof fn lemma_str_lt_asym(a: Seq<char>, b: Seq<char>)
    requires
        str_lt(a, b),
    ensures
        !str_lt(b, a),
    decreases a.len(),
{
    if a.len() > 0 && b.len() > 0 && (a[0] as u32) == (b[0] as u32) {
        lemma_str_lt_asym(a.drop_first(), b.drop_first());
    }
}

pub fn str_lt_exec(a: &str, b: &str) -> (r: bool)
    ensures
        r == str_lt(a@, b@),
{
    let x = crate::text::chars_of(a);
    let y = crate::text::chars_of(b);
    let mut i: usize = 0;
    assert(x@.skip(0) =~= x@);
    assert(y@.skip(0) =~= y@);
    while i < x.len() && i < y.len() && (x[i] as u32) == (y[i] as u32)
        invariant
            i <= x@.len(),
            i <= y@.len(),
            str_lt(a@, b@) == str_lt(x@.skip(i as int), y@.skip(i as int)),
            x@ == a@,
            y@ == b@,
        decreases x.len() - i,
    {
        assert(x@.skip(i as int).drop_first() =~= x@.skip(i + 1));
        assert(y@.skip(i as int).drop_first() =~= y@.skip(i + 1));
        i = i + 1;
    }
    if i >= y.len() {
        false
    } else if i >= x.len() {
        true
    } else {
        (x[i] as u32) < (y[i] as u32)
    }
}

/// The two strings hold the same characters.
pub fn str_eq(a: &str, b: &str) -> (r: bool)
    ensures
        r == (a@ == b@),
{
    let x = crate::text::chars_of(a);
    let y = crate::text::chars_of(b);
    if x.len() != y.len() {
        return false;
    }
    let mut i: usize = 0;
    while i < x.len()
        invariant
            i <= x@.len(),
            x@.len() == y@.len(),
            x@ == a@,
            y@ == b@,
            forall|j: int| 0 <= j < i ==> x@[j] == y@[j],
        decreases x.len() - i,
    {
        if x[i] != y[i] {
            return false;
        }
        i = i + 1;
    }
    assert(x@ =~= y@);
    true
}

fn copy_values(xs: &Vec<TomlValue>) -> (r: Vec<TomlValue>)
    ensures
        view_values(r@) == view_values(xs@),
    decreases xs, 0int,
{
    let mut out: Vec<TomlValue> = Vec::new();
    let mut i: usize = 0;
    while i < xs.len()
        invariant
            i <= xs@.len(),
            out@.len() == i,
            forall|j: int| 0 <= j < i ==> view_value(#[trigger] out@[j]) == view_value(xs@[j]),
        decreases xs.len() - i,
    {
        let v = copy_value(&xs[i]);
        out.push(v);
        i = i + 1;
    }
    assert(view_values(out@) =~= view_values(xs@));
    out
}

fn copy_entries(es: &Vec<TomlEntry>) -> (r: Vec<TomlEntry>)
    ensures
        view_entries(r@) == view_entries(es@),
    decreases es, 0int,
{
    let mut out: Vec<TomlEntry> = Vec::new();
    let mut i: usize = 0;
    while i < es.len()
        invariant
            i <= es@.len(),
            out@.len() == i,
            forall|j: int| 0 <= j < i ==> view_entry(#[trigger] out@[j]) == view_entry(es@[j]),
        decreases es.len() - i,
    {
        let v = copy_value(&es[i].value);
        out.push(TomlEntry { key: es[i].key.clone(), value: v });
        i = i + 1;
    }
    assert(view_entries(out@) =~= view_entries(es@));
    out
}

/// An exact copy of a value.
pub fn copy_value(v: &TomlValue) -> (r: TomlValue)
    ensures
        r@ == v@,
    decreases v, 1int,
{
    match v {
        TomlValue::String(s) => TomlValue::String(s.clone()),
        TomlValue::Integer(i) => TomlValue::Integer(*i),
        TomlValue::Float(f) => TomlValue::Float(*f),
        TomlValue::Boolean(b) => TomlValue::Boolean(*b),
        TomlValue::Datetime(s) => TomlValue::Datetime(s.clone()),
        TomlValue::Array(xs) => TomlValue::Array(copy_values(xs)),
        TomlValue::Table(t) => TomlValue::Table(TomlTable { entries: copy_entries(&t.entries) }),
    }
}

/// The `f64` with bits `x` is a NaN: all exponent bits set and a nonzero fraction.
pub open spec fn float_is_nan(x: u64) -> bool {
    (x >> 52u64) & 0x7ffu64 == 0x7ffu64 && x & 0xf_ffff_ffff_ffffu64 != 0
}

/// The `f64` with bits `x` is a zero, of either sign.
pub open spec fn float_is_zero(x: u64) -> bool {
    x & 0x7fff_ffff_ffff_ffffu64 == 0
}

/// The `f64` values with bits `a` and `b` compare equal as IEEE numbers: no
/// NaN equals anything, the two zeros are equal, and otherwise the bits agree.
pub open spec fn float_eq(a: u64, b: u64) -> bool {
    !float_is_nan(a) && !float_is_nan(b) && (a == b || (float_is_zero(a) && float_is_zero(b)))
}

/// Two TOML values are equal as TOML compares them: floats as IEEE numbers,
/// arrays element by element, tables entry by entry in order, and everything
/// else by its content.
pub open spec fn data_eq(a: TomlData, b: TomlData) -> bool
    decreases a,
{
    match a {
        TomlData::Str(x) => b == TomlData::Str(x),
        TomlData::Int(x) => b == TomlData::Int(x),
        TomlData::Float(x) => b matches TomlData::Float(y) && float_eq(x, y),
        TomlData::Bool(x) => b == TomlData::Bool(x),
        TomlData::Datetime(x) => b == TomlData::Datetime(x),
        TomlData::Array(xs) => match b {
            TomlData::Array(ys) => xs.len() == ys.len() && forall|i: int|
                0 <= i < xs.len() ==> data_eq(#[trigger] xs[i], ys[i]),
            _ => false,
        },
        TomlData::Table(t) => match b {
            TomlData::Table(u) => t.len() == u.len() && forall|i: int|
                0 <= i < t.len() ==> (#[trigger] t[i]).0 == u[i].0 && data_eq(t[i].1, u[i].1),
            _ => false,
        },
    }
}

fn float_eq_exec(a: u64, b: u64) -> (r: bool)
    ensures
        r == float_eq(a, b),
{
    let a_nan = (a >> 52u64) & 0x7ffu64 == 0x7ffu64 && a & 0xf_ffff_ffff_ffffu64 != 0;
    let b_nan = (b >> 52u64) & 0x7ffu64 == 0x7ffu64 && b & 0xf_ffff_ffff_ffffu64 != 0;
    let zeros = a & 0x7fff_ffff_ffff_ffffu64 == 0 && b & 0x7fff_ffff_ffff_ffffu64 == 0;
    !a_nan && !b_nan && (a == b || zeros)
}

fn values_equal(xs: &Vec<TomlValue>, ys: &Vec<TomlValue>) -> (r: bool)
    ensures
        r == data_eq(TomlData::Array(view_values(xs@)), TomlData::Array(view_values(ys@))),
    decreases xs, 0int,
{
    if xs.len() != ys.len() {
        return false;
    }
    let mut i: usize = 0;
    while i < xs.len()
        invariant
            i <= xs@.len(),
            xs@.len() == ys@.len(),
            forall|j: int| 0 <= j < i ==> data_eq(view_value(xs@[j]), view_value(ys@[j])),
        decreases xs.len() - i,
    {
        if !value_eq(&xs[i], &ys[i]) {
            assert(view_values(xs@)[i as int] == view_value(xs@[i as int]));
            assert(view_values(ys@)[i as int] == view_value(ys@[i as int]));
            return false;
        }
        i = i + 1;
    }
    assert forall|j: int| 0 <= j < view_values(xs@).len() implies data_eq(
        #[trigger] view_values(xs@)[j],
        view_values(ys@)[j],
    ) by {
        assert(view_values(xs@)[j] == view_value(xs@[j]));
        assert(view_values(ys@)[j] == view_value(ys@[j]));
    }
    true
}

fn entries_equal(xs: &Vec<TomlEntry>, ys: &Vec<TomlEntry>) -> (r: bool)
    ensures
        r == data_eq(TomlData::Table(view_entries(xs@)), TomlData::Table(view_entries(ys@))),
    decreases xs, 0int,
{
    if xs.len() != ys.len() {
        return false;
    }
    let mut i: usize = 0;
    while i < xs.len()
        invariant
            i <= xs@.len(),
            xs@.len() == ys@.len(),
            forall|j: int| 0 <= j < i ==> xs@[j].key@ == ys@[j].key@ && data_eq(view_value(xs@[j].value), view_value(ys@[j].value)),
        decreases xs.len() - i,
    {
        assert(view_entries(xs@)[i as int] == view_entry(xs@[i as int]));
        assert(view_entries(ys@)[i as int] == view_entry(ys@[i as int]));
        if !str_eq(xs[i].key.as_str(), ys[i].key.as_str()) || !value_eq(
            &xs[i].value,
            &ys[i].value,
        ) {
            return false;
        }
        i = i + 1;
    }
    assert forall|j: int| 0 <= j < view_entries(xs@).len() implies (#[trigger] view_entries(xs@)[j]).0
        == view_entries(ys@)[j].0 && data_eq(view_entries(xs@)[j].1, view_entries(ys@)[j].1) by {
        assert(view_entries(xs@)[j] == view_entry(xs@[j]));
        assert(view_entries(ys@)[j] == view_entry(ys@[j]));
    }
    true
}

/// Whether two values are equal as TOML compares them; see [`data_eq`].
pub fn value_eq(a: &TomlValue, b: &TomlValue) -> (r: bool)
    ensures
        r == data_eq(a@, b@),
    decreases a, 1int,
{
    match a {
        TomlValue::String(x) => match b {
            TomlValue::String(y) => str_eq(x.as_str(), y.as_str()),
            _ => false,
        },
        TomlValue::Integer(x) => match b {
            TomlValue::Integer(y) => *x == *y,
            _ => false,
        },
        TomlValue::Float(x) => match b {
            TomlValue::Float(y) => float_eq_exec(*x, *y),
            _ => false,
        },
        TomlValue::Boolean(x) => match b {
            TomlValue::Boolean(y) => *x == *y,
            _ => false,
        },
        TomlValue::Datetime(x) => match b {
            TomlValue::Datetime(y) => str_eq(x.as_str(), y.as_str()),
            _ => false,
        },
        TomlValue::Array(xs) => match b {
            TomlValue::Array(ys) => values_equal(xs, ys),
            _ => false,
        },
        TomlValue::Table(t) => match b {
            TomlValue::Table(u) => entries_equal(&t.entries, &u.entries),
            _ => false,
        },
    }
}

impl TomlTable {
    /// The empty table.
    pub fn new() -> (r: TomlTable)
        ensures
            r@ == Seq::<(Seq<char>, TomlData)>::empty(),
    {
        let r = TomlTable { entries: Vec::new() };
        assert(r@ =~= Seq::<(Seq<char>, TomlData)>::empty());
        r
    }

    /// The number of entries.
    pub fn len(&self) -> (r: usize)
        ensures
            r == self@.len(),
    {
        self.entries.len()
    }

    /// The index of the entry for `key`.
    pub fn index_of(&self, key: &str) -> (r: Option<usize>)
        ensures
            match r {
                Some(i) => find_key(self@, key@) == i as int,
                None => find_key(self@, key@) == -1,
            },
    {
        let mut i: usize = 0;
        assert(self@.skip(0) =~= self@);
        while i < self.entries.len()
            invariant
                i <= self.entries@.len(),
                find_key(self@, key@) == if find_key(self@.skip(i as int), key@) < 0 {
                    -1
                } else {
                    find_key(self@.skip(i as int), key@) + i
                },
            decreases self.entries.len() - i,
        {
            assert(self@.skip(i as int)[0] == view_entry(self.entries@[i as int]));
            if str_eq(self.entries[i].key.as_str(), key) {
                return Some(i);
            }
            assert(self@.skip(i as int).drop_first() =~= self@.skip(i + 1));
            i = i + 1;
        }
        None
    }

    /// Whether there is an entry for `key`.
    pub fn contains_key(&self, key: &str) -> (r: bool)
        ensures
            r == tget(self@, key@) is Some,
    {
        proof {
            lemma_find_key_bounds(self@, key@);
        }
        self.index_of(key).is_some()
    }

    /// The value under `key`.
    pub fn get(&self, key: &str) -> (r: Option<&TomlValue>)
        ensures
            match r {
                Some(v) => tget(self@, key@) == Some(v@),
                None => tget(self@, key@) is None,
            },
    {
        proof {
            lemma_find_key_bounds(self@, key@);
        }
        match self.index_of(key) {
            Some(i) => {
                assert(self@[i as int] == view_entry(self.entries@[i as int]));
                Some(&self.entries[i].value)
            },
            None => None,
        }
    }

    fn position_for(&self, key: &str) -> (r: usize)
        ensures
            r == insert_pos(self@, key@),
    {
        let mut i: usize = 0;
        assert(self@.skip(0) =~= self@);
        while i < self.entries.len() && !str_lt_exec(key, self.entries[i].key.as_str())
            invariant
                i <= self.entries@.len(),
                insert_pos(self@, key@) == i + insert_pos(self@.skip(i as int), key@),
            decreases self.entries.len() - i,
        {
            assert(self@.skip(i as int)[0] == view_entry(self.entries@[i as int]));
            assert(self@.skip(i as int).drop_first() =~= self@.skip(i + 1));
            i = i + 1;
        }
        if i < self.entries.len() {
            assert(self@.skip(i as int)[0] == view_entry(self.entries@[i as int]));
        }
        i
    }

    /// Set `key` to `value`.
    pub fn insert(&mut self, key: String, value: TomlValue)
        ensures
            final(self)@ == tinsert(old(self)@, key@, value@),
    {
        proof {
            lemma_find_key_bounds(self@, key@);
            lemma_insert_pos_bounds(self@, key@);
        }
        let ghost k = key@;
        let ghost v = value@;
        match self.index_of(key.as_str()) {
            Some(i) => {
                self.entries.set(i, TomlEntry { key, value });
                assert(self@ =~= tinsert(old(self)@, k, v));
            },
            None => {
                let p = self.position_for(key.as_str());
                self.entries.insert(p, TomlEntry { key, value });
                assert(self@ =~= tinsert(old(self)@, k, v));
            },
        }
    }

    /// Remove the entry for `key` and return its value.
    pub fn remove(&mut self, key: &str) -> (r: Option<TomlValue>)
        ensures
            final(self)@ == tremove(old(self)@, key@),
            match r {
                Some(v) => tget(old(self)@, key@) == Some(v@),
                None => tget(old(self)@, key@) is None,
            },
    {
        proof {
            lemma_find_key_bounds(self@, key@);
        }
        match self.index_of(key) {
            Some(i) => {
                let e = self.entries.remove(i);
                assert(self@ =~= tremove(old(self)@, key@));
                Some(e.value)
            },
            None => None,
        }
    }

    /// The keys, in order.
    pub fn keys(&self) -> (r: Vec<String>)
        ensures
            r@.len() == self@.len(),
            forall|i: int| 0 <= i < r@.len() ==> #[trigger] r@[i]@ == self@[i].0,
    {
        let mut out: Vec<String> = Vec::new();
        let mut i: usize = 0;
        while i < self.entries.len()
            invariant
                i <= self.entries@.len(),
                out@.len() == i,
                forall|j: int| 0 <= j < i ==> #[trigger] out@[j]@ == self@[j].0,
            decreases self.entries.len() - i,
        {
            out.push(self.entries[i].key.clone());
            i = i + 1;
        }
        out
    }

    /// An exact copy of this table.
    pub fn copy(&self) -> (r: TomlTable)
        ensures
            r@ == self@,
    {
        TomlTable { entries: copy_entries(&self.entries) }
    }
}

} // verus!

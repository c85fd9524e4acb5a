//! Operations on tables nested inside a table, reached by a path of keys.
use vstd::prelude::*;
use super::value::{
    TableData, TomlData, TomlEntry, TomlTable, TomlValue, tget, tinsert, tremove,
    lemma_find_key_bounds, str_eq, view_entry,
};
use super::read::views;

verus! {

/// What to do with the table at the end of the path.
#[derive(Debug)]
pub enum PathOp {
    /// Take the value of a key out.
    Remove(String),
    /// Read the value of a key.
    Get(String),
    /// Set a key.
    Insert(String, TomlValue),
    /// Replace a string value that equals the first text by the second text.
    ReplaceString(String, String, String),
    /// Set a key to a string unless the key is present.
    EnsureString(String, String),
}

/// The mathematical content of a [`PathOp`].
pub enum OpData {
    Remove(Seq<char>),
    Get(Seq<char>),
    Insert(Seq<char>, TomlData),
    ReplaceString(Seq<char>, Seq<char>, Seq<char>),
    EnsureString(Seq<char>, Seq<char>),
}

impl View for PathOp {
    type V = OpData;

    open spec fn view(&self) -> OpData {
        match self {
            PathOp::Remove(k) => OpData::Remove(k@),
            PathOp::Get(k) => OpData::Get(k@),
            PathOp::Insert(k, v) => OpData::Insert(k@, v@),
            PathOp::ReplaceString(k, a, b) => OpData::ReplaceString(k@, a@, b@),
            PathOp::EnsureString(k, t) => OpData::EnsureString(k@, t@),
        }
    }
}

/// What an operation reports.
#[derive(Debug)]
pub enum Outcome {
    /// The path does not lead to a table.
    Missing,
    /// The value found (or taken out).
    Value(Option<TomlValue>),
    /// Whether the table changed.
    Flag(bool),
    /// The value was set.
    Done,
}

pub enum OutData {
    Missing,
    Value(Option<TomlData>),
    Flag(bool),
    Done,
}

impl View for Outcome {
    type V = OutData;

    open spec fn view(&self) -> OutData {
        match self {
            Outcome::Missing => OutData::Missing,
            Outcome::Value(v) => OutData::Value(
                match v {
                    Some(x) => Some(x@),
                    None => None,
                },
            ),
            Outcome::Flag(b) => OutData::Flag(*b),
            Outcome::Done => OutData::Done,
        }
    }
}

/// The operation applied to the table `t` itself.
pub open spec fn op_spec(t: TableData, op: OpData) -> (TableData, OutData) {
    match op {
        OpData::Remove(k) => (tremove(t, k), OutData::Value(tget(t, k))),
        OpData::Get(k) => (t, OutData::Value(tget(t, k))),
        OpData::Insert(k, v) => (tinsert(t, k, v), OutData::Done),
        OpData::ReplaceString(k, old, new) => match tget(t, k) {
            Some(TomlData::Str(s)) => if s == old {
                (tinsert(t, k, TomlData::Str(new)), OutData::Flag(true))
            } else {
                (t, OutData::Flag(false))
            },
            _ => (t, OutData::Flag(false)),
        },
        OpData::EnsureString(k, text) => if tget(t, k) is Some {
            (t, OutData::Flag(false))
        } else {
            (tinsert(t, k, TomlData::Str(text)), OutData::Flag(true))
        },
    }
}

/// The operation applied to the table at `path` inside `t`. With `create`,
/// missing or non-table steps of the path become empty tables; without it, the
/// operation reports `Missing` and `t` is unchanged.
pub open spec fn apply_at_spec(t: TableData, path: Seq<Seq<char>>, create: bool, op: OpData) -> (
    TableData,
    OutData,
)
    decreases path.len(),
{
    if path.len() == 0 {
        op_spec(t, op)
    } else {
        let k = path[0];
        match tget(t, k) {
            Some(TomlData::Table(inner)) => {
                let (inner2, out) = apply_at_spec(inner, path.drop_first(), create, op);
                (tinsert(t, k, TomlData::Table(inner2)), out)
            },
            _ => if create {
                let (inner2, out) = apply_at_spec(Seq::empty(), path.drop_first(), create, op);
                (tinsert(t, k, TomlData::Table(inner2)), out)
            } else {
                (t, OutData::Missing)
            },
        }
    }
}

/// The table reached from `t` by the keys of `path`, when every step is a table.
pub open spec fn at_path(t: TableData, path: Seq<Seq<char>>) -> Option<TableData>
    decreases path.len(),
{
    if path.len() == 0 {
        Some(t)
    } else {
        match tget(t, path[0]) {
            Some(TomlData::Table(inner)) => at_path(inner, path.drop_first()),
            _ => None,
        }
    }
}

/// Without `create`, an operation that leaves the table at the end of the path
/// as it is leaves the whole table as it is; it reports what the operation
/// reports there, or `Missing` when the path does not lead to a table.
pub proof fn lemma_apply_keeps(t: TableData, path: Seq<Seq<char>>, op: OpData)
    requires
        at_path(t, path) matches Some(u) ==> op_spec(u, op).0 == u,
    ensures
        apply_at_spec(t, path, false, op).0 == t,
        apply_at_spec(t, path, false, op).1 == match at_path(t, path) {
            Some(u) => op_spec(u, op).1,
            None => OutData::Missing,
        },
    decreases path.len(),
{
    if path.len() > 0 {
        match tget(t, path[0]) {
            Some(TomlData::Table(inner)) => {
                lemma_apply_keeps(inner, path.drop_first(), op);
                super::value::lemma_tinsert_same(t, path[0], TomlData::Table(inner));
            },
            _ => {},
        }
    }
}

fn apply_op(t: &mut TomlTable, op: PathOp) -> (r: Outcome)
    ensures
        (final(t)@, r@) == op_spec(old(t)@, op@),
{
    match op {
        PathOp::Remove(k) => {
            let v = t.remove(k.as_str());
            Outcome::Value(v)
        },
        PathOp::Get(k) => match t.get(k.as_str()) {
            Some(v) => Outcome::Value(Some(super::value::copy_value(v))),
            None => Outcome::Value(None),
        },
        PathOp::Insert(k, v) => {
            t.insert(k, v);
            Outcome::Done
        },
        PathOp::ReplaceString(k, old_text, new_text) => {
            let matches = match t.get(k.as_str()) {
                Some(TomlValue::String(s)) => str_eq(s.as_str(), old_text.as_str()),
                _ => false,
            };
            if matches {
                t.insert(k, TomlValue::String(new_text));
                Outcome::Flag(true)
            } else {
                Outcome::Flag(false)
            }
        },
        PathOp::EnsureString(k, text) => {
            if t.contains_key(k.as_str()) {
                Outcome::Flag(false)
            } else {
                t.insert(k, TomlValue::String(text));
                Outcome::Flag(true)
            }
        },
    }
}

/// Apply `op` to the table at `path[depth..]` inside `t`.
pub fn apply_at(t: &mut TomlTable, path: &Vec<String>, depth: usize, create: bool, op: PathOp) -> (r:
    Outcome)
    requires
        depth <= path@.len(),
    ensures
        (final(t)@, r@) == apply_at_spec(old(t)@, views(path@).skip(depth as int), create, op@),
    decreases path@.len() - depth,
{
    let ghost p = views(path@).skip(depth as int);
    if depth >= path.len() {
        assert(p.len() == 0);
        return apply_op(t, op);
    }
    assert(p[0] == path@[depth as int]@);
    assert(p.drop_first() =~= views(path@).skip(depth + 1));
    let key = &path[depth];
    proof {
        lemma_find_key_bounds(t@, key@);
    }
    match t.index_of(key.as_str()) {
        Some(j) => {
            let is_table = match &t.entries[j].value {
                TomlValue::Table(_) => true,
                _ => false,
            };
            if is_table {
                let ghost before = t@;
                let e = t.entries.remove(j);
                assert(before[j as int] == view_entry(e));
                match e.value {
                    TomlValue::Table(mut inner) => {
                        let r = apply_at(&mut inner, path, depth + 1, create, op);
                        t.entries.insert(j, TomlEntry { key: e.key, value: TomlValue::Table(inner) });
                        assert(t@ =~= tinsert(before, key@, TomlData::Table(inner@)));
                        return r;
                    },
                    _ => {
                        return Outcome::Missing;
                    },
                }
            }
        },
        None => {},
    }
    if create {
        let mut inner = TomlTable::new();
        let r = apply_at(&mut inner, path, depth + 1, create, op);
        t.insert(key.clone(), TomlValue::Table(inner));
        r
    } else {
        Outcome::Missing
    }
}

} // verus!

//! Layering one TOML table over another.
use vstd::prelude::*;
use super::value::{
    TableData, TomlData, TomlEntry, TomlTable, TomlValue, copy_value, find_key, keys_unique, lemma_find_key_bounds,
    lemma_tget_tinsert, tget, tinsert, view_entry,
};

verus! {

/// `into` with the value `v` layered under key `k`: two tables merge, anything
/// else is replaced.
pub open spec fn merge_entry(into: TableData, k: Seq<char>, v: TomlData) -> TableData
    decreases v, 0int,
{
    match v {
        TomlData::Table(src) => match tget(into, k) {
            Some(TomlData::Table(dst)) => tinsert(into, k, TomlData::Table(merge_data(dst, src))),
            _ => tinsert(into, k, v),
        },
        _ => tinsert(into, k, v),
    }
}

/// `into` with every entry of `overlay` layered over it, in order.
pub open spec fn merge_data(into: TableData, overlay: TableData) -> TableData
    decreases overlay, 1int,
{
    if overlay.len() == 0 {
        into
    } else {
        proof {
            assert(decreases_to!(overlay => overlay[0]));
            assert(decreases_to!(overlay[0] => overlay[0].1));
        }
        merge_data(merge_entry(into, overlay[0].0, overlay[0].1), overlay.drop_first())
    }
}

fn merge_value_into(into: &mut TomlTable, key: &String, value: &TomlValue)
    ensures
        final(into)@ == merge_entry(old(into)@, key@, value@),
    decreases value, 0int,
{
    proof {
        lemma_find_key_bounds(into@, key@);
    }
    match value {
        TomlValue::Table(src) => {
            match into.index_of(key.as_str()) {
                Some(j) => {
                    let is_table = match &into.entries[j].value {
                        TomlValue::Table(_) => true,
                        _ => false,
                    };
                    if is_table {
                        let ghost before = into@;
                        let e = into.entries.remove(j);
                        assert(before[j as int] == view_entry(e));
                        match e.value {
                            TomlValue::Table(mut dst) => {
                                merge_tables(&mut dst, src);
                                into.entries.insert(j, TomlEntry { key: e.key, value: TomlValue::Table(dst) });
                                assert(into@ =~= merge_entry(before, key@, value@));
                                return ;
                            },
                            _ => {},
                        }
                    }
                },
                None => {},
            }
            into.insert(key.clone(), copy_value(value));
        },
        _ => {
            into.insert(key.clone(), copy_value(value));
        },
    }
}

/// Layer `overlay` over `into`: nested tables merge key by key, every other
/// value of `overlay` replaces the one in `into`.
pub fn merge_tables(into: &mut TomlTable, overlay: &TomlTable)
    ensures
        final(into)@ == merge_data(old(into)@, overlay@),
    decreases overlay, 1int,
{
    let ghost start = into@;
    let mut i: usize = 0;
    assert(overlay@.skip(0) =~= overlay@);
    while i < overlay.entries.len()
        invariant
            i <= overlay.entries@.len(),
            merge_data(start, overlay@) == merge_data(into@, overlay@.skip(i as int)),
        decreases overlay.entries.len() - i,
    {
        assert(overlay@.skip(i as int)[0] == view_entry(overlay.entries@[i as int]));
        assert(overlay@.skip(i as int).drop_first() =~= overlay@.skip(i + 1));
        proof {
            assert(decreases_to!(*overlay => overlay.entries));
            assert(decreases_to!(overlay.entries => overlay.entries@));
            assert(decreases_to!(overlay.entries@ => overlay.entries@[i as int]));
            assert(decreases_to!(overlay.entries@[i as int] => overlay.entries@[i as int].value));
        }
        merge_value_into(into, &overlay.entries[i].key, &overlay.entries[i].value);
        i = i + 1;
    }
    assert(overlay@.skip(i as int) =~= Seq::<(Seq<char>, TomlData)>::empty());
}


/// What a key holds after `v` is layered over what it held before: two tables
/// merge, anything else is replaced by `v`.
pub open spec fn layered(before: Option<TomlData>, v: TomlData) -> TomlData {
    match (v, before) {
        (TomlData::Table(src), Some(TomlData::Table(dst))) => TomlData::Table(merge_data(dst, src)),
        _ => v,
    }
}

proof fn lemma_tget_rest(t: TableData, k: Seq<char>)
    requires
        t.len() > 0,
        keys_unique(t),
    ensures
        t[0].0 != k ==> tget(t, k) == tget(t.drop_first(), k),
        t[0].0 == k ==> tget(t.drop_first(), k) is None,
{
    let d = t.drop_first();
    lemma_find_key_bounds(d, k);
    if t[0].0 == k && find_key(d, k) >= 0 {
        assert(t[find_key(d, k) + 1] == d[find_key(d, k)]);
    }
}

/// Layering a table whose keys are distinct: a key the overlay does not hold
/// keeps its value, and a key it holds takes the overlay's value, merged key by
/// key where both values are tables.
pub proof fn merge_layers_overlay(into: TableData, overlay: TableData, k: Seq<char>)
    requires
        keys_unique(overlay),
    ensures
        tget(merge_data(into, overlay), k) == match tget(overlay, k) {
            None => tget(into, k),
            Some(v) => Some(layered(tget(into, k), v)),
        },
    decreases overlay.len(),
{
    if overlay.len() > 0 {
        let (k0, v0) = overlay[0];
        let rest = overlay.drop_first();
        assert(keys_unique(rest)) by {
            assert forall|i: int, j: int| 0 <= i < j < rest.len() implies rest[i].0 != rest[j].0 by {
                assert(rest[i] == overlay[i + 1] && rest[j] == overlay[j + 1]);
            }
        }
        let next = merge_entry(into, k0, v0);
        lemma_tget_rest(overlay, k);
        merge_layers_overlay(next, rest, k);
        match v0 {
            TomlData::Table(src) => match tget(into, k0) {
                Some(TomlData::Table(dst)) => lemma_tget_tinsert(into, k0, TomlData::Table(merge_data(dst, src)), k),
                _ => lemma_tget_tinsert(into, k0, v0, k),
            },
            _ => lemma_tget_tinsert(into, k0, v0, k),
        }
    }
}

} // verus!

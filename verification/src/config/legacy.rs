//! Recognising the policy layout of older versions, and the `extends` list.
use vstd::prelude::*;
use super::value::{TableData, TomlData, TomlTable, TomlValue, tget, str_eq};
use super::policy::ConfigError;

verus! {

/// Whether `c` occurs in `s`.
pub fn contains_char(s: &str, c: char) -> (r: bool)
    ensures
        r == s@.contains(c),
{
    let cs = crate::text::chars_of(s);
    let mut i: usize = 0;
    while i < cs.len()
        invariant
            i <= cs@.len(),
            cs@ == s@,
            forall|j: int| 0 <= j < i ==> cs@[j] != c,
        decreases cs.len() - i,
    {
        if cs[i] == c {
            return true;
        }
        i = i + 1;
    }
    false
}

/// The first key of `t` without a dot.
pub open spec fn first_undotted(t: TableData) -> Option<Seq<char>>
    decreases t.len(),
{
    if t.len() == 0 {
        None
    } else if !t[0].0.contains('.') {
        Some(t[0].0)
    } else {
        first_undotted(t.drop_first())
    }
}

/// A key of an older layout in the `output` table.
pub open spec fn output_problem(t: TableData) -> Option<(Seq<char>, Seq<char>)> {
    match tget(t, "output"@) {
        Some(TomlData::Table(o)) => if tget(o, "with_clippy"@) is Some {
            Some(("output.with_clippy"@, "Use `[adapters.clippy].enabled`."@))
        } else if tget(o, "format"@) == Some(TomlData::Str("human"@)) {
            Some(("output.format"@, "Use `text` instead of `human`."@))
        } else {
            None
        },
        _ => None,
    }
}

/// A rule key without a dot.
pub open spec fn rules_problem(t: TableData) -> Option<(Seq<char>, Seq<char>)> {
    match tget(t, "rules"@) {
        Some(TomlData::Table(r)) => match first_undotted(r) {
            Some(k) => Some(("rules."@ + k, "Use dot rule IDs such as `shape.file_complexity`."@)),
            None => None,
        },
        _ => None,
    }
}

/// The first key of an older layout that `t` holds, with the advice given for it.
pub open spec fn legacy_problem(t: TableData) -> Option<(Seq<char>, Seq<char>)> {
    if output_problem(t) is Some {
        output_problem(t)
    } else if rules_problem(t) is Some {
        rules_problem(t)
    } else if tget(t, "include"@) is Some || tget(t, "exclude"@) is Some {
        Some(("include/exclude"@, "Move these under `[workspace]`."@))
    } else {
        None
    }
}

fn legacy(path: &str, key: String, message: &str) -> (r: ConfigError)
    ensures
        r matches ConfigError::LegacyKey { path: p, key: k, message: m } && p@ == path@ && k@
            == key@ && m@ == message@,
{
    ConfigError::LegacyKey { path: path.to_owned(), key, message: message.to_owned() }
}

/// Refuses a policy table that still uses a key of an older layout.
pub fn validate_legacy_shape(table: &TomlTable, path: &str) -> (r: Result<(), ConfigError>)
    ensures
        match legacy_problem(table@) {
            None => r is Ok,
            Some((k, m)) => r matches Err(ConfigError::LegacyKey { path: p, key, message })
                && p@ == path@ && key@ == k && message@ == m,
        },
{
    if let Some(TomlValue::Table(output)) = table.get("output") {
        if output.contains_key("with_clippy") {
            return Err(legacy(path, String::from_str("output.with_clippy"), "Use `[adapters.clippy].enabled`."));
        }
        if let Some(TomlValue::String(f)) = output.get("format") {
            if str_eq(f.as_str(), "human") {
                return Err(legacy(path, String::from_str("output.format"), "Use `text` instead of `human`."));
            }
        }
    }
    if let Some(TomlValue::Table(rules)) = table.get("rules") {
        let mut i: usize = 0;
        assert(rules@.skip(0) =~= rules@);
        while i < rules.entries.len()
            invariant
                i <= rules.entries@.len(),
                output_problem(table@) is None,
                tget(table@, "rules"@) == Some(TomlData::Table(rules@)),
                first_undotted(rules@) == first_undotted(rules@.skip(i as int)),
            decreases rules.entries.len() - i,
        {
            assert(rules@.skip(i as int)[0] == super::value::view_entry(rules.entries@[i as int]));
            assert(rules@.skip(i as int).drop_first() =~= rules@.skip(i + 1));
            let key = &rules.entries[i].key;
            if !contains_char(key.as_str(), '.') {
                let mut k = String::from_str("rules.");
                k.append(key.as_str());
                return Err(legacy(path, k, "Use dot rule IDs such as `shape.file_complexity`."));
            }
            i = i + 1;
        }
    }
    if table.contains_key("include") || table.contains_key("exclude") {
        return Err(legacy(path, String::from_str("include/exclude"), "Move these under `[workspace]`."));
    }
    Ok(())
}

/// The string entries of a table's `extends` array, in order.
pub open spec fn spec_extends(t: TableData) -> Seq<Seq<char>> {
    match tget(t, "extends"@) {
        Some(TomlData::Array(xs)) => string_items(xs),
        _ => Seq::empty(),
    }
}

/// The strings among `xs`, in order.
pub open spec fn string_items(xs: Seq<TomlData>) -> Seq<Seq<char>>
    decreases xs.len(),
{
    if xs.len() == 0 {
        Seq::empty()
    } else {
        let rest = string_items(xs.drop_first());
        match xs[0] {
            TomlData::Str(s) => seq![s] + rest,
            _ => rest,
        }
    }
}

/// The policies that a policy table extends, as written (non-string entries skipped).
pub fn extends_entries(table: &TomlTable) -> (r: Vec<String>)
    ensures
        super::read::views(r@) == spec_extends(table@),
{
    let mut out: Vec<String> = Vec::new();
    if let Some(TomlValue::Array(xs)) = table.get("extends") {
        let ghost d = super::value::view_values(xs@);
        let mut i: usize = xs.len();
        while i > 0
            invariant
                i <= xs@.len(),
                d == super::value::view_values(xs@),
                super::read::views(out@) == string_items(d.skip(i as int)),
            decreases i,
        {
            i = i - 1;
            assert(d.skip(i as int)[0] == d[i as int]);
            assert(d.skip(i as int).drop_first() =~= d.skip(i + 1));
            if let TomlValue::String(s) = &xs[i] {
                let ghost before = out@;
                out.insert(0, s.clone());
                assert(super::read::views(out@) =~= seq![s@] + super::read::views(before));
            }
        }
        assert(d.skip(0) =~= d);
    } else {
        assert(super::read::views(out@) =~= Seq::<Seq<char>>::empty());
    }
    out
}

} // verus!

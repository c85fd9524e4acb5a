//! Reading typed fields out of TOML tables, with defaults for absent keys.
use vstd::prelude::*;
use super::level::Level;
use super::value::{TableData, TomlData, TomlTable, TomlValue, tget};

verus! {

/// The non-negative integer under `key`, or `default` when absent; `None` when
/// the value is not such an integer.
pub open spec fn spec_read_usize(t: TableData, key: Seq<char>, default: usize) -> Option<usize> {
    match tget(t, key) {
        None => Some(default),
        Some(TomlData::Int(i)) => if 0 <= i <= usize::MAX {
            Some(i as usize)
        } else {
            None
        },
        Some(_) => None,
    }
}

/// The `u32` under `key`, or `default` when absent.
pub open spec fn spec_read_u32(t: TableData, key: Seq<char>, default: u32) -> Option<u32> {
    match tget(t, key) {
        None => Some(default),
        Some(TomlData::Int(i)) => if 0 <= i <= u32::MAX {
            Some(i as u32)
        } else {
            None
        },
        Some(_) => None,
    }
}

/// The boolean under `key`, or `default` when absent.
pub open spec fn spec_read_bool(t: TableData, key: Seq<char>, default: bool) -> Option<bool> {
    match tget(t, key) {
        None => Some(default),
        Some(TomlData::Bool(b)) => Some(b),
        Some(_) => None,
    }
}

/// The string under `key`, `Some(None)` when absent.
pub open spec fn spec_read_opt_string(t: TableData, key: Seq<char>) -> Option<Option<Seq<char>>> {
    match tget(t, key) {
        None => Some(None),
        Some(TomlData::Str(s)) => Some(Some(s)),
        Some(_) => None,
    }
}

/// The strings of an array of strings.
pub open spec fn spec_strings(xs: Seq<TomlData>) -> Option<Seq<Seq<char>>>
    decreases xs.len(),
{
    if xs.len() == 0 {
        Some(Seq::empty())
    } else {
        match (xs[0], spec_strings(xs.drop_first())) {
            (TomlData::Str(s), Some(rest)) => Some(seq![s] + rest),
            _ => None,
        }
    }
}

/// The array of strings under `key`, or `default` when absent.
pub open spec fn spec_read_strings(t: TableData, key: Seq<char>, default: Seq<Seq<char>>) -> Option<
    Seq<Seq<char>>,
> {
    match tget(t, key) {
        None => Some(default),
        Some(TomlData::Array(xs)) => spec_strings(xs),
        Some(_) => None,
    }
}

/// The level a policy file names.
pub open spec fn spec_parse_level(s: Seq<char>) -> Option<Level> {
    if s == "allow"@ {
        Some(Level::Allow)
    } else if s == "warn"@ {
        Some(Level::Warn)
    } else if s == "deny"@ {
        Some(Level::Deny)
    } else {
        None
    }
}

/// The level under `key`, or `default` when absent.
pub open spec fn spec_read_level(t: TableData, key: Seq<char>, default: Level) -> Option<Level> {
    match tget(t, key) {
        None => Some(default),
        Some(TomlData::Str(s)) => spec_parse_level(s),
        Some(_) => None,
    }
}

/// The views of a vector of strings.
pub open spec fn views(xs: Seq<String>) -> Seq<Seq<char>> {
    xs.map_values(|s: String| s@)
}

/// The text of a value under `key` that does not decode.
pub open spec fn invalid_text(key: Seq<char>) -> Seq<char> {
    "invalid value for key `"@ + key + "`"@
}

fn invalid(key: &str) -> (r: String)
    ensures
        r@ == invalid_text(key@),
{
    let mut m = String::from_str("invalid value for key `");
    m.append(key);
    m.append("`");
    m
}

pub fn read_usize(t: &TomlTable, key: &str, default: usize) -> (r: Result<usize, String>)
    ensures
        match r {
            Ok(v) => spec_read_usize(t@, key@, default) == Some(v),
            Err(_) => spec_read_usize(t@, key@, default) is None,
        },
{
    match t.get(key) {
        None => Ok(default),
        Some(TomlValue::Integer(i)) => {
            if 0 <= *i && (*i as u64) <= (usize::MAX as u64) {
                Ok(*i as usize)
            } else {
                Err(invalid(key))
            }
        },
        Some(_) => Err(invalid(key)),
    }
}

pub fn read_u32(t: &TomlTable, key: &str, default: u32) -> (r: Result<u32, String>)
    ensures
        match r {
            Ok(v) => spec_read_u32(t@, key@, default) == Some(v),
            Err(_) => spec_read_u32(t@, key@, default) is None,
        },
{
    match t.get(key) {
        None => Ok(default),
        Some(TomlValue::Integer(i)) => {
            if 0 <= *i && *i <= 0xFFFF_FFFFi64 {
                Ok(*i as u32)
            } else {
                Err(invalid(key))
            }
        },
        Some(_) => Err(invalid(key)),
    }
}

pub fn read_bool(t: &TomlTable, key: &str, default: bool) -> (r: Result<bool, String>)
    ensures
        match r {
            Ok(v) => spec_read_bool(t@, key@, default) == Some(v),
            Err(_) => spec_read_bool(t@, key@, default) is None,
        },
{
    match t.get(key) {
        None => Ok(default),
        Some(TomlValue::Boolean(b)) => Ok(*b),
        Some(_) => Err(invalid(key)),
    }
}

pub fn read_opt_string(t: &TomlTable, key: &str) -> (r: Result<Option<String>, String>)
    ensures
        match r {
            Ok(v) => spec_read_opt_string(t@, key@) == Some(
                match v {
                    Some(s) => Some(s@),
                    None => None::<Seq<char>>,
                },
            ),
            Err(_) => spec_read_opt_string(t@, key@) is None,
        },
{
    match t.get(key) {
        None => Ok(None),
        Some(TomlValue::String(s)) => Ok(Some(s.clone())),
        Some(_) => Err(invalid(key)),
    }
}

/// The strings of an array of values, if all are strings.
pub fn strings_of(xs: &Vec<TomlValue>) -> (r: Option<Vec<String>>)
    ensures
        match r {
            Some(v) => spec_strings(super::value::view_values(xs@)) == Some(views(v@)),
            None => spec_strings(super::value::view_values(xs@)) is None,
        },
{
    let ghost d = super::value::view_values(xs@);
    let mut out: Vec<String> = Vec::new();
    let mut i: usize = 0;
    assert(d.skip(0) =~= d);
    assert(views(out@) =~= Seq::<Seq<char>>::empty());
    assert forall|rest: Seq<Seq<char>>| views(out@) + rest == rest by {
        assert(views(out@) + rest =~= rest);
    }
    while i < xs.len()
        invariant
            i <= xs@.len(),
            d == super::value::view_values(xs@),
            spec_strings(d) == match spec_strings(d.skip(i as int)) {
                Some(rest) => Some(views(out@) + rest),
                None => None,
            },
        decreases xs.len() - i,
    {
        assert(d.skip(i as int)[0] == d[i as int]);
        assert(d.skip(i as int).drop_first() =~= d.skip(i + 1));
        match &xs[i] {
            TomlValue::String(s) => {
                let ghost before = out@;
                out.push(s.clone());
                assert(views(out@) =~= views(before) + seq![s@]);
                assert forall|rest: Seq<Seq<char>>| views(before) + (seq![s@] + rest) == views(out@) + rest by {
                    assert(views(before) + (seq![s@] + rest) =~= views(out@) + rest);
                }
            },
            _ => {
                return None;
            },
        }
        i = i + 1;
    }
    assert(d.skip(i as int) =~= Seq::<TomlData>::empty());
    assert(views(out@) + Seq::<Seq<char>>::empty() =~= views(out@));
    Some(out)
}

pub fn read_strings(t: &TomlTable, key: &str, default: Vec<String>) -> (r: Result<
    Vec<String>,
    String,
>)
    ensures
        match r {
            Ok(v) => spec_read_strings(t@, key@, views(default@)) == Some(views(v@)),
            Err(_) => spec_read_strings(t@, key@, views(default@)) is None,
        },
{
    match t.get(key) {
        None => Ok(default),
        Some(TomlValue::Array(xs)) => match strings_of(xs) {
            Some(v) => Ok(v),
            None => Err(invalid(key)),
        },
        Some(_) => Err(invalid(key)),
    }
}

/// The level a policy file names.
pub fn parse_level(s: &str) -> (r: Option<Level>)
    ensures
        r == spec_parse_level(s@),
{
    if super::value::str_eq(s, "allow") {
        Some(Level::Allow)
    } else if super::value::str_eq(s, "warn") {
        Some(Level::Warn)
    } else if super::value::str_eq(s, "deny") {
        Some(Level::Deny)
    } else {
        None
    }
}

pub fn read_level(t: &TomlTable, key: &str, default: Level) -> (r: Result<Level, String>)
    ensures
        match r {
            Ok(v) => spec_read_level(t@, key@, default) == Some(v),
            Err(_) => spec_read_level(t@, key@, default) is None,
        },
{
    match t.get(key) {
        None => Ok(default),
        Some(TomlValue::String(s)) => match parse_level(s.as_str()) {
            Some(l) => Ok(l),
            None => Err(invalid(key)),
        },
        Some(_) => Err(invalid(key)),
    }
}

} // verus!

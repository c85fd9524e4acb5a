//! TOML text read into the library's model of TOML data, through the `toml`
//! crate.
use vstd::prelude::*;
use super::value::{TableData, TomlData, TomlTable, TomlValue, tinsert, view_values};
use super::policy::ConfigError;

verus! {

/// A value of the `toml` crate; opaque here.
#[verifier::external_type_specification]
#[verifier::external_body]
pub struct ExTomlValue(toml::Value);

/// What `toml::from_str` gives for `text` read as a table: the table's
/// content, or the error's message.
pub uninterp spec fn toml_parse_result(text: Seq<char>) -> Result<TableData, Seq<char>>;

/// The content of a `toml` value, in the library's model of TOML data.
pub uninterp spec fn toml_data(v: toml::Value) -> TomlData;

/// The number of values in a `toml` value, counting itself and every value
/// nested in it.
pub uninterp spec fn toml_size(v: toml::Value) -> nat;

/// The table holding each of `es`, set one after the other.
pub open spec fn table_of_entries(es: Seq<(Seq<char>, TomlData)>) -> TableData
    decreases es.len(),
{
    if es.len() == 0 {
        Seq::empty()
    } else {
        tinsert(table_of_entries(es.drop_last()), es.last().0, es.last().1)
    }
}

/// One level of a `toml` value: a value with no parts, the items of an
/// array, or the entries of a table in the order the table holds them.
pub enum TomlNode {
    Leaf(TomlValue),
    Array(Vec<toml::Value>),
    Table(Vec<(String, toml::Value)>),
}

/// `toml::from_str` on `text`, read as a `toml::Table`: the table as a value,
/// or the error's message (`to_string`). Both are named by
/// `toml_parse_result`, and the table's content is `toml_data` of the value.
#[verifier::external_body]
fn parse_toml(text: &str) -> (r: Result<toml::Value, String>)
    ensures
        match r {
            Ok(v) => toml_parse_result(text@) is Ok && toml_data(v) == TomlData::Table(
                toml_parse_result(text@)->Ok_0,
            ),
            Err(e) => toml_parse_result(text@) == Err::<TableData, Seq<char>>(e@),
        },
{
    toml::from_str::<toml::Table>(text).map(toml::Value::Table).map_err(|e| e.to_string())
}

/// Tells the variants of a `toml::Value` apart, moving out their parts: a
/// string, integer or boolean as it is, a float by its bits (`to_bits`), a
/// date-time by its text (`to_string`), an array's items, a table's entries in
/// its order. The parts of an array or a table are smaller values than it.
#[verifier::external_body]
fn split_value(v: toml::Value) -> (r: TomlNode)
    ensures
        match r {
            TomlNode::Leaf(x) => toml_data(v) == x@ && !(x is Array) && !(x is Table),
            TomlNode::Array(items) => toml_data(v) == TomlData::Array(
                items@.map_values(|x: toml::Value| toml_data(x)),
            ) && forall|i: int| 0 <= i < items@.len() ==> toml_size(#[trigger] items@[i]) < toml_size(v),
            TomlNode::Table(es) => toml_data(v) == TomlData::Table(
                table_of_entries(es@.map_values(|e: (String, toml::Value)| (e.0@, toml_data(e.1)))),
            ) && forall|i: int| 0 <= i < es@.len() ==> toml_size(#[trigger] es@[i].1) < toml_size(v),
        },
{
    match v {
        toml::Value::String(s) => TomlNode::Leaf(TomlValue::String(s)),
        toml::Value::Integer(i) => TomlNode::Leaf(TomlValue::Integer(i)),
        toml::Value::Float(x) => TomlNode::Leaf(TomlValue::Float(x.to_bits())),
        toml::Value::Boolean(b) => TomlNode::Leaf(TomlValue::Boolean(b)),
        toml::Value::Datetime(d) => TomlNode::Leaf(TomlValue::Datetime(d.to_string())),
        toml::Value::Array(items) => TomlNode::Array(items),
        toml::Value::Table(t) => TomlNode::Table(t.into_iter().collect()),
    }
}

/// A `toml` value in the library's model.
pub fn value_from_toml(v: toml::Value) -> (r: TomlValue)
    ensures
        r@ == toml_data(v),
    decreases toml_size(v),
{
    let ghost size = toml_size(v);
    let ghost data = toml_data(v);
    match split_value(v) {
        TomlNode::Leaf(x) => x,
        TomlNode::Array(items) => {
            let ghost iv = items@;
            let mut rest = items;
            let mut out: Vec<TomlValue> = Vec::new();
            while rest.len() > 0
                invariant
                    out@.len() <= iv.len(),
                    rest@ == iv.skip(out@.len() as int),
                    forall|k: int| 0 <= k < out@.len() ==> (#[trigger] out@[k])@ == toml_data(iv[k]),
                    forall|k: int| 0 <= k < iv.len() ==> toml_size(#[trigger] iv[k]) < size,
                    size == toml_size(v),
                decreases rest.len(),
            {
                let ghost n = out@.len();
                assert(rest@[0] == iv[n as int]);
                let x = rest.remove(0);
                let c = value_from_toml(x);
                out.push(c);
                assert(rest@ =~= iv.skip(out@.len() as int));
            }
            assert(view_values(out@) =~= iv.map_values(|x: toml::Value| toml_data(x)));
            TomlValue::Array(out)
        },
        TomlNode::Table(es) => {
            let ghost ev = es@;
            let total: usize = es.len();
            let ghost dv = ev.map_values(|e: (String, toml::Value)| (e.0@, toml_data(e.1)));
            let mut rest = es;
            let mut out = TomlTable::new();
            let mut n: usize = 0;
            while rest.len() > 0
                invariant
                    n <= ev.len(),
                    ev.len() == total,
                    rest@ == ev.skip(n as int),
                    out@ == table_of_entries(dv.take(n as int)),
                    dv == ev.map_values(|e: (String, toml::Value)| (e.0@, toml_data(e.1))),
                    forall|k: int| 0 <= k < ev.len() ==> toml_size(#[trigger] ev[k].1) < size,
                    size == toml_size(v),
                decreases rest.len(),
            {
                assert(rest@[0] == ev[n as int]);
                assert(n < ev.len());
                let (key, x) = rest.remove(0);
                let c = value_from_toml(x);
                out.insert(key, c);
                assert(dv.take(n + 1).drop_last() =~= dv.take(n as int));
                n = n + 1;
                assert(rest@ =~= ev.skip(n as int));
            }
            assert(dv.take(n as int) =~= dv);
            TomlValue::Table(out)
        },
    }
}

/// The table that `text` holds as TOML, or the parser's message.
pub fn parse_toml_table(text: &str) -> (r: Result<TomlTable, String>)
    ensures
        match r {
            Ok(t) => toml_parse_result(text@) == Ok::<TableData, Seq<char>>(t@),
            Err(e) => toml_parse_result(text@) == Err::<TableData, Seq<char>>(e@),
        },
{
    match parse_toml(text) {
        Err(e) => Err(e),
        Ok(v) => match value_from_toml(v) {
            TomlValue::Table(t) => Ok(t),
            _ => {
                proof {
                    assert(false);
                }
                Err(String::new())
            },
        },
    }
}

/// The policy table that the file at `path` holds as `text`: a parse error
/// names the file.
pub fn policy_table_from_text(text: &str, path: &str) -> (r: Result<TomlTable, ConfigError>)
    ensures
        match toml_parse_result(text@) {
            Ok(t) => r matches Ok(u) && u@ == t,
            Err(m) => r matches Err(ConfigError::Parse { path: p, message }) && p@ == path@ && message@ == m,
        },
{
    match parse_toml_table(text) {
        Ok(t) => Ok(t),
        Err(message) => Err(ConfigError::Parse { path: path.to_owned(), message }),
    }
}

} // verus!

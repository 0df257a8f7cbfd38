//! Trusted access to TOML values.
//!
//! The descriptor file and the render context are TOML data.  A
//! `toml::Value` is opaque here; `toml_view` names its contents as a
//! [`ValueModel`], and each wrapper below states what one accessor or
//! constructor of the `toml` crate does to that model.

use vstd::prelude::*;

use crate::value::assoc_map;
use crate::value::ValueModel;

verus! {

#[verifier::external_type_specification]
#[verifier::external_body]
pub struct ExTomlValue(toml::Value);

/// The contents of a TOML value.
pub uninterp spec fn toml_view(v: toml::Value) -> ValueModel;

/// What parsing a text as a TOML document yields: the document's contents,
/// or nothing when the text is not well-formed TOML.
pub uninterp spec fn toml_parsed(s: Seq<char>) -> Option<ValueModel>;

/// Relies on toml::from_str: parsing is a function of the text alone, and a
/// well-formed document is a table.
#[verifier::external_body]
pub fn parse_toml(text: &str) -> (r: Result<toml::Value, String>)
    ensures
        r is Ok <==> toml_parsed(text@) is Some,
        r is Ok ==> toml_view(r->Ok_0) == toml_parsed(text@)->0,
        r is Ok ==> toml_parsed(text@)->0 is Table,
{
    toml::from_str::<toml::Value>(text).map_err(|e| format!("{}", e))
}

/// Relies on toml::Value::as_str.
#[verifier::external_body]
pub fn toml_as_text(v: &toml::Value) -> (r: Option<&str>)
    ensures
        match r {
            Some(s) => toml_view(*v) == ValueModel::String(s@),
            None => !(toml_view(*v) is String),
        },
{
    v.as_str()
}

/// Relies on toml::Value::as_integer.
#[verifier::external_body]
pub fn toml_as_integer(v: &toml::Value) -> (r: Option<i64>)
    ensures
        match r {
            Some(i) => toml_view(*v) == ValueModel::Integer(i as int),
            None => !(toml_view(*v) is Integer),
        },
{
    v.as_integer()
}

/// Relies on toml::Value::as_bool.
#[verifier::external_body]
pub fn toml_as_boolean(v: &toml::Value) -> (r: Option<bool>)
    ensures
        match r {
            Some(b) => toml_view(*v) == ValueModel::Boolean(b),
            None => !(toml_view(*v) is Boolean),
        },
{
    v.as_bool()
}

/// Relies on toml::Value::as_float and the display form of the number: a
/// float's model is its decimal text.
#[verifier::external_body]
pub fn toml_float_text(v: &toml::Value) -> (r: Option<String>)
    ensures
        match r {
            Some(s) => toml_view(*v) == ValueModel::Float(s@),
            None => !(toml_view(*v) is Float),
        },
{
    v.as_float().map(|f| f.to_string())
}

/// Relies on toml::Value::as_array: the elements of an array, in order.
#[verifier::external_body]
pub fn toml_as_array(v: &toml::Value) -> (r: Option<Vec<toml::Value>>)
    ensures
        match r {
            Some(xs) => {
                &&& toml_view(*v) is Array
                &&& toml_view(*v)->Array_0.len() == xs@.len()
                &&& forall|i: int|
                    0 <= i < xs@.len() ==> toml_view(*v)->Array_0[i] == toml_view(xs@[i])
            },
            None => !(toml_view(*v) is Array),
        },
{
    v.as_array().map(|a| a.clone())
}

/// Relies on toml::Value::as_table and the table's iterator: the entries of
/// a table, keys unique, each key bound to its value.
#[verifier::external_body]
pub fn toml_table_entries(v: &toml::Value) -> (r: Option<Vec<(String, toml::Value)>>)
    ensures
        match r {
            Some(es) => {
                &&& toml_view(*v) is Table
                &&& forall|i: int, j: int|
                    0 <= i < j < es@.len() ==> es@[i].0@ != es@[j].0@
                &&& forall|i: int|
                    0 <= i < es@.len() ==> toml_view(*v)->Table_0.contains_key(es@[i].0@)
                        && toml_view(*v)->Table_0[es@[i].0@] == toml_view(es@[i].1)
                &&& forall|k: Seq<char>|
                    toml_view(*v)->Table_0.contains_key(k) ==> exists|i: int|
                        0 <= i < es@.len() && es@[i].0@ == k
            },
            None => !(toml_view(*v) is Table),
        },
{
    v.as_table().map(|t| t.iter().map(|(k, val)| (k.clone(), val.clone())).collect())
}

/// Relies on toml::Value::String's constructor.
#[verifier::external_body]
pub fn toml_text(s: &str) -> (r: toml::Value)
    ensures
        toml_view(r) == ValueModel::String(s@),
{
    toml::Value::String(s.to_string())
}

/// Relies on toml::Value::Integer's constructor.
#[verifier::external_body]
pub fn toml_integer(i: i64) -> (r: toml::Value)
    ensures
        toml_view(r) == ValueModel::Integer(i as int),
{
    toml::Value::Integer(i)
}

/// Relies on toml::Value::Boolean's constructor.
#[verifier::external_body]
pub fn toml_boolean(b: bool) -> (r: toml::Value)
    ensures
        toml_view(r) == ValueModel::Boolean(b),
{
    toml::Value::Boolean(b)
}

/// Relies on toml::Value::Array's constructor.
#[verifier::external_body]
pub fn toml_array(xs: Vec<toml::Value>) -> (r: toml::Value)
    ensures
        toml_view(r) == ValueModel::Array(xs@.map_values(|x: toml::Value| toml_view(x))),
{
    toml::Value::Array(xs)
}

/// Relies on toml::Value::Table's constructor and the table's FromIterator:
/// with a later duplicate winning, the table holds the pairs' mapping.
#[verifier::external_body]
pub fn toml_table(pairs: Vec<(String, toml::Value)>) -> (r: toml::Value)
    ensures
        toml_view(r) == ValueModel::Table(
            assoc_map(
                pairs@.map_values(|p: (String, toml::Value)| (p.0@, toml_view(p.1))),
            ),
        ),
{
    toml::Value::Table(pairs.into_iter().collect())
}

} // verus!

//! The JSON values a problem carries, and the calls into `serde_json` that
//! build, copy and encode them.
//!
//! A value is never looked into here. Nothing in this file is proved: the
//! contracts below say what is taken on trust about `serde_json`.

use serde_json::Value;
use vstd::prelude::*;

verus! {

/// `serde_json::Value`, carried through the library without being inspected.
#[verifier::external_type_specification]
#[verifier::external_body]
pub struct ExValue(serde_json::Value);

/// The compact JSON text of a value, as the `Display` impl of
/// `serde_json::Value` writes it. It depends on the value alone.
pub uninterp spec fn json_text(value: Value) -> Seq<char>;

/// The JSON string with the given text: the `Value::String` that
/// `Value::from(&str)` builds from it.
pub uninterp spec fn string_value(text: Seq<char>) -> Value;

/// Calls `Value::from(&str)`. Taken on trust: the result is the JSON string
/// that holds a copy of `text`.
#[verifier::external_body]
pub(crate) fn string_to_value(text: &str) -> (value: Value)
    ensures
        value == string_value(text@),
{
    Value::from(text)
}

/// Calls `to_string` on a `serde_json::Value`, which runs its `Display`
/// impl. Taken on trust: the result is the value written as compact JSON,
/// and writing a value into a string does not fail.
#[verifier::external_body]
pub(crate) fn value_text(value: &Value) -> (text: String)
    ensures
        text@ == json_text(*value),
{
    value.to_string()
}

/// Calls `Value::clone`. Taken on trust: the copy equals the value it was
/// made from.
#[verifier::external_body]
pub(crate) fn clone_value(value: &Value) -> (copy: Value)
    ensures
        copy == *value,
{
    value.clone()
}

} // verus!

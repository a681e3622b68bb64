//! Trusted declarations for serde_json's `Value`, the shape in which the
//! script side hands the database host operation its parameters.  A `Value`
//! is opaque here, so what each probe reads of one gets a name: every probe
//! is a pure function of the value alone (a plain match on its variant), and
//! the verified classification logic is stated over those names.

use vstd::prelude::*;

verus! {

#[verifier::external_type_specification]
#[verifier::external_body]
pub struct ExValue(serde_json::Value);

/// The elements a JSON value holds when it is an array; nothing otherwise.
pub uninterp spec fn array_elems_of(v: serde_json::Value) -> Option<Seq<serde_json::Value>>;

/// The text a JSON value holds when it is a string; nothing otherwise.
pub uninterp spec fn text_of(v: serde_json::Value) -> Option<Seq<char>>;

/// The integer a JSON value holds when it is an integer representable as
/// i64; nothing otherwise.
pub uninterp spec fn int64_of(v: serde_json::Value) -> Option<i64>;

/// Whether a JSON value is a number.
pub uninterp spec fn numberness_of(v: serde_json::Value) -> bool;

/// The boolean a JSON value holds when it is one; nothing otherwise.
pub uninterp spec fn bool_of(v: serde_json::Value) -> Option<bool>;

/// Whether a JSON value is null.
pub uninterp spec fn nullness_of(v: serde_json::Value) -> bool;

/// The JSON text a value renders to; for a finite number, text that reads
/// back to the same number.
pub uninterp spec fn json_text_of(v: serde_json::Value) -> Seq<char>;

/// Relies on serde_json's `Value::as_array`: the element vector exactly
/// when the value is an array, a pure match on the value's variant.
#[verifier::external_body]
pub fn value_as_array(v: &serde_json::Value) -> (r: Option<&Vec<serde_json::Value>>)
    ensures
        match r {
            Some(a) => array_elems_of(*v) == Some(a@),
            None => array_elems_of(*v) is None,
        },
{
    v.as_array()
}

/// Relies on serde_json's `Value::as_str`: the text exactly when the value
/// is a string.
#[verifier::external_body]
pub fn value_as_text(v: &serde_json::Value) -> (r: Option<String>)
    ensures
        match r {
            Some(t) => text_of(*v) == Some(t@),
            None => text_of(*v) is None,
        },
{
    v.as_str().map(|s| s.to_owned())
}

/// Relies on serde_json's `Value::as_i64`: the integer exactly when the
/// value is an integer representable as i64.
#[verifier::external_body]
pub fn value_as_i64(v: &serde_json::Value) -> (r: Option<i64>)
    ensures
        r == int64_of(*v),
{
    v.as_i64()
}

/// Relies on serde_json's `Value::is_number`: whether the value is a
/// number.
#[verifier::external_body]
pub fn value_is_number(v: &serde_json::Value) -> (r: bool)
    ensures
        r == numberness_of(*v),
{
    v.is_number()
}

/// Relies on serde_json's `Value::as_bool`: the boolean exactly when the
/// value is one.
#[verifier::external_body]
pub fn value_as_bool(v: &serde_json::Value) -> (r: Option<bool>)
    ensures
        r == bool_of(*v),
{
    v.as_bool()
}

/// Relies on serde_json's `Value::is_null`: whether the value is null.
#[verifier::external_body]
pub fn value_is_null(v: &serde_json::Value) -> (r: bool)
    ensures
        r == nullness_of(*v),
{
    v.is_null()
}

/// Relies on serde_json's `Display` for `Value`: the value rendered as
/// JSON text; serialization into a string cannot fail, and a finite number
/// renders to text that reads back to the same number.
#[verifier::external_body]
pub fn value_to_json_text(v: &serde_json::Value) -> (r: String)
    ensures
        r@ == json_text_of(*v),
{
    v.to_string()
}

} // verus!

//! Data as the JSON values that a template engine works on.

use crate::datum::{Datum, DatumView, Number};
use tera::Value as Json;
use vstd::prelude::*;

verus! {

#[verifier::external_type_specification]
#[verifier::external_body]
pub struct ExJson(tera::Value);

/// The JSON value that stands for a datum in a template context.
pub uninterp spec fn json_form(d: DatumView) -> tera::Value;

/// What a JSON value holds.
pub uninterp spec fn json_content(v: tera::Value) -> DatumView;

/// What `serde_json::Value::pointer` finds in `v` when asked for `pointer`.
pub uninterp spec fn json_pointer_target(v: tera::Value, pointer: Seq<char>) -> Option<tera::Value>;

/// The text that `Display` writes for a JSON value.
pub uninterp spec fn json_text(v: tera::Value) -> Seq<char>;

/// The text that shows a datum in a message: that of the JSON value that
/// stands for it.
pub open spec fn shown(d: DatumView) -> Seq<char> {
    json_text(json_form(d))
}

/// What an item holds at a JSON pointer: what the pointer finds in the JSON
/// value that stands for the item.
pub open spec fn attribute_at(d: DatumView, pointer: Seq<char>) -> Option<DatumView> {
    match json_pointer_target(json_form(d), pointer) {
        Some(found) => Some(json_content(found)),
        None => None,
    }
}

/// Builds the `tera::Value` that stands for `d`, level by level: a variant
/// for a variant, a whole number by `From`, another number by
/// `Number::from_f64` of what its text parses to (`Null` where there is no
/// such finite number), a mapping by collecting its entries into an object,
/// where the last entry of a key is the one that stays.
#[verifier::external_body]
pub(crate) fn json_of(d: &Datum) -> (v: tera::Value)
    ensures
        v == json_form(d@),
{
    match d {
        Datum::Null => Json::Null,
        Datum::Bool(b) => Json::Bool(*b),
        Datum::Number(Number::PosInt(n)) => Json::from(*n),
        Datum::Number(Number::NegInt(n)) => Json::from(*n),
        Datum::Number(Number::Float(text)) => text.parse().ok()
            .and_then(tera::Number::from_f64).map_or(Json::Null, Json::Number),
        Datum::String(s) => Json::String(s.clone()),
        Datum::Sequence(items) => Json::Array(items.iter().map(json_of).collect()),
        Datum::Mapping(entries) => Json::Object(
            entries.iter().map(|(k, v)| (k.clone(), json_of(v))).collect()),
    }
}

/// Tells the variants of `tera::Value` apart and moves what each holds into
/// a [`Datum`], level by level. Of a number it hands on what `as_u64`,
/// `as_i64` and `to_string` give; the entries of an object come in the order
/// in which the object yields them.
#[verifier::external_body]
pub(crate) fn datum_of_json(v: &tera::Value) -> (d: Datum)
    ensures
        d@ == json_content(*v),
{
    match v {
        Json::Null => Datum::Null,
        Json::Bool(b) => Datum::Bool(*b),
        Json::Number(n) => Datum::Number(
            Number::from_readings(n.as_u64(), n.as_i64(), n.to_string())),
        Json::String(s) => Datum::String(s.clone()),
        Json::Array(items) => Datum::Sequence(items.iter().map(datum_of_json).collect()),
        Json::Object(map) => Datum::Mapping(
            map.iter().map(|(k, x)| (k.clone(), datum_of_json(x))).collect()),
    }
}

/// Calls `serde_json::Value::pointer`, which reads nothing but its
/// arguments.
#[verifier::external_body]
pub(crate) fn json_pointer<'a>(v: &'a tera::Value, pointer: &str) -> (r: Option<&'a tera::Value>)
    ensures
        match r {
            Some(found) => json_pointer_target(*v, pointer@) == Some(*found),
            None => json_pointer_target(*v, pointer@) is None,
        },
{
    v.pointer(pointer)
}

/// Calls `to_string` on the JSON value, which writes what `Display` writes
/// for it: the value as compact JSON.
#[verifier::external_body]
pub(crate) fn text_of_json(v: &tera::Value) -> (r: String)
    ensures
        r@ == json_text(*v),
{
    v.to_string()
}

/// The text that shows `d` in a message.
pub fn show(d: &Datum) -> (r: String)
    ensures
        r@ == shown(d@),
{
    let v = json_of(d);
    text_of_json(&v)
}

/// What `d` holds at the JSON pointer `pointer`.
pub fn attribute(d: &Datum, pointer: &str) -> (r: Option<Datum>)
    ensures
        crate::datum::content_of(r) == attribute_at(d@, pointer@),
{
    let v = json_of(d);
    match json_pointer(&v, pointer) {
        Some(found) => Some(datum_of_json(found)),
        None => None,
    }
}

} // verus!

//! Metadata blocks as `serde_yaml` reads them.

use crate::datum::{content_of, Datum, DatumView, Number};
use serde_yaml::Value as Yaml;
use vstd::prelude::*;

verus! {

#[verifier::external_type_specification]
#[verifier::external_body]
pub struct ExYamlValue(serde_yaml::Value);

/// What `serde_yaml::from_str` makes of `text` when asked for a
/// `serde_yaml::Mapping`: the mapping's content, or the parser's message.
/// The content is `None` where a mapping in it has a key that is not a string.
pub uninterp spec fn yaml_document(text: Seq<char>) -> Result<Option<DatumView>, Seq<char>>;

/// What a YAML value holds, or `None` where a mapping in it has a key that is
/// not a string.
pub uninterp spec fn yaml_content(node: serde_yaml::Value) -> Option<DatumView>;

/// Calls `serde_yaml::from_str` for a `serde_yaml::Mapping` and hands the
/// mapping back as a `serde_yaml::Value`. The parser reads nothing but `text`,
/// so the outcome is the one that [`yaml_document`] names; an error comes back
/// as the text that its `Display` writes.
#[verifier::external_body]
pub(crate) fn parse_yaml(text: &str) -> (r: Result<serde_yaml::Value, String>)
    ensures
        match r {
            Ok(node) => yaml_document(text@) == Ok::<Option<DatumView>, Seq<char>>(
                yaml_content(node),
            ),
            Err(message) => yaml_document(text@) == Err::<Option<DatumView>, Seq<char>>(message@),
        },
{
    serde_yaml::from_str::<serde_yaml::Mapping>(text).map(Yaml::Mapping).map_err(|e| e.to_string())
}

/// Tells the variants of `serde_yaml::Value` apart and moves what each holds
/// into a [`Datum`], level by level. Of a number it hands on what `as_u64`,
/// `as_i64` and `to_string` give. The result is `None` where a mapping has a
/// key that is not a string.
#[verifier::external_body]
pub(crate) fn datum_of_yaml(node: &serde_yaml::Value) -> (r: Option<Datum>)
    ensures
        yaml_content(*node) == content_of(r),
{
    match node {
        Yaml::Null => Some(Datum::Null),
        Yaml::Bool(b) => Some(Datum::Bool(*b)),
        Yaml::Number(n) => Some(Datum::Number(
            Number::from_readings(n.as_u64(), n.as_i64(), n.to_string()))),
        Yaml::String(s) => Some(Datum::String(s.clone())),
        Yaml::Sequence(items) => items.iter().map(datum_of_yaml)
            .collect::<Option<_>>().map(Datum::Sequence),
        Yaml::Mapping(map) => map.iter()
            .map(|(k, v)| Some((k.as_str()?.to_owned(), datum_of_yaml(v)?)))
            .collect::<Option<_>>().map(Datum::Mapping),
    }
}

} // verus!

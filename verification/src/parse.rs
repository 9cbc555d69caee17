//! Parsing the text of a JSON, TOML or YAML file with `serde_json`, `toml`
//! and `serde_yaml`, into the library's values.

use vstd::prelude::*;
use crate::capture_toml::{TView, TomlValue};
use crate::json::{JView, JsonNumber, JsonValue};

verus! {

#[verifier::external_type_specification]
#[verifier::external_body]
pub struct ExSerdeJsonValue(serde_json::Value);

#[verifier::external_type_specification]
#[verifier::external_body]
pub struct ExSerdeJsonNumber(serde_json::Number);

#[verifier::external_type_specification]
#[verifier::external_body]
pub struct ExTomlValue(toml::Value);

/// What `serde_json::from_str` makes of a text, as a `serde_json::Value`
/// taken into the library's JSON value: the value, or the error's message.
pub uninterp spec fn json_text_parsed(text: Seq<char>) -> Result<JView, Seq<char>>;

/// What `toml::from_str` makes of a text, as a `toml::Value` taken into the
/// library's TOML value: the value, or the error's message.
pub uninterp spec fn toml_text_parsed(text: Seq<char>) -> Result<TView, Seq<char>>;

/// What `serde_yaml::from_str` makes of a text, as a `serde_json::Value`
/// taken into the library's JSON value: the value, or the error's message.
pub uninterp spec fn yaml_text_parsed(text: Seq<char>) -> Result<JView, Seq<char>>;

/// A `serde_json` number as the library's number. `serde_json` holds a
/// number as one of three kinds (a non-negative integer, a negative one, a
/// finite double), which `as_u64`, `as_i64` and `as_f64` tell apart in that
/// order; the double is kept as its bits.
#[verifier::external_body]
fn from_serde_number(n: serde_json::Number) -> JsonNumber {
    match (n.as_u64(), n.as_i64()) {
        (Some(u), _) => JsonNumber::PosInt(u),
        (None, Some(i)) => JsonNumber::NegInt(i),
        (None, None) => JsonNumber::Float(n.as_f64().map_or(0, |x| x.to_bits())),
    }
}

/// A `serde_json` value as the library's JSON value, variant for variant;
/// the entries of an object come out of `serde_json`'s map in its order.
#[verifier::external_body]
fn from_serde_value(v: serde_json::Value) -> JsonValue {
    match v {
        serde_json::Value::Null => JsonValue::Null,
        serde_json::Value::Bool(b) => JsonValue::Bool(b),
        serde_json::Value::Number(n) => JsonValue::Number(from_serde_number(n)),
        serde_json::Value::String(s) => JsonValue::String(s),
        serde_json::Value::Array(xs) => JsonValue::Array(xs.into_iter().map(from_serde_value).collect()),
        serde_json::Value::Object(m) => JsonValue::Object(m.into_iter().map(|(k, x)| (k, from_serde_value(x))).collect()),
    }
}

/// A `toml` value as the library's TOML value, variant for variant: a float
/// is kept as its bits, a datetime as its text.
#[verifier::external_body]
fn from_toml_value(v: toml::Value) -> TomlValue {
    match v {
        toml::Value::String(s) => TomlValue::String(s),
        toml::Value::Integer(i) => TomlValue::Integer(i),
        toml::Value::Float(f) => TomlValue::Float(f.to_bits()),
        toml::Value::Boolean(b) => TomlValue::Boolean(b),
        toml::Value::Datetime(d) => TomlValue::Datetime(d.to_string()),
        toml::Value::Array(xs) => TomlValue::Array(xs.into_iter().map(from_toml_value).collect()),
        toml::Value::Table(t) => TomlValue::Table(t.into_iter().map(|(k, x)| (k, from_toml_value(x))).collect()),
    }
}

/// Parses a JSON text with `serde_json::from_str` into a
/// `serde_json::Value`, taken into the library's value; on failure, the
/// message of `serde_json`'s error. The contract names the outcome: it is a
/// function of the text alone.
#[verifier::external_body]
pub(crate) fn parse_json_text(text: &str) -> (r: Result<JsonValue, String>)
    ensures
        match r {
            Ok(v) => json_text_parsed(text@) == Ok::<JView, Seq<char>>(v@),
            Err(m) => json_text_parsed(text@) == Err::<JView, Seq<char>>(m@),
        },
{
    match serde_json::from_str::<serde_json::Value>(text) {
        Ok(v) => Ok(from_serde_value(v)),
        Err(e) => Err(e.to_string()),
    }
}

/// Parses a TOML text with `toml::from_str` into a `toml::Value`, taken
/// into the library's value; on failure, the message of `toml`'s error. The
/// contract names the outcome: it is a function of the text alone.
#[verifier::external_body]
pub(crate) fn parse_toml_text(text: &str) -> (r: Result<TomlValue, String>)
    ensures
        match r {
            Ok(v) => toml_text_parsed(text@) == Ok::<TView, Seq<char>>(v@),
            Err(m) => toml_text_parsed(text@) == Err::<TView, Seq<char>>(m@),
        },
{
    match toml::from_str::<toml::Value>(text) {
        Ok(v) => Ok(from_toml_value(v)),
        Err(e) => Err(e.to_string()),
    }
}

/// Parses a YAML text with `serde_yaml::from_str` into a
/// `serde_json::Value`, taken into the library's value; on failure, the
/// message of `serde_yaml`'s error. The contract names the outcome: it is a
/// function of the text alone.
#[verifier::external_body]
pub(crate) fn parse_yaml_text(text: &str) -> (r: Result<JsonValue, String>)
    ensures
        match r {
            Ok(v) => yaml_text_parsed(text@) == Ok::<JView, Seq<char>>(v@),
            Err(m) => yaml_text_parsed(text@) == Err::<JView, Seq<char>>(m@),
        },
{
    match serde_yaml::from_str::<serde_json::Value>(text) {
        Ok(v) => Ok(from_serde_value(v)),
        Err(e) => Err(e.to_string()),
    }
}

} // verus!

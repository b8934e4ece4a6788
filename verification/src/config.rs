//! Reading a node's configuration. The configuration is an open JSON
//! document; every field is looked up by name and may be missing or of
//! another type than hoped for.

use vstd::prelude::*;
use crate::decimal::{decimal_millionths, parse_decimal};
use crate::error::{Failure, PipelineError};
use crate::text::{join, join3};

verus! {

/// What `serde_json` reports when a text is no JSON.
#[verifier::external_type_specification]
#[verifier::external_body]
pub struct ExJsonError(serde_json::Error);

/// The member stored under `key` where `document` is a JSON object that has
/// one.
pub uninterp spec fn json_member(document: serde_json::Value, key: Seq<char>) -> Option<
    serde_json::Value,
>;

/// The text of `value` where it is a JSON string.
pub uninterp spec fn json_string(value: serde_json::Value) -> Option<Seq<char>>;

/// The truth value of `value` where it is a JSON boolean.
pub uninterp spec fn json_bool(value: serde_json::Value) -> Option<bool>;

/// `value` as a signed 64-bit integer where it is a JSON integer in that
/// range.
pub uninterp spec fn json_i64(value: serde_json::Value) -> Option<i64>;

/// `value` as an unsigned 64-bit integer where it is a JSON integer in that
/// range.
pub uninterp spec fn json_u64(value: serde_json::Value) -> Option<u64>;

/// `value` written out as compact JSON text.
pub uninterp spec fn json_text(value: serde_json::Value) -> Seq<char>;

/// `serde_json::Value::get` with a string as index: the member of a JSON
/// object under `key`; `None` for a missing key and for a document that is no
/// object.
#[verifier::external_body]
pub(crate) fn member<'a>(document: &'a serde_json::Value, key: &str) -> (found: Option<&'a serde_json::Value>)
    ensures
        found == match json_member(*document, key@) {
            Some(value) => Some(&value),
            None => None,
        },
{
    document.get(key)
}

/// `serde_json::Value::as_str`: the text of a JSON string, `None` for any
/// other value.
#[verifier::external_body]
pub(crate) fn as_string<'a>(value: &'a serde_json::Value) -> (found: Option<&'a str>)
    ensures
        match found {
            Some(text) => json_string(*value) == Some(text@),
            None => json_string(*value) is None,
        },
{
    value.as_str()
}

/// `serde_json::Value::as_bool`: the truth value of a JSON boolean, `None`
/// for any other value.
#[verifier::external_body]
fn as_flag(value: &serde_json::Value) -> (found: Option<bool>)
    ensures
        found == json_bool(*value),
{
    value.as_bool()
}

/// `serde_json::Value::as_i64`: a JSON integer that fits into `i64`, `None`
/// for any other value.
#[verifier::external_body]
fn as_signed(value: &serde_json::Value) -> (found: Option<i64>)
    ensures
        found == json_i64(*value),
{
    value.as_i64()
}

/// `serde_json::Value::as_u64`: a JSON integer that fits into `u64`, `None`
/// for any other value.
#[verifier::external_body]
pub(crate) fn as_unsigned(value: &serde_json::Value) -> (found: Option<u64>)
    ensures
        found == json_u64(*value),
{
    value.as_u64()
}

/// The values of `value` where it is a JSON array.
pub uninterp spec fn json_elements(value: serde_json::Value) -> Option<Seq<serde_json::Value>>;

/// The document that `text` is the JSON notation of, where it is one.
pub uninterp spec fn json_parsed(text: Seq<char>) -> Option<serde_json::Value>;

/// `serde_json::Value::as_array`: the members of a JSON array, `None` for any
/// other value.
#[verifier::external_body]
pub(crate) fn as_list<'a>(value: &'a serde_json::Value) -> (found: Option<&'a Vec<serde_json::Value>>)
    ensures
        match found {
            Some(list) => json_elements(*value) == Some(list@),
            None => json_elements(*value) is None,
        },
{
    value.as_array()
}

/// `serde_json::from_str` for a `Value`: the document that a JSON text
/// denotes, or the error that names what is wrong with the text.
#[verifier::external_body]
pub(crate) fn parse_document(text: &str) -> (result: Result<serde_json::Value, serde_json::Error>)
    ensures
        match result {
            Ok(document) => json_parsed(text@) == Some(document),
            Err(_) => json_parsed(text@) is None,
        },
{
    serde_json::from_str(text)
}

/// `value` is a JSON object.
pub uninterp spec fn json_is_object(value: serde_json::Value) -> bool;

/// `serde_json::Value::is_object`: whether the value is a JSON object.
#[verifier::external_body]
pub(crate) fn is_object(value: &serde_json::Value) -> (object: bool)
    ensures
        object == json_is_object(*value),
{
    value.is_object()
}

/// `serde_json::Value`'s `Display`: the value as compact JSON text. A number
/// comes out as a decimal literal; no other value's text starts with a digit,
/// a sign or a point.
#[verifier::external_body]
fn rendered(value: &serde_json::Value) -> (text: String)
    ensures
        text@ == json_text(*value),
{
    value.to_string()
}

/// The string stored under `key`.
pub open spec fn string_at(data: serde_json::Value, key: Seq<char>) -> Option<Seq<char>> {
    match json_member(data, key) {
        Some(value) => json_string(value),
        None => None,
    }
}

/// The boolean stored under `key`.
pub open spec fn bool_at(data: serde_json::Value, key: Seq<char>) -> Option<bool> {
    match json_member(data, key) {
        Some(value) => json_bool(value),
        None => None,
    }
}

/// The signed integer stored under `key`.
pub open spec fn i64_at(data: serde_json::Value, key: Seq<char>) -> Option<i64> {
    match json_member(data, key) {
        Some(value) => json_i64(value),
        None => None,
    }
}

/// The unsigned integer stored under `key`.
pub open spec fn u64_at(data: serde_json::Value, key: Seq<char>) -> Option<u64> {
    match json_member(data, key) {
        Some(value) => json_u64(value),
        None => None,
    }
}

/// The number stored under `key`, in millionths.
pub open spec fn millionths_at(data: serde_json::Value, key: Seq<char>) -> Option<i64> {
    match json_member(data, key) {
        Some(value) => decimal_millionths(json_text(value)),
        None => None,
    }
}

/// The string stored under `child` in the object stored under `parent`.
pub open spec fn nested_string_at(
    data: serde_json::Value,
    parent: Seq<char>,
    child: Seq<char>,
) -> Option<Seq<char>> {
    match json_member(data, parent) {
        Some(inner) => string_at(inner, child),
        None => None,
    }
}

/// The failure for a field that is missing or of the wrong type.
pub open spec fn missing(what: Seq<char>) -> Failure {
    Failure::InvalidNodeConfig("Missing or invalid "@ + what)
}

/// `found`, or `fallback` where nothing was found.
pub open spec fn or_default<T>(found: Option<T>, fallback: T) -> T {
    match found {
        Some(value) => value,
        None => fallback,
    }
}

/// Typed access to the fields of a configuration document.
pub struct NodeDataExtractor;

impl NodeDataExtractor {
    fn missing_field(key: &str) -> (error: PipelineError)
        ensures
            error@ == missing(key@),
    {
        PipelineError::InvalidNodeConfig(join("Missing or invalid ", key))
    }

    /// The string stored under `key`.
    pub fn extract_string(data: &serde_json::Value, key: &str) -> (result: Result<
        String,
        PipelineError,
    >)
        ensures
            match result {
                Ok(text) => string_at(*data, key@) == Some(text@),
                Err(error) => string_at(*data, key@) is None && error@ == missing(key@),
            },
    {
        match member(data, key) {
            Some(value) => match as_string(value) {
                Some(text) => Ok(String::from_str(text)),
                None => Err(Self::missing_field(key)),
            },
            None => Err(Self::missing_field(key)),
        }
    }

    /// The string stored under `key`, or `default`.
    pub fn extract_string_or_default(data: &serde_json::Value, key: &str, default: &str) -> (text:
        String)
        ensures
            text@ == or_default(string_at(*data, key@), default@),
    {
        match member(data, key) {
            Some(value) => match as_string(value) {
                Some(text) => String::from_str(text),
                None => String::from_str(default),
            },
            None => String::from_str(default),
        }
    }

    /// The boolean stored under `key`.
    pub fn extract_bool(data: &serde_json::Value, key: &str) -> (result: Result<bool, PipelineError>)
        ensures
            match result {
                Ok(flag) => bool_at(*data, key@) == Some(flag),
                Err(error) => bool_at(*data, key@) is None && error@ == missing(key@),
            },
    {
        match member(data, key) {
            Some(value) => match as_flag(value) {
                Some(flag) => Ok(flag),
                None => Err(Self::missing_field(key)),
            },
            None => Err(Self::missing_field(key)),
        }
    }

    /// The boolean stored under `key`, or `default`.
    pub fn extract_bool_or_default(data: &serde_json::Value, key: &str, default: bool) -> (flag:
        bool)
        ensures
            flag == or_default(bool_at(*data, key@), default),
    {
        match member(data, key) {
            Some(value) => match as_flag(value) {
                Some(flag) => flag,
                None => default,
            },
            None => default,
        }
    }

    /// The signed integer stored under `key`.
    pub fn extract_i64(data: &serde_json::Value, key: &str) -> (result: Result<i64, PipelineError>)
        ensures
            match result {
                Ok(number) => i64_at(*data, key@) == Some(number),
                Err(error) => i64_at(*data, key@) is None && error@ == missing(key@),
            },
    {
        match member(data, key) {
            Some(value) => match as_signed(value) {
                Some(number) => Ok(number),
                None => Err(Self::missing_field(key)),
            },
            None => Err(Self::missing_field(key)),
        }
    }

    /// The signed integer stored under `key`, or `default`.
    pub fn extract_i64_or_default(data: &serde_json::Value, key: &str, default: i64) -> (number:
        i64)
        ensures
            number == or_default(i64_at(*data, key@), default),
    {
        match member(data, key) {
            Some(value) => match as_signed(value) {
                Some(number) => number,
                None => default,
            },
            None => default,
        }
    }

    /// The unsigned integer stored under `key`.
    pub fn extract_u64(data: &serde_json::Value, key: &str) -> (result: Result<u64, PipelineError>)
        ensures
            match result {
                Ok(number) => u64_at(*data, key@) == Some(number),
                Err(error) => u64_at(*data, key@) is None && error@ == missing(key@),
            },
    {
        match member(data, key) {
            Some(value) => match as_unsigned(value) {
                Some(number) => Ok(number),
                None => Err(Self::missing_field(key)),
            },
            None => Err(Self::missing_field(key)),
        }
    }

    /// The unsigned integer stored under `key`, or `default`.
    pub fn extract_u64_or_default(data: &serde_json::Value, key: &str, default: u64) -> (number:
        u64)
        ensures
            number == or_default(u64_at(*data, key@), default),
    {
        match member(data, key) {
            Some(value) => match as_unsigned(value) {
                Some(number) => number,
                None => default,
            },
            None => default,
        }
    }

    /// The number stored under `key`, in millionths and rounded down to a
    /// whole one. A value that is no number counts as missing.
    pub fn extract_millionths(data: &serde_json::Value, key: &str) -> (result: Result<
        i64,
        PipelineError,
    >)
        ensures
            match result {
                Ok(number) => millionths_at(*data, key@) == Some(number),
                Err(error) => millionths_at(*data, key@) is None && error@ == missing(key@),
            },
    {
        match member(data, key) {
            Some(value) => match parse_decimal(rendered(value).as_str()) {
                Some(number) => Ok(number),
                None => Err(Self::missing_field(key)),
            },
            None => Err(Self::missing_field(key)),
        }
    }

    /// The number stored under `key`, in millionths, or `default`.
    pub fn extract_millionths_or_default(data: &serde_json::Value, key: &str, default: i64) -> (number:
        i64)
        ensures
            number == or_default(millionths_at(*data, key@), default),
    {
        match member(data, key) {
            Some(value) => match parse_decimal(rendered(value).as_str()) {
                Some(number) => number,
                None => default,
            },
            None => default,
        }
    }

    /// Whatever is stored under `key`.
    pub fn extract_object<'a>(data: &'a serde_json::Value, key: &str) -> (result: Result<
        &'a serde_json::Value,
        PipelineError,
    >)
        ensures
            match result {
                Ok(inner) => json_member(*data, key@) == Some(*inner),
                Err(error) => json_member(*data, key@) is None && error@ == missing(
                    "object "@ + key@,
                ),
            },
    {
        match member(data, key) {
            Some(inner) => Ok(inner),
            None => {
                let text = join3("Missing or invalid ", "object ", key);
                assert(text@ =~= "Missing or invalid "@ + ("object "@ + key@));
                Err(PipelineError::InvalidNodeConfig(text))
            },
        }
    }

    /// The string stored under `child_key` in the object under `parent_key`.
    pub fn extract_nested_string(data: &serde_json::Value, parent_key: &str, child_key: &str) -> (result:
        Result<String, PipelineError>)
        ensures
            match result {
                Ok(text) => nested_string_at(*data, parent_key@, child_key@) == Some(text@),
                Err(error) => nested_string_at(*data, parent_key@, child_key@) is None && error@
                    == (if json_member(*data, parent_key@) is None {
                    missing("object "@ + parent_key@)
                } else {
                    missing(parent_key@ + "."@ + child_key@)
                }),
            },
    {
        let parent = match Self::extract_object(data, parent_key) {
            Ok(parent) => parent,
            Err(error) => {
                return Err(error);
            },
        };
        match member(parent, child_key) {
            Some(value) => match as_string(value) {
                Some(text) => {
                    return Ok(String::from_str(text));
                },
                None => {},
            },
            None => {},
        }
        let name = join3(parent_key, ".", child_key);
        Err(Self::missing_field(name.as_str()))
    }

    /// The string stored under `child_key` in the object under `parent_key`, or
    /// `default`.
    pub fn extract_nested_string_or_default(
        data: &serde_json::Value,
        parent_key: &str,
        child_key: &str,
        default: &str,
    ) -> (text: String)
        ensures
            text@ == or_default(nested_string_at(*data, parent_key@, child_key@), default@),
    {
        match member(data, parent_key) {
            Some(parent) => Self::extract_string_or_default(parent, child_key, default),
            None => String::from_str(default),
        }
    }
}

} // verus!

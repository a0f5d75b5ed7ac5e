//! The JSON that packet bodies are written in. Writing and reading JSON is left to
//! `serde_json`; what it returns is known here by name only.

use vstd::prelude::*;

verus! {

/// The JSON string literal that `serde_json::to_string` writes for a text.
pub uninterp spec fn json_of_text(text: Seq<char>) -> Seq<char>;

/// The JSON array of numbers that `serde_json::to_string` writes for a run of bytes.
pub uninterp spec fn json_of_bytes(bytes: Seq<u8>) -> Seq<char>;

/// The text that `serde_json` finds under `key` in the JSON object `json`: `None` where
/// `json` is no JSON document, is no object, has no such member, or holds something
/// other than a string there.
pub uninterp spec fn json_text_member(json: Seq<char>, key: Seq<char>) -> Option<Seq<char>>;

/// The bytes that `serde_json` finds under `key` in the JSON object `json`: `None` where
/// `json` is no JSON document, is no object, has no such member, or holds something
/// other than an array of numbers from 0 to 255 there.
pub uninterp spec fn json_bytes_member(json: Seq<char>, key: Seq<char>) -> Option<Seq<u8>>;

/// Calls `serde_json::to_string` on a `str`. Trusted: the result is a function of the
/// text alone, called `json_of_text` here. (For a `str` the call does not fail.)
#[verifier::external_body]
pub(crate) fn write_text(text: &str) -> (json: String)
    ensures
        json@ == json_of_text(text@),
{
    match serde_json::to_string(text) {
        Ok(json) => json,
        Err(_) => String::new(),
    }
}

/// Calls `serde_json::to_string` on a slice of bytes. Trusted: the result is a function
/// of the bytes alone, called `json_of_bytes` here. (For bytes the call does not fail.)
#[verifier::external_body]
pub(crate) fn write_bytes(bytes: &[u8]) -> (json: String)
    ensures
        json@ == json_of_bytes(bytes@),
{
    match serde_json::to_string(bytes) {
        Ok(json) => json,
        Err(_) => String::new(),
    }
}

/// Parses `json` with `serde_json::from_str` into a `serde_json::Value`, looks `key` up
/// with `Value::get` and reads the member with `Value::as_str`. Trusted: the result is a
/// function of the two texts alone, called `json_text_member` here.
#[verifier::external_body]
pub(crate) fn read_text_member(json: &str, key: &str) -> (text: Option<String>)
    ensures
        json_text_member(json@, key@) == match text {
            Some(text) => Some(text@),
            None => None,
        },
{
    let Ok(document) = serde_json::from_str::<serde_json::Value>(json) else { return None };
    match document.get(key) {
        Some(member) => match member.as_str() {
            Some(text) => Some(text.to_string()),
            None => None,
        },
        None => None,
    }
}

/// Parses `json` with `serde_json::from_str` into a `serde_json::Value`, looks `key` up
/// with `Value::get` and reads the member as bytes with `serde_json::from_value`.
/// Trusted: the result is a function of the two texts alone, called `json_bytes_member`
/// here.
#[verifier::external_body]
pub(crate) fn read_bytes_member(json: &str, key: &str) -> (bytes: Option<Vec<u8>>)
    ensures
        json_bytes_member(json@, key@) == match bytes {
            Some(bytes) => Some(bytes@),
            None => None,
        },
{
    let Ok(document) = serde_json::from_str::<serde_json::Value>(json) else { return None };
    match document.get(key) {
        Some(member) => match serde_json::from_value(member.clone()) {
            Ok(bytes) => Some(bytes),
            Err(_) => None,
        },
        None => None,
    }
}

} // verus!

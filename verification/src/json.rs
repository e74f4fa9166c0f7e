//! Looking into JSON texts, by `serde_json`.
//!
//! What a JSON text holds takes a grammar to say. Here it has names only: the functions below are
//! named after what `serde_json` answers, and the rest of the library speaks of those names.
use vstd::prelude::*;

use crate::protocol;
use crate::text;

verus! {

/// `serde_json` reads the text as a JSON value.
pub uninterp spec fn json_valid(json: Seq<char>) -> bool;

/// The value of the text is an object with an entry `key`.
pub uninterp spec fn json_has(json: Seq<char>, key: Seq<char>) -> bool;

/// The string that the entry `key` of the text holds.
pub uninterp spec fn json_text(json: Seq<char>, key: Seq<char>) -> Option<Seq<char>>;

/// The number from 0 to 2^64 - 1 that the entry `key` of the text holds.
pub uninterp spec fn json_number(json: Seq<char>, key: Seq<char>) -> Option<u64>;

/// The items of the array that the entry `key` of the text holds, each as a JSON text.
pub uninterp spec fn json_items(json: Seq<char>, key: Seq<char>) -> Option<Seq<Seq<char>>>;

/// What the entry `key` of the text holds, as a JSON text.
pub uninterp spec fn json_entry(json: Seq<char>, key: Seq<char>) -> Option<Seq<char>>;

/// The string that the text is.
pub uninterp spec fn json_string(json: Seq<char>) -> Option<Seq<char>>;

/// `serde_json::from_str` reads `json` as a `serde_json::Value`: whether it can.
#[verifier::external_body]
pub(crate) fn is_valid(json: &str) -> (r: bool)
    ensures
        r == json_valid(json@),
{
    serde_json::from_str::<serde_json::Value>(json).is_ok()
}

/// `serde_json::Value::get`, on the value that `serde_json::from_str` reads: whether there is an
/// entry `key`. There is none where `json` cannot be read.
#[verifier::external_body]
pub(crate) fn has(json: &str, key: &str) -> (r: bool)
    ensures
        r == json_has(json@, key@),
{
    serde_json::from_str::<serde_json::Value>(json).is_ok_and(|value| value.get(key).is_some())
}

/// `serde_json::Value::as_str`, on the entry `key` of the value that `serde_json::from_str` reads.
/// There is none where `json` cannot be read, has no such entry, or the entry is no string.
#[verifier::external_body]
pub(crate) fn text_at(json: &str, key: &str) -> (r: Option<String>)
    ensures
        protocol::text_of(r) == json_text(json@, key@),
{
    let value = serde_json::from_str::<serde_json::Value>(json).ok()?;
    value.get(key)?.as_str().map(str::to_string)
}

/// `serde_json::Value::as_u64`, on the entry `key` of the value that `serde_json::from_str` reads.
/// There is none where `json` cannot be read, has no such entry, or the entry is no such number.
#[verifier::external_body]
pub(crate) fn number_at(json: &str, key: &str) -> (r: Option<u64>)
    ensures
        r == json_number(json@, key@),
{
    let value = serde_json::from_str::<serde_json::Value>(json).ok()?;
    value.get(key)?.as_u64()
}

/// `serde_json::Value::as_array`, on the entry `key` of the value that `serde_json::from_str`
/// reads, each item written as JSON again by `serde_json::Value::to_string`. There is none where
/// `json` cannot be read, has no such entry, or the entry is no array.
#[verifier::external_body]
pub(crate) fn items_at(json: &str, key: &str) -> (r: Option<Vec<String>>)
    ensures
        match r {
            Some(items) => json_items(json@, key@) == Some(text::views(items@)),
            None => json_items(json@, key@) is None,
        },
{
    let value = serde_json::from_str::<serde_json::Value>(json).ok()?;
    Some(value.get(key)?.as_array()?.iter().map(|item| item.to_string()).collect())
}

/// `serde_json::Value::get`, on the value that `serde_json::from_str` reads, written as JSON again
/// by `serde_json::Value::to_string`. There is none where `json` cannot be read or has no such
/// entry.
#[verifier::external_body]
pub(crate) fn entry_at(json: &str, key: &str) -> (r: Option<String>)
    ensures
        protocol::text_of(r) == json_entry(json@, key@),
{
    let value = serde_json::from_str::<serde_json::Value>(json).ok()?;
    value.get(key).map(|entry| entry.to_string())
}

/// `serde_json::Value::as_str`, on the value that `serde_json::from_str` reads. There is none where
/// `json` cannot be read or is no string.
#[verifier::external_body]
pub(crate) fn string_of(json: &str) -> (r: Option<String>)
    ensures
        protocol::text_of(r) == json_string(json@),
{
    let value = serde_json::from_str::<serde_json::Value>(json).ok()?;
    value.as_str().map(str::to_string)
}

} // verus!

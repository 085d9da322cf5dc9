//! JSON as text. The JSON grammar is `serde_json`'s; this module carries its
//! answers as plain values.
//!
//! A `serde_json::Value` is opaque here, so a name below stands for what a
//! text becomes on its way through the parser and back to plain values, not
//! for one step of it.

use vstd::prelude::*;

verus! {

/// The string under `text_name` and the unsigned integer under
/// `number_name` in the JSON object written `document`, as `serde_json` reads
/// them; `None` for each that is not there, and for both where `document` is
/// no JSON.
pub uninterp spec fn json_members(
    document: Seq<char>,
    text_name: Seq<char>,
    number_name: Seq<char>,
) -> (Option<Seq<char>>, Option<u64>);

/// `text` as `serde_json` writes a JSON string: in quotes, with escapes.
pub uninterp spec fn json_quoted(text: Seq<char>) -> Seq<char>;

/// The compact form in which `serde_json` writes back the JSON value that
/// `body` holds, or `None` where `body` is no JSON.
pub uninterp spec fn json_rewritten(body: Seq<u8>) -> Option<Seq<char>>;

/// The characters of a string, if there is one.
pub open spec fn text_view(text: Option<String>) -> Option<Seq<char>> {
    match text {
        Some(t) => Some(t@),
        None => None,
    }
}

/// Calls `serde_json::from_str` for a `serde_json::Value`, then `Value::get`
/// with each name, `Value::as_str` on the one and `Value::as_u64` on the
/// other. Trusted: the answer depends on the three texts alone, so it has a
/// name, `json_members`; nothing more is claimed of it.
#[verifier::external_body]
pub(crate) fn members(document: &str, text_name: &str, number_name: &str) -> (r: (
    Option<String>,
    Option<u64>,
))
    ensures
        json_members(document@, text_name@, number_name@) == (text_view(r.0), r.1),
{
    match serde_json::from_str::<serde_json::Value>(document) {
        Ok(value) => (
            value.get(text_name).and_then(serde_json::Value::as_str).map(String::from),
            value.get(number_name).and_then(serde_json::Value::as_u64),
        ),
        Err(_) => (None, None),
    }
}

/// Calls `serde_json::to_string` on a string slice. On a string slice the
/// call has no failing path: it writes the escaped text into a byte vector
/// of its own. Trusted: the answer depends on `text` alone, so it has a name,
/// `json_quoted`; nothing more is claimed of it.
#[verifier::external_body]
pub(crate) fn quoted(text: &str) -> (out: String)
    ensures
        out@ == json_quoted(text@),
{
    serde_json::to_string(text).unwrap_or_default()
}

/// Calls `serde_json::from_slice` for a `serde_json::Value` and writes the
/// value back with its `to_string`. Trusted: the answer depends on `body`
/// alone, so it has a name, `json_rewritten`; nothing more is claimed of it.
#[verifier::external_body]
pub(crate) fn rewritten(body: &[u8]) -> (r: Option<String>)
    ensures
        match r {
            Some(out) => json_rewritten(body@) == Some(out@),
            None => json_rewritten(body@) is None,
        },
{
    serde_json::from_slice::<serde_json::Value>(body).ok().map(|value| value.to_string())
}

} // verus!

//! Reading string members out of JSON text (through `serde_json`).

use vstd::prelude::*;

verus! {

/// Name for the string stored under member `key` of the JSON object that
/// `text` parses to: `None` when `text` is not valid JSON, is not an object,
/// has no such member, or the member is not a JSON string.
pub uninterp spec fn json_string_member(text: Seq<char>, key: Seq<char>) -> Option<Seq<char>>;

/// Parses `text` with `serde_json::from_str::<serde_json::Value>` and reads
/// member `key` as a string (`Value::get` then `Value::as_str`). The result is
/// named `json_string_member`; the JSON grammar itself is not restated.
#[verifier::external_body]
pub(crate) fn json_str_member(text: &str, key: &str) -> (r: Option<String>)
    ensures
        match r {
            Some(v) => json_string_member(text@, key@) == Some(v@),
            None => json_string_member(text@, key@) is None,
        },
{
    match serde_json::from_str::<serde_json::Value>(text) {
        Ok(v) => v.get(key).and_then(|m| m.as_str()).map(|m| m.to_string()),
        Err(_) => None,
    }
}

} // verus!

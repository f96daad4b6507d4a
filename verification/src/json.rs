//! Reading JSON text, through `serde_json`.
use vstd::prelude::*;

verus! {

/// Whether `serde_json` parses `body` as a JSON value.
pub uninterp spec fn json_parses(body: Seq<u8>) -> bool;

/// The string member `name` of the JSON object that `body` parses to (`None` when the member
/// is absent or not a string, or the value is no object).
pub uninterp spec fn json_str_field(body: Seq<u8>, name: Seq<char>) -> Option<Seq<char>>;

/// Whether the JSON object that `body` parses to has a member `name`, of any type.
pub uninterp spec fn json_has_field(body: Seq<u8>, name: Seq<char>) -> bool;

/// The text of the error `serde_json` gives for `body`.
pub uninterp spec fn json_error_text(body: Seq<u8>) -> Seq<char>;

/// The member `name` of the JSON object that `body` parses to, when it is an integer that
/// fits in a `u64` (`None` otherwise).
pub uninterp spec fn json_u64_field(body: Seq<u8>, name: Seq<char>) -> Option<u64>;

/// Whether a value stands at the JSON pointer `pointer` in the value that `body` parses to.
pub uninterp spec fn json_has_at(body: Seq<u8>, pointer: Seq<char>) -> bool;

/// The string at the JSON pointer `pointer` in the value that `body` parses to (`None` when
/// nothing stands there or it is not a string).
pub uninterp spec fn json_str_at(body: Seq<u8>, pointer: Seq<char>) -> Option<Seq<char>>;

/// The string member `name` of `body`'s JSON object, when `body` parses.
pub open spec fn str_member(body: Seq<u8>, name: Seq<char>) -> Option<Seq<char>> {
    if json_parses(body) {
        json_str_field(body, name)
    } else {
        None
    }
}

/// Calls `serde_json::from_slice::<serde_json::Value>` on `body` and, when it parses, reads
/// the member `name` if it is a string. The contract names the result ([`str_member`]).
#[verifier::external_body]
pub(crate) fn json_string_member(body: &[u8], name: &str) -> (r: Option<String>)
    ensures
        r.deep_view() == (if json_parses(body@) {
            json_str_field(body@, name@)
        } else {
            None
        }),
{
    match serde_json::from_slice::<serde_json::Value>(body) {
        Ok(value) => match value.get(name) {
            Some(serde_json::Value::String(s)) => Some(s.clone()),
            _ => None,
        },
        Err(_) => None,
    }
}

/// Calls `serde_json::from_slice::<serde_json::Value>` on `body` and, when it parses, tells
/// whether the value is an object with a member `name`. The contract names the result.
#[verifier::external_body]
pub(crate) fn json_has_member(body: &[u8], name: &str) -> (r: bool)
    ensures
        r == (json_parses(body@) && json_has_field(body@, name@)),
{
    match serde_json::from_slice::<serde_json::Value>(body) {
        Ok(value) => value.get(name).is_some(),
        Err(_) => false,
    }
}

/// Calls `serde_json::from_slice::<serde_json::Value>` on `body`: `None` when it parses, else
/// the text of the error. The contract names the result.
#[verifier::external_body]
pub(crate) fn json_parse_error(body: &[u8]) -> (r: Option<String>)
    ensures
        r is None <==> json_parses(body@),
        r matches Some(e) ==> e@ == json_error_text(body@),
{
    match serde_json::from_slice::<serde_json::Value>(body) {
        Ok(_) => None,
        Err(error) => Some(error.to_string()),
    }
}

/// Calls `serde_json::from_slice::<serde_json::Value>` on `body` and, when it parses, reads
/// the member `name` with `Value::as_u64`. The contract names the result.
#[verifier::external_body]
pub(crate) fn json_u64_member(body: &[u8], name: &str) -> (r: Option<u64>)
    ensures
        r == (if json_parses(body@) {
            json_u64_field(body@, name@)
        } else {
            None
        }),
{
    match serde_json::from_slice::<serde_json::Value>(body) {
        Ok(value) => value.get(name).and_then(serde_json::Value::as_u64),
        Err(_) => None,
    }
}

/// Calls `serde_json::from_slice::<serde_json::Value>` on `body` and, when it parses, tells
/// whether `Value::pointer` finds a value at `pointer`. The contract names the result.
#[verifier::external_body]
pub(crate) fn json_has_pointer(body: &[u8], pointer: &str) -> (r: bool)
    ensures
        r == (json_parses(body@) && json_has_at(body@, pointer@)),
{
    match serde_json::from_slice::<serde_json::Value>(body) {
        Ok(value) => value.pointer(pointer).is_some(),
        Err(_) => false,
    }
}

/// Calls `serde_json::from_slice::<serde_json::Value>` on `body` and, when it parses, reads
/// the string that `Value::pointer` finds at `pointer`. The contract names the result.
#[verifier::external_body]
pub(crate) fn json_str_pointer(body: &[u8], pointer: &str) -> (r: Option<String>)
    ensures
        r.deep_view() == (if json_parses(body@) {
            json_str_at(body@, pointer@)
        } else {
            None
        }),
{
    match serde_json::from_slice::<serde_json::Value>(body) {
        Ok(value) => value.pointer(pointer).and_then(serde_json::Value::as_str).map(str::to_string),
        Err(_) => None,
    }
}

} // verus!

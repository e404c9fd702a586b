//! The decode boundary for inbound frames. A frame's text is interpreted by
//! serde_json; what the protocol logic reads out of it — the raw JSON text of
//! a named field, or a field's string value — is a function of the frame's
//! text alone, so each extraction is given a name here and the verified
//! handler's contracts speak of those names.

use vstd::prelude::*;

verus! {

/// The raw JSON text (compact form) of field `key`, when `text` parses as a
/// JSON object that has that field; `None` when `text` is not valid JSON, not
/// an object, or lacks the field.
pub uninterp spec fn json_field_of(text: Seq<char>, key: Seq<char>) -> Option<Seq<char>>;

/// The string value of field `key`, when `text` parses as a JSON object whose
/// field `key` holds a JSON string; `None` otherwise.
pub uninterp spec fn json_string_field_of(text: Seq<char>, key: Seq<char>) -> Option<Seq<char>>;

/// The view of an optional owned string.
pub open spec fn opt_text(o: &Option<String>) -> Option<Seq<char>> {
    match o {
        Some(s) => Some(s@),
        None => None,
    }
}

/// Relies on serde_json's `from_str`, `Value::is_object`, `Value::get` and the
/// `Display` of `Value` (compact JSON): reads the raw JSON text of one field
/// of a JSON object, which depends on the inbound text alone.
#[verifier::external_body]
pub(crate) fn json_field(text: &str, key: &str) -> (r: Option<String>)
    ensures
        opt_text(&r) == json_field_of(text@, key@),
{
    let v: serde_json::Value = match serde_json::from_str(text) {
        Ok(v) => v,
        Err(_) => return None,
    };
    if !v.is_object() {
        return None;
    }
    v.get(key).map(|f| f.to_string())
}

/// Relies on serde_json's `from_str`, `Value::is_object`, `Value::get` and
/// `Value::as_str`: reads the string value of one field of a JSON object,
/// which depends on the inbound text alone.
#[verifier::external_body]
pub(crate) fn json_string_field(text: &str, key: &str) -> (r: Option<String>)
    ensures
        opt_text(&r) == json_string_field_of(text@, key@),
{
    let v: serde_json::Value = match serde_json::from_str(text) {
        Ok(v) => v,
        Err(_) => return None,
    };
    if !v.is_object() {
        return None;
    }
    v.get(key).and_then(|f| f.as_str()).map(|s| s.to_string())
}

} // verus!

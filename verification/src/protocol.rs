//! The message protocol handler: classify one decoded inbound frame by its
//! `type` field and, for `user_update`, construct the outbound broadcast
//! envelope. The envelope always carries exactly the fields `type`, `data`
//! and `timestamp`; `data` defaults to an empty object and `timestamp` to the
//! hub's current UTC time in RFC 3339 form; every other inbound field is
//! dropped. Any other `type`, or none, is accepted and ignored.

use vstd::prelude::*;
use vstd::string::*;
use crate::json::{json_field, json_field_of, json_string_field, json_string_field_of, opt_text};

verus! {

/// The string value of an inbound frame's `type` field, if any.
pub open spec fn type_field_of(text: Seq<char>) -> Option<Seq<char>> {
    json_string_field_of(text, ("type")@)
}

/// The raw JSON text of an inbound frame's `data` field, if any.
pub open spec fn data_field_of(text: Seq<char>) -> Option<Seq<char>> {
    json_field_of(text, ("data")@)
}

/// The raw JSON text of an inbound frame's `timestamp` field, if any.
pub open spec fn ts_field_of(text: Seq<char>) -> Option<Seq<char>> {
    json_field_of(text, ("timestamp")@)
}

/// Whether an inbound frame asks for a broadcast: its `type` field holds the
/// one string with defined broadcast semantics, `user_update`.
pub open spec fn is_update(text: Seq<char>) -> bool {
    type_field_of(text) == Some(("user_update")@)
}

/// A character that may stand inside a JSON string without escaping:
/// printable ASCII other than the quote and the backslash.
pub open spec fn json_safe_char(c: char) -> bool {
    0x20 <= (c as u32) <= 0x7e && c != '"' && c != '\\'
}

pub open spec fn json_safe_text(s: Seq<char>) -> bool {
    forall|i: int| 0 <= i < s.len() ==> json_safe_char(#[trigger] s[i])
}

/// A character RFC 3339 output is drawn from: a decimal digit or one of the
/// six marks `-`, `:`, `T`, `.`, `+`.
pub open spec fn rfc3339_char(c: char) -> bool {
    ||| ('0' as u32) <= (c as u32) <= ('9' as u32)
    ||| c == '-'
    ||| c == ':'
    ||| c == 'T'
    ||| c == '.'
    ||| c == '+'
}

pub open spec fn rfc3339_text(s: Seq<char>) -> bool {
    forall|i: int| 0 <= i < s.len() ==> rfc3339_char(#[trigger] s[i])
}

/// RFC 3339 output needs no escaping inside a JSON string: its characters
/// are printable ASCII and none is the quote or the backslash.
pub proof fn lemma_rfc3339_text_is_json_safe(s: Seq<char>)
    requires
        rfc3339_text(s),
    ensures
        json_safe_text(s),
{
    assert forall|i: int| 0 <= i < s.len() implies json_safe_char(#[trigger] s[i]) by {
        assert(rfc3339_char(s[i]));
    }
}

/// `s` wrapped in quotes: the JSON string for `s`, when `s` needs no escapes.
pub open spec fn quote_text(s: Seq<char>) -> Seq<char> {
    ("\"")@ + s + ("\"")@
}

/// The echoed timestamp when the frame carried one, else the hub's own `now`
/// rendered as a JSON string.
pub open spec fn ts_or_quoted(ts: Option<Seq<char>>, now: Seq<char>) -> Seq<char> {
    match ts {
        Some(t) => t,
        None => quote_text(now),
    }
}

/// The outbound broadcast envelope: exactly the fields `type`, `data` and
/// `timestamp`, with `data` defaulted to an empty object when absent.
pub open spec fn payload_text(data: Option<Seq<char>>, ts: Seq<char>) -> Seq<char> {
    ("{\"type\":\"user_update\",\"data\":")@ + (match data {
        Some(d) => d,
        None => ("{}")@,
    }) + (",\"timestamp\":")@ + ts + ("}")@
}

/// Relies on chrono's `Utc::now().to_rfc3339()`: the current UTC time in
/// RFC 3339 form, e.g. `2026-01-07T12:30:09.453+00:00`. Its writer emits
/// nothing but decimal digits and the marks `-`, `:`, `T`, `.`, `+` (the
/// sign included for out-of-range years).
#[verifier::external_body]
pub(crate) fn now_rfc3339() -> (r: String)
    ensures
        rfc3339_text(r@),
{
    chrono::Utc::now().to_rfc3339()
}

/// Whether a decoded `type` field selects the broadcast path.
pub fn is_update_type(t: &Option<String>) -> (b: bool)
    ensures
        b == (opt_text(t) == Some(("user_update")@)),
{
    match t {
        Some(s) => {
            let target = String::from_str("user_update");
            *s == target
        },
        None => false,
    }
}

/// Build the outbound envelope from the echoed fields and the hub's clock.
pub fn build_payload(data: &Option<String>, ts: &Option<String>, now: &str) -> (r: String)
    ensures
        r@ == payload_text(opt_text(data), ts_or_quoted(opt_text(ts), now@)),
{
    let mut out = String::from_str("{\"type\":\"user_update\",\"data\":");
    match data {
        Some(d) => out.append(d.as_str()),
        None => out.append("{}"),
    };
    out.append(",\"timestamp\":");
    match ts {
        Some(t) => out.append(t.as_str()),
        None => {
            out.append("\"");
            out.append(now);
            out.append("\"");
        },
    };
    out.append("}");
    proof {
        assert(out@ =~= payload_text(opt_text(data), ts_or_quoted(opt_text(ts), now@)));
    }
    out
}

/// Decide one inbound text frame: `None` for a frame that is not a
/// `user_update` object — it is accepted and ignored — and the outbound
/// envelope to fan out otherwise. `now` is the hub clock reading used when
/// the frame carries no `timestamp` of its own.
pub fn plan_frame(text: &str, now: &str) -> (r: Option<String>)
    ensures
        r is Some <==> is_update(text@),
        is_update(text@) ==> (r matches Some(p) && p@ == payload_text(
            data_field_of(text@),
            ts_or_quoted(ts_field_of(text@), now@),
        )),
{
    let t = json_string_field(text, "type");
    if !is_update_type(&t) {
        return None;
    }
    let data = json_field(text, "data");
    let ts = json_field(text, "timestamp");
    Some(build_payload(&data, &ts, now))
}

} // verus!

use vstd::prelude::*;

use crate::error::{api_error_from_response, api_error_message, error_code_of, ApiError};
use crate::json::{opt_view, Json, JsonNumber, JsonV};
use serde_json::Value;
use crate::text::{owned, parse_i64, parse_i64_str, strip_trailing, strip_trailing_str};

verus! {

broadcast use vstd::string::group_string_axioms;

/// The full URL of `path` under `base_url` (trailing `/` of the base dropped).
pub fn request_url(base_url: &str, path: &str) -> (r: String)
    ensures
        r@ == strip_trailing(base_url@, '/') + path@,
{
    let mut url = strip_trailing_str(base_url, '/');
    url.append(path);
    url
}

/// 2xx.
pub open spec fn is_success_status(status: u16) -> bool {
    200 <= status <= 299
}

/// The answer to a finished attempt: the decoded body on 2xx, otherwise the
/// typed API error for that status and body.
pub fn finish_response(status: u16, data: Json, request_id: String) -> (r: Result<Json, ApiError>)
    ensures
        match r {
            Ok(d) => is_success_status(status) && d@ == data@,
            Err(e) => {
                &&& !is_success_status(status)
                &&& e.status == status
                &&& e.message@ == api_error_message(status, data@)
                &&& opt_view(e.code) == error_code_of(data@)
                &&& e.body@ == data@
                &&& e.request_id@ == request_id@
            },
        },
{
    if 200 <= status && status <= 299 {
        Ok(data)
    } else {
        Err(api_error_from_response(status, data, request_id))
    }
}

/// An integer metering header (`None` when absent or not an `i64`).
pub fn header_i64(raw: Option<&str>) -> (r: Option<i64>)
    ensures
        r == match raw {
            Some(s) => parse_i64(s@),
            None => None,
        },
{
    match raw {
        Some(s) => parse_i64_str(s),
        None => None,
    }
}

/// A text header, empty when absent.
pub fn header_text(raw: Option<&str>) -> (r: String)
    ensures
        r@ == match raw {
            Some(s) => s@,
            None => Seq::<char>::empty(),
        },
{
    match raw {
        Some(s) => owned(s),
        None => String::new(),
    }
}

/// ASCII white space as `u8::is_ascii_whitespace` has it: space, tab,
/// line feed, form feed, carriage return.
pub open spec fn is_ascii_space_byte(b: u8) -> bool {
    b == 0x20 || b == 0x09 || b == 0x0A || b == 0x0C || b == 0x0D
}

/// A body with nothing but ASCII white space decodes to JSON `null`.
pub fn is_blank(raw: &[u8]) -> (r: bool)
    ensures
        r == forall|i: int| 0 <= i < raw@.len() ==> is_ascii_space_byte(#[trigger] raw@[i]),
{
    let mut i: usize = 0;
    while i < raw.len()
        invariant
            i <= raw.len(),
            forall|j: int| 0 <= j < i ==> is_ascii_space_byte(#[trigger] raw@[j]),
        decreases raw.len() - i,
    {
        let b = raw[i];
        if !(b == 0x20 || b == 0x09 || b == 0x0A || b == 0x0C || b == 0x0D) {
            return false;
        }
        i = i + 1;
    }
    true
}

/// `serde_json::Value`, carried through opaquely.
#[verifier::external_type_specification]
#[verifier::external_body]
pub struct ExJsonValue(serde_json::Value);

/// What `serde_json::from_slice::<serde_json::Value>` reads from `raw`,
/// in the library's JSON model (`None` when the bytes are not JSON).
pub uninterp spec fn json_from_bytes(raw: Seq<u8>) -> Option<JsonV>;

/// What `String::from_utf8_lossy` makes of `raw`.
pub uninterp spec fn utf8_lossy_text(raw: Seq<u8>) -> Seq<char>;

/// A `serde_json::Value` in the library's JSON model, variant by variant
/// (integers as `PosInt` / `NegInt`, other numbers by their `f64` bits).
/// Claims nothing; its use is covered by the claim of `parse_json_bytes`.
#[verifier::external_body]
fn json_of_value(v: &Value) -> Json {
    match v {
        Value::Null => Json::Null,
        Value::Bool(b) => Json::Bool(*b),
        Value::Number(n) => Json::Number(match (n.as_u64(), n.as_i64()) {
            (Some(u), _) => JsonNumber::PosInt(u),
            (None, Some(i)) => JsonNumber::NegInt(i),
            _ => JsonNumber::Float(n.as_f64().unwrap_or_default().to_bits()),
        }),
        Value::String(t) => Json::Text(t.clone()),
        Value::Array(a) => Json::Array(a.iter().map(json_of_value).collect()),
        Value::Object(m) => Json::Object(m.iter().map(|(k, x)| (k.clone(), json_of_value(x))).collect()),
    }
}

/// `serde_json::from_slice::<serde_json::Value>`: claimed to give the JSON
/// document `raw` holds, as the name `json_from_bytes` of `raw`, and `None`
/// exactly when the bytes are not one JSON document. What that document is
/// for given bytes is left to serde_json and not stated.
#[verifier::external_body]
fn parse_json_bytes(raw: &[u8]) -> (r: Option<Json>)
    ensures
        match r {
            Some(j) => json_from_bytes(raw@) == Some(j@),
            None => json_from_bytes(raw@) is None,
        },
{
    match serde_json::from_slice::<Value>(raw) {
        Ok(v) => Some(json_of_value(&v)),
        Err(_) => None,
    }
}

/// `String::from_utf8_lossy`: claimed to give the name `utf8_lossy_text` of
/// `raw` (the UTF-8 text with each invalid sequence replaced by U+FFFD), and,
/// on valid UTF-8, exactly the text those bytes encode. How invalid
/// sequences are replaced is not stated.
#[verifier::external_body]
fn utf8_lossy(raw: &[u8]) -> (r: String)
    ensures
        r@ == utf8_lossy_text(raw@),
        vstd::utf8::valid_utf8(raw@) ==> r@ == vstd::utf8::decode_utf8(raw@),
{
    String::from_utf8_lossy(raw).into_owned()
}

/// What a non-blank body decodes to, given what serde_json read from it:
/// the document, or, when the bytes are not JSON, their text.
pub open spec fn body_after_parse(raw: Seq<u8>, parsed: Option<JsonV>) -> JsonV {
    match parsed {
        Some(j) => j,
        None => JsonV::Text(utf8_lossy_text(raw)),
    }
}

/// What a response body decodes to: `null` when blank, otherwise the JSON
/// document it holds, or else its text.
pub open spec fn decoded_body(raw: Seq<u8>) -> JsonV {
    if forall|i: int| 0 <= i < raw.len() ==> is_ascii_space_byte(#[trigger] raw[i]) {
        JsonV::Null
    } else {
        body_after_parse(raw, json_from_bytes(raw))
    }
}

/// Finishes decoding a non-blank body from the parse result `parsed`: the
/// parsed document when there is one, otherwise the body's text.
pub fn body_from_parse(raw: &[u8], parsed: Option<Json>) -> (r: Json)
    ensures
        r@ == body_after_parse(
            raw@,
            match parsed {
                Some(j) => Some(j@),
                None => None,
            },
        ),
        parsed is None && vstd::utf8::valid_utf8(raw@) ==> r@ == JsonV::Text(
            vstd::utf8::decode_utf8(raw@),
        ),
{
    match parsed {
        Some(j) => j,
        None => Json::Text(utf8_lossy(raw)),
    }
}

/// Decodes a raw response body.
pub fn decode_body(raw: &[u8]) -> (r: Json)
    ensures
        r@ == decoded_body(raw@),
{
    if is_blank(raw) {
        return Json::Null;
    }
    let parsed = parse_json_bytes(raw);
    body_from_parse(raw, parsed)
}

} // verus!

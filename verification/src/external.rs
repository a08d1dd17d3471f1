//! The calls into `serde_json` and into the parts of std that vstd does not
//! specify. Each contract here is believed, not proved.
use crate::json::{JsonValue, JsonView};
use crate::text::decimal;
use vstd::prelude::*;
use vstd::utf8::{decode_utf8, valid_utf8};

verus! {

/// `serde_json::Value`, carried only inside the calls below.
#[verifier::external_type_specification]
#[verifier::external_body]
pub struct ExSerdeJsonValue(serde_json::Value);

/// What `serde_json::from_str::<serde_json::Value>` makes of a text: the
/// document, or the `Display` text of its error.
pub uninterp spec fn json_parse(text: Seq<char>) -> Result<JsonView, Seq<char>>;

/// What `serde_json::from_slice::<serde_json::Value>` makes of some bytes:
/// the document, or the `Display` text of its error.
pub uninterp spec fn json_parse_bytes(bytes: Seq<u8>) -> Result<JsonView, Seq<char>>;

/// What `serde_json::to_vec` writes for a document: its compact JSON bytes,
/// or the `Display` text of an error.
pub uninterp spec fn json_encode(v: JsonView) -> Result<Seq<u8>, Seq<char>>;

/// The `Display` text of the `Utf8Error` that `std::str::from_utf8` returns
/// for bytes that are not UTF-8.
pub uninterp spec fn utf8_error_text(bytes: Seq<u8>) -> Seq<char>;

/// What `str::to_lowercase` makes of a text (Unicode lowercase mapping).
pub uninterp spec fn lowercase(s: Seq<char>) -> Seq<char>;

/// `<str as PartialEq>::eq`: two string slices are equal when they hold the
/// same characters.
#[verifier::external_body]
pub(crate) fn text_eq(a: &str, b: &str) -> (r: bool)
    ensures
        r == (a@ == b@),
{
    a == b
}

/// `std::str::from_utf8`: succeeds exactly on valid UTF-8 and then holds the
/// decoded characters; the error's text is named, not stated.
#[verifier::external_body]
pub(crate) fn utf8_text(bytes: &[u8]) -> (r: Result<String, String>)
    ensures
        r is Ok <==> valid_utf8(bytes@),
        r matches Ok(s) ==> s@ == decode_utf8(bytes@),
        r matches Err(e) ==> e@ == utf8_error_text(bytes@),
{
    match std::str::from_utf8(bytes) {
        Ok(s) => Ok(s.to_string()),
        Err(e) => Err(e.to_string()),
    }
}

/// `<usize as ToString>::to_string`: the decimal numeral of `n`.
#[verifier::external_body]
pub(crate) fn decimal_text(n: usize) -> (r: String)
    ensures
        r@ == decimal(n as nat),
{
    n.to_string()
}

/// `str::to_lowercase`; the mapping is named, not stated.
#[verifier::external_body]
pub(crate) fn to_lowercase(s: &str) -> (r: String)
    ensures
        r@ == lowercase(s@),
{
    s.to_lowercase()
}

/// `serde_json::from_str::<serde_json::Value>`, with the document taken over
/// into a `JsonValue`; the result is named by `json_parse`.
#[verifier::external_body]
pub(crate) fn parse_json_text(text: &str) -> (r: Result<JsonValue, String>)
    ensures
        match r {
            Ok(v) => json_parse(text@) == Ok::<JsonView, Seq<char>>(v@),
            Err(e) => json_parse(text@) == Err::<JsonView, Seq<char>>(e@),
        },
{
    match serde_json::from_str::<serde_json::Value>(text) {
        Ok(v) => Ok(json_from_serde(v)),
        Err(e) => Err(e.to_string()),
    }
}

/// `serde_json::from_slice::<serde_json::Value>`, with the document taken
/// over into a `JsonValue`; the result is named by `json_parse_bytes`.
#[verifier::external_body]
pub(crate) fn parse_json_bytes(bytes: &[u8]) -> (r: Result<JsonValue, String>)
    ensures
        match r {
            Ok(v) => json_parse_bytes(bytes@) == Ok::<JsonView, Seq<char>>(v@),
            Err(e) => json_parse_bytes(bytes@) == Err::<JsonView, Seq<char>>(e@),
        },
{
    match serde_json::from_slice::<serde_json::Value>(bytes) {
        Ok(v) => Ok(json_from_serde(v)),
        Err(e) => Err(e.to_string()),
    }
}

/// `serde_json::to_vec` of a document handed over as a `serde_json::Value`;
/// the result is named by `json_encode`.
#[verifier::external_body]
pub(crate) fn encode_json(v: &JsonValue) -> (r: Result<Vec<u8>, String>)
    ensures
        match r {
            Ok(b) => json_encode(v@) == Ok::<Seq<u8>, Seq<char>>(b@),
            Err(e) => json_encode(v@) == Err::<Seq<u8>, Seq<char>>(e@),
        },
{
    match json_to_serde(v) {
        Ok(value) => serde_json::to_vec(&value).map_err(|e| e.to_string()),
        Err(e) => Err(e),
    }
}

/// Takes a `serde_json::Value` over into a `JsonValue`, one node for one node;
/// a number keeps the text that `serde_json` writes for it.
#[verifier::external_body]
fn json_from_serde(v: serde_json::Value) -> JsonValue {
    match v {
        serde_json::Value::Null => JsonValue::Null,
        serde_json::Value::Bool(b) => JsonValue::Bool(b),
        serde_json::Value::Number(n) => JsonValue::Number(n.to_string()),
        serde_json::Value::String(s) => JsonValue::Str(s),
        serde_json::Value::Array(a) => JsonValue::Array(a.into_iter().map(json_from_serde).collect()),
        serde_json::Value::Object(m) => JsonValue::Object(
            m.into_iter().map(|(k, x)| (k, json_from_serde(x))).collect(),
        ),
    }
}

/// Takes a `JsonValue` over into a `serde_json::Value`, one node for one node;
/// a number's text is read back with `serde_json::Number`'s `FromStr`.
#[verifier::external_body]
fn json_to_serde(v: &JsonValue) -> Result<serde_json::Value, String> {
    Ok(match v {
        JsonValue::Null => serde_json::Value::Null,
        JsonValue::Bool(b) => serde_json::Value::Bool(*b),
        JsonValue::Number(n) => serde_json::Value::Number(n.parse().map_err(|e: serde_json::Error| e.to_string())?),
        JsonValue::Str(s) => serde_json::Value::String(s.clone()),
        JsonValue::Array(items) => serde_json::Value::Array(items.iter().map(json_to_serde).collect::<Result<_, _>>()?),
        JsonValue::Object(fields) => serde_json::Value::Object(
            fields.iter().map(|(k, x)| json_to_serde(x).map(|y| (k.clone(), y))).collect::<Result<_, _>>()?,
        ),
    })
}

} // verus!

//! Trusted boundary around `serde_json` and UTF-8 text decoding.
//!
//! Tool-call arguments and streamed event payloads are JSON text. The library
//! carries structured argument values as opaque `serde_json::Value`s and
//! reaches the encoder and decoder only through the wrappers below; their
//! results are named by uninterpreted spec functions, since what a JSON codec
//! returns depends on its input alone but cannot be restated here in a few
//! lines.

use vstd::prelude::*;

verus! {

#[verifier::external_type_specification]
#[verifier::external_body]
pub struct ExJsonValue(serde_json::Value);

/// Relies on `serde_json::Value`'s `Clone`: derived message clones duplicate
/// the argument payload; nothing is assumed here about the copy.
pub assume_specification[ <serde_json::Value as Clone>::clone ](v: &serde_json::Value) -> (r:
    serde_json::Value);

/// The JSON text `serde_json::to_string` produces for a value.
pub uninterp spec fn json_text_of(v: serde_json::Value) -> Seq<char>;

/// The value `serde_json::from_str::<Value>` yields for a text, `None` where
/// the text is not valid JSON — or is valid but nested beyond the parser's
/// recursion limit, which the serializer does not enforce.
pub uninterp spec fn json_parsed(s: Seq<char>) -> Option<serde_json::Value>;

/// Whether a value's JSON text parses back to the value itself. This holds
/// of every value the parser can produce: such a value fits under the
/// parser's recursion limit, and this build enables serde_json's
/// `float_roundtrip` feature, so the shortest-form number texts the
/// serializer emits re-parse to the same floats. It does not hold of every
/// value a caller can build: one nested deeper than the parser's limit
/// serializes to text the parser rejects.
pub uninterp spec fn json_roundtrips(v: serde_json::Value) -> bool;

/// The node `serde_json::Value::pointer` finds for a JSON-pointer path.
pub uninterp spec fn json_pointed(v: serde_json::Value, pointer: Seq<char>) -> Option<
    serde_json::Value,
>;

/// The text `serde_json::Value::as_str` returns: `Some` exactly on string
/// nodes.
pub uninterp spec fn json_str_of(v: serde_json::Value) -> Option<Seq<char>>;

/// The text `String::from_utf8_lossy` decodes from a byte sequence.
pub uninterp spec fn lossy_text_of(bytes: Seq<u8>) -> Seq<char>;

/// Relies on `serde_json::to_string` over a `Value`: the text depends on the
/// value alone (object keys are kept ordered), and serializing a `Value`
/// does not fail. Parsing the produced text gives an equal value back only
/// for a value the parser accepts at all — the serializer has no depth
/// limit, the parser does — so the round trip is stated under
/// `json_roundtrips`.
#[verifier::external_body]
pub fn json_to_text(v: &serde_json::Value) -> (r: String)
    ensures
        r@ == json_text_of(*v),
        json_roundtrips(*v) ==> json_parsed(r@) == Some(*v),
{
    serde_json::to_string(v).unwrap_or_default()
}

/// Relies on `serde_json::from_str::<Value>`: the result depends on the text
/// alone; a text that is not valid JSON, or is nested beyond the parser's
/// recursion limit, is reported as an error. A value the parser produced
/// fits under that limit, and with the `float_roundtrip` feature this build
/// enables, number parsing is correctly rounded, so the value's own
/// shortest-form text parses back to it.
#[verifier::external_body]
pub fn json_from_text(s: &str) -> (r: Option<serde_json::Value>)
    ensures
        r == json_parsed(s@),
        r matches Some(v) ==> json_roundtrips(v),
{
    serde_json::from_str(s).ok()
}

/// Relies on `serde_json::Value::Null` serializing to the text `null`, which
/// parses back to it; this is the value the parser falls back to for
/// undecodable tool-call arguments.
#[verifier::external_body]
pub fn json_null() -> (r: serde_json::Value)
    ensures
        json_text_of(r) == "null"@,
        json_roundtrips(r),
{
    serde_json::Value::Null
}

/// Relies on `serde_json::Value::pointer`: the node found depends on the
/// value and the path alone.
#[verifier::external_body]
pub fn json_pointer<'a>(v: &'a serde_json::Value, pointer: &str) -> (r: Option<
    &'a serde_json::Value,
>)
    ensures
        r is Some <==> json_pointed(*v, pointer@) is Some,
        r matches Some(node) ==> json_pointed(*v, pointer@) == Some(*node),
{
    v.pointer(pointer)
}

/// Relies on `serde_json::Value::as_str`: `Some` exactly when the node is a
/// JSON string, and then the string itself.
#[verifier::external_body]
pub fn json_as_str<'a>(v: &'a serde_json::Value) -> (r: Option<&'a str>)
    ensures
        r is Some <==> json_str_of(*v) is Some,
        r matches Some(s) ==> json_str_of(*v) == Some(s@),
{
    v.as_str()
}

/// Relies on `String::from_utf8_lossy`: the text depends on the bytes alone.
#[verifier::external_body]
pub fn utf8_lossy(bytes: &[u8]) -> (r: String)
    ensures
        r@ == lossy_text_of(bytes@),
{
    String::from_utf8_lossy(bytes).into_owned()
}

} // verus!

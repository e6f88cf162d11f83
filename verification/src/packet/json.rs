//! JSON bodies, through `serde_json`.
//!
//! Reading and writing JSON is not proved here. Each call stands in a small
//! function whose contract names what the crate answers for given bytes or
//! text.

use vstd::prelude::*;

verus! {

/// A JSON value of `serde_json`, opaque to the verifier.
#[verifier::external_type_specification]
#[verifier::external_body]
pub struct ExJsonValue(serde_json::Value);

/// The error type of `serde_json`, opaque to the verifier.
#[verifier::external_type_specification]
#[verifier::external_body]
pub struct ExJsonError(serde_json::Error);

/// Whether `serde_json` reads `bytes` as one JSON value and nothing after it
/// but white space.
pub uninterp spec fn is_json(bytes: Seq<u8>) -> bool;

/// The JSON string literal that `serde_json` writes for `text`: the text
/// between double quotes, UTF-8 encoded, with escapes where JSON needs them.
pub uninterp spec fn json_string(text: Seq<char>) -> Seq<u8>;

/// Reads `bytes` as a JSON value with `serde_json::from_slice`.
///
/// Trusted: a value comes back exactly where `is_json(bytes)`.
#[verifier::external_body]
pub(crate) fn json_from_slice(bytes: &[u8]) -> (r: Result<serde_json::Value, serde_json::Error>)
    ensures
        r is Ok <==> is_json(bytes@),
{
    serde_json::from_slice(bytes)
}

/// Writes `text` as a JSON string literal with `serde_json::to_vec`.
///
/// Trusted: writing a string into a vector reports no error, and the bytes
/// that come back are `json_string(text)`.
#[verifier::external_body]
pub(crate) fn json_quote(text: &str) -> (r: Result<Vec<u8>, serde_json::Error>)
    ensures
        r is Ok,
        r matches Ok(bytes) ==> bytes@ == json_string(text@),
{
    serde_json::to_vec(text)
}

} // verus!

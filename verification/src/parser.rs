//! JSON documents: parsing, and the fault of an input that is refused.

use vstd::prelude::*;
use vstd::slice::slice_to_vec;
use vstd::utf8::valid_utf8;
use crate::error::HttpClientError;

verus! {

/// A parsed JSON document, `simd_json::OwnedValue`. It is carried through
/// and never looked into.
#[verifier::external_type_specification]
#[verifier::external_body]
pub struct ExOwnedValue(simd_json::OwnedValue);

/// The error of a document that does not parse, `simd_json::Error`.
#[verifier::external_type_specification]
#[verifier::external_body]
pub struct ExJsonError(simd_json::Error);

/// Whether `bytes` is a JSON document that the parser accepts.
pub uninterp spec fn json_well_formed(bytes: Seq<u8>) -> bool;

/// Parses a JSON document with `simd_json::to_owned_value`, which rewrites
/// the buffer while it reads it.
///
/// Assumed of that function: whether it accepts a document depends on the
/// bytes of the document alone. Nothing is claimed of the value it builds,
/// whose objects are hashed with a seed of their own, nor of what it leaves
/// in the buffer.
#[verifier::external_body]
fn to_owned_value(bytes: &mut Vec<u8>) -> (r: Result<simd_json::OwnedValue, simd_json::Error>)
    ensures
        r.is_ok() == json_well_formed(old(bytes)@),
{
    simd_json::to_owned_value(bytes.as_mut_slice())
}

/// Parses raw bytes into a JSON value. The input is left untouched: the parser
/// works on a copy. The schema hint is accepted and not consulted.
pub fn parse_json_with_schema_bytes(json: &[u8], _schema: Option<&str>) -> (r: Result<
    simd_json::OwnedValue,
    HttpClientError,
>)
    ensures
        r.is_ok() <==> json_well_formed(json@),
        r matches Err(e) ==> e == HttpClientError::InvalidJson,
{
    let mut bytes = slice_to_vec(json);
    match to_owned_value(&mut bytes) {
        Ok(value) => Ok(value),
        Err(_) => Err(HttpClientError::InvalidJson),
    }
}

/// Checks bytes with `std::str::from_utf8`.
///
/// Assumed of that function: it accepts exactly the byte sequences that are
/// valid UTF-8.
#[verifier::external_body]
fn is_utf8(bytes: &[u8]) -> (b: bool)
    ensures
        b == valid_utf8(bytes@),
{
    std::str::from_utf8(bytes).is_ok()
}

/// Why an input that could not be read as a request is malformed: it is
/// empty, or it is not text, or it is text that is no request.
pub open spec fn rejected_input_error_spec(bytes: Seq<u8>) -> HttpClientError {
    if bytes.len() == 0 {
        HttpClientError::EmptyInput
    } else if !valid_utf8(bytes) {
        HttpClientError::InvalidUtf8
    } else {
        HttpClientError::InvalidJson
    }
}

/// Names the fault of an input that could not be read as a request.
pub fn rejected_input_error(bytes: &[u8]) -> (e: HttpClientError)
    ensures
        e == rejected_input_error_spec(bytes@),
        e.is_malformed_input_spec(),
{
    if bytes.len() == 0 {
        HttpClientError::EmptyInput
    } else if !is_utf8(bytes) {
        HttpClientError::InvalidUtf8
    } else {
        HttpClientError::InvalidJson
    }
}

} // verus!

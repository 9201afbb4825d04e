//! Header values, as the `http` crate holds them, and shared ownership.
//!
//! What the functions here state of `http` and of `Arc` is believed, not
//! proved.

use vstd::prelude::*;
use std::sync::Arc;
use http::header::HeaderValue;
use http::header::InvalidHeaderValue;

verus! {

/// A header value of the `http` crate. It is known by its bytes alone.
#[verifier::external_type_specification]
#[verifier::external_body]
pub struct ExHeaderValue(HeaderValue);

/// The `http` crate's error for bytes that are no header value.
#[verifier::external_type_specification]
#[verifier::external_body]
pub struct ExInvalidHeaderValue(InvalidHeaderValue);

/// The bytes that a header value holds, as `HeaderValue::as_bytes` gives them.
pub uninterp spec fn header_value_bytes(value: HeaderValue) -> Seq<u8>;

/// Whether a byte may stand in a header value: a tab, or anything from the
/// space upward but the delete character.
pub open spec fn is_value_byte(byte: u8) -> bool {
    byte >= 32 && byte != 127 || byte == 9
}

/// Whether each of the bytes may stand in a header value.
pub open spec fn is_value(bytes: Seq<u8>) -> bool {
    forall|i: int| 0 <= i < bytes.len() ==> is_value_byte(#[trigger] bytes[i])
}

/// Calls `HeaderValue::from_bytes`.
///
/// Believed of it: it accepts the bytes exactly when each of them may stand
/// in a header value, and the value then holds those bytes.
#[verifier::external_body]
pub(crate) fn from_bytes(bytes: &[u8]) -> (value: Result<HeaderValue, InvalidHeaderValue>)
    ensures
        value is Ok <==> is_value(bytes@),
        value is Ok ==> header_value_bytes(value.unwrap()) == bytes@,
{
    HeaderValue::from_bytes(bytes)
}

/// Calls `HeaderValue::as_bytes`: the bytes that the value holds.
#[verifier::external_body]
pub(crate) fn as_bytes(value: &HeaderValue) -> (bytes: &[u8])
    ensures
        bytes@ == header_value_bytes(*value),
{
    value.as_bytes()
}

/// Calls `HeaderValue::clone`: a value with the same bytes.
#[verifier::external_body]
pub(crate) fn duplicate(value: &HeaderValue) -> (copy: HeaderValue)
    ensures
        header_value_bytes(copy) == header_value_bytes(*value),
{
    value.clone()
}

/// Calls `Arc::clone`: a second handle to the same value.
#[verifier::external_body]
pub(crate) fn share<T>(shared: &Arc<T>) -> (handle: Arc<T>)
    ensures
        handle == *shared,
{
    Arc::clone(shared)
}

} // verus!

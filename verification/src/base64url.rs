//! URL-safe base64 text, as the `base64` crate writes and reads it.
//!
//! The two functions here are the only place where the crate is called. What
//! they state of it is believed, not proved.

use vstd::prelude::*;

verus! {

/// The text that `base64::encode_config` writes for `bytes` with the
/// configuration `base64::URL_SAFE` (URL-safe alphabet, padded).
pub uninterp spec fn url_safe_text(bytes: Seq<u8>) -> Seq<char>;

/// The bytes that `base64::decode_config` reads from `input` with the
/// configuration `base64::URL_SAFE`, or `None` where it reports an error.
pub uninterp spec fn url_safe_bytes(input: Seq<u8>) -> Option<Seq<u8>>;

/// Calls `base64::encode_config(bytes, base64::URL_SAFE)`.
///
/// Believed of it: the text depends on the bytes alone, and decoding that
/// text with the same configuration gives the bytes back. The bound on the
/// length keeps the size of the text within `usize`, which the call
/// otherwise panics on.
#[verifier::external_body]
pub(crate) fn encode(bytes: &[u8]) -> (text: String)
    requires
        bytes@.len() <= usize::MAX / 2,
    ensures
        text@ == url_safe_text(bytes@),
        url_safe_bytes(vstd::utf8::encode_utf8(text@)) == Some(bytes@),
{
    base64::encode_config(bytes, base64::URL_SAFE)
}

/// Calls `base64::decode_config(input, base64::URL_SAFE)` and drops the
/// reason of a failure.
///
/// Believed of it: the outcome depends on the input alone.
#[verifier::external_body]
pub(crate) fn decode(input: &[u8]) -> (bytes: Option<Vec<u8>>)
    ensures
        bytes is Some <==> url_safe_bytes(input@) is Some,
        bytes is Some ==> url_safe_bytes(input@) == Some(bytes.unwrap()@),
{
    base64::decode_config(input, base64::URL_SAFE).ok()
}

} // verus!

//! Bytes as text.

use vstd::prelude::*;
use vstd::utf8::*;
use vstd::string::*;

verus! {

/// Calls `std::str::from_utf8` and drops the reason of a failure.
///
/// Believed of it: there is a text exactly when the bytes are well-formed
/// UTF-8, and its encoding is then those bytes.
#[verifier::external_body]
pub(crate) fn from_utf8<'a>(bytes: &'a [u8]) -> (text: Option<&'a str>)
    ensures
        text is Some <==> valid_utf8(bytes@),
        text is Some ==> encode_utf8(text.unwrap()@) == bytes@,
{
    std::str::from_utf8(bytes).ok()
}

/// Whether two texts hold the same characters.
pub fn same(left: &str, right: &str) -> (equal: bool)
    ensures
        equal == (left@ == right@),
{
    let a = left.as_bytes();
    let b = right.as_bytes();
    proof {
        encode_utf8_decode_utf8(left@);
        encode_utf8_decode_utf8(right@);
    }
    if a.len() != b.len() {
        return false;
    }
    let mut at: usize = 0;
    while at < a.len()
        invariant
            at <= a@.len(),
            a@.len() == b@.len(),
            a@ == encode_utf8(left@),
            b@ == encode_utf8(right@),
            forall|j: int| 0 <= j < at ==> a@[j] == b@[j],
        decreases a@.len() - at,
    {
        if a[at] != b[at] {
            return false;
        }
        at += 1;
    }
    assert(a@ =~= b@);
    true
}

/// Whether the text is plain: each of its characters is printable ASCII, from
/// the space to the tilde. Said of its UTF-8 bytes, which are then one for
/// each character.
pub open spec fn is_plain(text: Seq<char>) -> bool {
    forall|i: int|
        0 <= i < encode_utf8(text).len() ==> 0x20 <= #[trigger] encode_utf8(text)[i] <= 0x7e
}

/// Whether the text is plain: printable ASCII throughout.
pub fn is_plain_text(text: &str) -> (plain: bool)
    ensures
        plain == is_plain(text@),
{
    let bytes = text.as_bytes();
    let mut at: usize = 0;
    while at < bytes.len()
        invariant
            at <= bytes@.len(),
            bytes@ == encode_utf8(text@),
            forall|j: int| 0 <= j < at ==> 0x20 <= #[trigger] bytes@[j] <= 0x7e,
        decreases bytes@.len() - at,
    {
        if bytes[at] < 0x20 || bytes[at] > 0x7e {
            return false;
        }
        at += 1;
    }
    true
}

} // verus!

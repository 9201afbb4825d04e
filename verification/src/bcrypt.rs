//! Password hashing, as the `pwhash` crate's `bcrypt` module does it.
//!
//! The two functions here are the only place where the crate is called. What
//! they state of it is believed, not proved.

use vstd::prelude::*;
use crate::text::is_plain;

verus! {

/// The error of the `pwhash` crate. Nothing is known of a value of it.
#[verifier::external_type_specification]
#[verifier::external_body]
pub struct ExHashError(pwhash::error::Error);

/// Whether `pwhash::bcrypt::verify` accepts the password for the hash text.
pub uninterp spec fn bcrypt_verifies(password: Seq<char>, hash: Seq<char>) -> bool;

/// Calls `pwhash::bcrypt::hash(password)`, which salts the password at random.
///
/// Believed of it, whatever the salt: the hash text it returns is printable
/// ASCII (dollar signs, digits and the bcrypt alphabet), and
/// `pwhash::bcrypt::verify` accepts the same password for it.
#[verifier::external_body]
pub(crate) fn hash(password: &str) -> (hashed: Result<String, pwhash::error::Error>)
    ensures
        hashed is Ok ==> is_plain(hashed.unwrap()@) && bcrypt_verifies(
            password@,
            hashed.unwrap()@,
        ),
{
    pwhash::bcrypt::hash(password)
}

/// Calls `pwhash::bcrypt::verify(password, hash)`.
///
/// Believed of it: the answer depends on the two texts alone. Only a hash
/// text of printable ASCII is handed over. Reading the salt, the crate takes
/// 0x20 from each character's code and looks the rest up in a table of 96
/// entries after refusing what is above 0x60: a character below the space
/// underflows, and U+0080 reads past the table's end.
#[verifier::external_body]
pub(crate) fn verify(password: &str, hash: &str) -> (accepted: bool)
    requires
        is_plain(hash@),
    ensures
        accepted == bcrypt_verifies(password@, hash@),
{
    pwhash::bcrypt::verify(password, hash)
}

} // verus!

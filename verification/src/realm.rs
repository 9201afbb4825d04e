//! The protection space that a Basic challenge names.

use vstd::prelude::*;
use vstd::string::*;
use std::sync::Arc;
use http::header::HeaderValue;
use crate::header;

verus! {

/// Why a realm could not be made.
#[derive(Debug)]
pub enum RealmError {
    /// The name holds a byte that cannot stand in a header value.
    UnhandledCharacter,
}

/// The bytes `Basic realm="`, which open a challenge.
pub open spec fn challenge_opening() -> Seq<u8> {
    seq![
        0x42u8, 0x61u8, 0x73u8, 0x69u8, 0x63u8, 0x20u8, 0x72u8, 0x65u8, 0x61u8, 0x6cu8, 0x6du8,
        0x3du8, 0x22u8,
    ]
}

/// The value of a challenge for the realm with the given name, in bytes:
/// `Basic realm="`, the name, and a closing quote.
pub open spec fn challenge_bytes(name: Seq<u8>) -> Seq<u8> {
    challenge_opening() + name + seq![0x22u8]
}

/// A realm: the space to which a pair of user name and password applies. It
/// holds the value of the `WWW-Authenticate` header that names it.
pub struct Realm {
    value: Arc<HeaderValue>,
}

impl View for Realm {
    type V = Seq<u8>;

    /// The bytes of the challenge value.
    closed spec fn view(&self) -> Seq<u8> {
        header::header_value_bytes(*self.value)
    }
}

impl Clone for Realm {
    /// A second handle to the same challenge value.
    fn clone(&self) -> (realm: Realm)
        ensures
            realm@ == self@,
    {
        Realm { value: header::share(&self.value) }
    }
}

impl Realm {
    /// Makes the realm with the given name. The name must already be escaped
    /// as a quoted string. It is refused where one of its bytes cannot stand
    /// in a header value.
    pub fn new(name: &str) -> (realm: Result<Realm, RealmError>)
        ensures
            realm is Ok <==> header::is_value(name.spec_bytes()),
            realm is Ok ==> realm.unwrap()@ == challenge_bytes(name.spec_bytes()),
            realm matches Err(error) ==> error == RealmError::UnhandledCharacter,
    {
        let name_bytes = name.as_bytes();
        let mut bytes: Vec<u8> = vec![
            0x42u8, 0x61u8, 0x73u8, 0x69u8, 0x63u8, 0x20u8, 0x72u8, 0x65u8, 0x61u8, 0x6cu8, 0x6du8,
            0x3du8, 0x22u8,
        ];
        assert(bytes@ =~= challenge_opening());
        let mut at: usize = 0;
        while at < name_bytes.len()
            invariant
                at <= name_bytes@.len(),
                bytes@ == challenge_opening() + name_bytes@.subrange(0, at as int),
            decreases name_bytes@.len() - at,
        {
            bytes.push(name_bytes[at]);
            at += 1;
            assert(bytes@ =~= challenge_opening() + name_bytes@.subrange(0, at as int));
        }
        bytes.push(0x22u8);
        proof {
            assert(name_bytes@.subrange(0, at as int) =~= name_bytes@);
            assert(bytes@ =~= challenge_bytes(name_bytes@));
            if header::is_value(name_bytes@) {
                assert forall|i: int| 0 <= i < bytes@.len() implies header::is_value_byte(
                    #[trigger] bytes@[i],
                ) by {
                    if 13 <= i < 13 + name_bytes@.len() {
                        assert(bytes@[i] == name_bytes@[i - 13]);
                    }
                }
            }
            if header::is_value(bytes@) {
                assert forall|i: int| 0 <= i < name_bytes@.len() implies header::is_value_byte(
                    #[trigger] name_bytes@[i],
                ) by {
                    assert(bytes@[i + 13] == name_bytes@[i]);
                }
            }
        }
        match header::from_bytes(bytes.as_slice()) {
            Ok(value) => Ok(Realm { value: Arc::new(value) }),
            Err(_) => Err(RealmError::UnhandledCharacter),
        }
    }

    /// The bytes of the challenge value.
    pub fn as_bytes(&self) -> (bytes: &[u8])
        ensures
            bytes@ == self@,
    {
        header::as_bytes(&self.value)
    }

    /// The value for a `WWW-Authenticate` header.
    pub fn www_authenticate(&self) -> (value: &HeaderValue)
        ensures
            header::header_value_bytes(*value) == self@,
    {
        &self.value
    }
}

} // verus!

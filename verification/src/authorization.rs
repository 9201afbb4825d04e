//! The `Authorization` request header, Basic scheme.

use vstd::prelude::*;
use vstd::slice::*;
use vstd::utf8::*;
use crate::base64url;
use crate::text;

verus! {

/// The byte that parts the user name from the password.
pub const COLON: u8 = 0x3a;

/// The number of bytes in the scheme prefix, `Basic` and one space.
pub const SCHEME_LEN: usize = 6;

/// What a request says of who sends it.
pub enum Authorization {
    /// A well-formed Basic authorization: user name and password.
    Basic(String, String),
    /// No header, more than one, another scheme, or an ill-formed one.
    Unknown,
}

impl View for Authorization {
    type V = Option<(Seq<char>, Seq<char>)>;

    /// The user name and the password, where there is a pair.
    open spec fn view(&self) -> Option<(Seq<char>, Seq<char>)> {
        match self {
            Authorization::Basic(user, password) => Some((user@, password@)),
            Authorization::Unknown => None,
        }
    }
}

/// An ASCII capital as its small letter, any other byte as itself.
pub open spec fn spec_fold_case(byte: u8) -> u8 {
    if 0x41 <= byte <= 0x5a {
        (byte + 0x20) as u8
    } else {
        byte
    }
}

/// Whether the header value starts with `Basic` and a space, in any mix of
/// capitals and small letters.
pub open spec fn has_basic_scheme(header: Seq<u8>) -> bool {
    &&& header.len() >= SCHEME_LEN
    &&& spec_fold_case(header[0]) == 0x62
    &&& spec_fold_case(header[1]) == 0x61
    &&& spec_fold_case(header[2]) == 0x73
    &&& spec_fold_case(header[3]) == 0x69
    &&& spec_fold_case(header[4]) == 0x63
    &&& header[5] == 0x20
}

/// Where the user name ends: at the first colon, or at the end of the payload
/// where it holds none.
pub open spec fn user_end(payload: Seq<u8>) -> int {
    match payload.index_of_first(COLON) {
        Some(at) => at,
        None => payload.len() as int,
    }
}

/// The bytes of the user name: all before the first colon.
pub open spec fn user_bytes(payload: Seq<u8>) -> Seq<u8> {
    payload.subrange(0, user_end(payload))
}

/// The bytes of the password: all after the first colon, none where the
/// payload holds no colon.
pub open spec fn password_bytes(payload: Seq<u8>) -> Seq<u8> {
    if user_end(payload) < payload.len() {
        payload.subrange(user_end(payload) + 1, payload.len() as int)
    } else {
        Seq::empty()
    }
}

/// The pair that a decoded payload holds, where both parts are text.
pub open spec fn spec_from_payload(payload: Seq<u8>) -> Option<(Seq<char>, Seq<char>)> {
    if valid_utf8(user_bytes(payload)) && valid_utf8(password_bytes(payload)) {
        Some((decode_utf8(user_bytes(payload)), decode_utf8(password_bytes(payload))))
    } else {
        None
    }
}

/// The pair that one header value holds: the scheme is Basic, what follows it
/// is URL-safe base64, and the decoded payload holds a pair.
pub open spec fn spec_from_value(header: Seq<u8>) -> Option<(Seq<char>, Seq<char>)> {
    if has_basic_scheme(header) {
        match base64url::url_safe_bytes(header.skip(SCHEME_LEN as int)) {
            Some(payload) => spec_from_payload(payload),
            None => None,
        }
    } else {
        None
    }
}

/// The pair that a request holds, given the values of all its `Authorization`
/// headers: that of the only one, and none where there are several or none.
pub open spec fn spec_from_header(values: Seq<Seq<u8>>) -> Option<(Seq<char>, Seq<char>)> {
    if values.len() == 1 {
        spec_from_value(values[0])
    } else {
        None
    }
}

/// A request with more than one `Authorization` header is unauthenticated,
/// whatever the headers hold.
pub proof fn several_headers_are_unknown(values: Seq<Seq<u8>>)
    requires
        values.len() >= 2,
    ensures
        spec_from_header(values) is None,
{
}

/// An ASCII capital as its small letter, any other byte as itself.
fn fold_case(byte: u8) -> (folded: u8)
    ensures
        folded == spec_fold_case(byte),
{
    if 0x41 <= byte && byte <= 0x5a {
        byte + 0x20
    } else {
        byte
    }
}

/// Whether the header value names the Basic scheme.
fn starts_with_basic(header: &[u8]) -> (found: bool)
    ensures
        found == has_basic_scheme(header@),
{
    header.len() >= SCHEME_LEN && fold_case(header[0]) == 0x62 && fold_case(header[1]) == 0x61
        && fold_case(header[2]) == 0x73 && fold_case(header[3]) == 0x69 && fold_case(header[4])
        == 0x63 && header[5] == 0x20
}

/// The index of the first colon, or the length where there is none.
fn find_user_end(payload: &[u8]) -> (end: usize)
    ensures
        end == user_end(payload@),
        end <= payload@.len(),
{
    let mut at: usize = 0;
    while at < payload.len() && payload[at] != COLON
        invariant
            at <= payload@.len(),
            forall|j: int| 0 <= j < at ==> payload@[j] != COLON,
        decreases payload@.len() - at,
    {
        at += 1;
    }
    proof {
        payload@.index_of_first_ensures(COLON);
        if at < payload@.len() {
            assert(payload@[at as int] == COLON);
            assert(payload@.contains(COLON));
        } else {
            assert(!payload@.contains(COLON));
        }
    }
    at
}

impl Authorization {
    /// Reads the authorization of a request from the values of all its
    /// `Authorization` headers. Exactly one is accepted: with none, or with
    /// more than one, the request counts as unauthenticated whatever they
    /// hold.
    pub fn from_header(values: &Vec<Vec<u8>>) -> (authorization: Authorization)
        ensures
            values@.len() == 1 ==> authorization@ == spec_from_value(values@[0]@),
            values@.len() != 1 ==> authorization@ is None,
            authorization@ == spec_from_header(values@.map_values(|value: Vec<u8>| value@)),
    {
        if values.len() != 1 {
            return Authorization::Unknown;
        }
        Authorization::from_value(values[0].as_slice())
    }

    /// Reads one header value: the scheme, then the base64 payload.
    pub fn from_value(header: &[u8]) -> (authorization: Authorization)
        ensures
            authorization@ == spec_from_value(header@),
    {
        if !starts_with_basic(header) {
            return Authorization::Unknown;
        }
        let encoded = slice_subrange(header, SCHEME_LEN, header.len());
        assert(encoded@ =~= header@.skip(SCHEME_LEN as int));
        match base64url::decode(encoded) {
            Some(payload) => Authorization::from_payload(payload.as_slice()),
            None => Authorization::Unknown,
        }
    }

    /// Reads a decoded payload: the user name before the first colon, the
    /// password after it. Without a colon the password is empty. Both must be
    /// well-formed UTF-8.
    pub fn from_payload(payload: &[u8]) -> (authorization: Authorization)
        ensures
            authorization@ == spec_from_payload(payload@),
    {
        let end = find_user_end(payload);
        let user = slice_subrange(payload, 0, end);
        let password = if end < payload.len() {
            slice_subrange(payload, end + 1, payload.len())
        } else {
            slice_subrange(payload, 0, 0)
        };
        assert(user@ =~= user_bytes(payload@));
        assert(password@ =~= password_bytes(payload@));
        let user = match text::from_utf8(user) {
            Some(user) => user,
            None => {
                return Authorization::Unknown;
            },
        };
        let password = match text::from_utf8(password) {
            Some(password) => password,
            None => {
                return Authorization::Unknown;
            },
        };
        proof {
            encode_utf8_decode_utf8(user@);
            encode_utf8_decode_utf8(password@);
        }
        Authorization::Basic(user.to_owned(), password.to_owned())
    }
}

} // verus!

//! A frozen set of accounts: who is let in, and what is answered to the rest.

use vstd::prelude::*;
use std::sync::Arc;
use http::header::HeaderValue;
use crate::authorization::Authorization;
use crate::credentials::password_matches;
use crate::credentials::Credentials;
use crate::credentials::Unauthorized;
use crate::header;
use crate::realm::Realm;

verus! {

/// The status of a response that asks for credentials.
pub const UNAUTHORIZED: u16 = 401;

/// An authorized user, by name. Only a successful check of credentials makes
/// one: the name cannot be set from outside.
#[derive(Debug)]
pub struct User(String);

impl View for User {
    type V = Seq<char>;

    /// The user name.
    closed spec fn view(&self) -> Seq<char> {
        self.0@
    }
}

impl User {
    /// The user name.
    pub fn name(&self) -> (name: &str)
        ensures
            name@ == self@,
    {
        self.0.as_str()
    }

    /// The user name, taken out of the value.
    pub fn into_name(self) -> (name: String)
        ensures
            name@ == self@,
    {
        self.0
    }
}

/// The answer to a request that is not let in: the status, and the value of
/// the `WWW-Authenticate` header that names the realm.
pub struct Challenge {
    pub status: u16,
    pub www_authenticate: HeaderValue,
}

impl Challenge {
    /// Whether this is the challenge of the realm with the given value:
    /// status 401, and that value in the header.
    pub open spec fn is_for(self, realm: Seq<u8>) -> bool {
        self.status == UNAUTHORIZED && header::header_value_bytes(self.www_authenticate) == realm
    }
}

/// The user that a set of credentials lets in on an authorization: the one
/// named in a well-formed pair whose password the stored hash accepts.
pub open spec fn spec_check(
    credentials: Map<Seq<char>, Seq<char>>,
    authorization: Option<(Seq<char>, Seq<char>)>,
) -> Option<Seq<char>> {
    match authorization {
        Some((user, password)) => if credentials.contains_key(user) && password_matches(
            password,
            credentials[user],
        ) {
            Some(user)
        } else {
            None
        },
        None => None,
    }
}

/// The user that a set narrowed to one name lets in: the one that the
/// credentials let in, where it is the designated one.
pub open spec fn spec_check_single(
    credentials: Map<Seq<char>, Seq<char>>,
    designated: Seq<char>,
    authorization: Option<(Seq<char>, Seq<char>)>,
) -> Option<Seq<char>> {
    match spec_check(credentials, authorization) {
        Some(user) => if user == designated {
            Some(user)
        } else {
            None
        },
        None => None,
    }
}

/// A set narrowed to one user lets nobody else in, valid credentials or not.
pub proof fn other_user_is_rejected(
    credentials: Map<Seq<char>, Seq<char>>,
    designated: Seq<char>,
    user: Seq<char>,
    password: Seq<char>,
)
    requires
        user != designated,
    ensures
        spec_check_single(credentials, designated, Some((user, password))) is None,
{
}

/// A frozen set of accounts with its realm. Nothing changes it once it is
/// made, and a clone refers to the same credentials.
pub struct AccountSet {
    credentials: Arc<Credentials>,
    realm: Realm,
}

impl Clone for AccountSet {
    /// A second handle to the same accounts and realm.
    fn clone(&self) -> (set: AccountSet)
        ensures
            set.spec_credentials() == self.spec_credentials(),
            set.spec_realm() == self.spec_realm(),
    {
        AccountSet { credentials: header::share(&self.credentials), realm: self.realm.clone() }
    }
}

impl AccountSet {
    /// The hash text of each user name.
    pub closed spec fn spec_credentials(&self) -> Map<Seq<char>, Seq<char>> {
        self.credentials@
    }

    /// The bytes of the realm's challenge value.
    pub closed spec fn spec_realm(&self) -> Seq<u8> {
        self.realm@
    }

    /// Freezes credentials under a realm.
    pub(crate) fn new(credentials: Credentials, realm: Realm) -> (set: AccountSet)
        ensures
            set.spec_credentials() == credentials@,
            set.spec_realm() == realm@,
    {
        AccountSet { credentials: Arc::new(credentials), realm }
    }

    /// The credentials of the set.
    pub fn credentials(&self) -> (credentials: &Credentials)
        ensures
            credentials@ == self.spec_credentials(),
    {
        &self.credentials
    }

    /// The realm of the set.
    pub fn realm(&self) -> (realm: &Realm)
        ensures
            realm@ == self.spec_realm(),
    {
        &self.realm
    }

    /// Checks an authorization against the credentials. Only a well-formed
    /// pair is checked; the user is let in where the password is accepted.
    pub fn check(&self, authorization: Authorization) -> (user: Option<User>)
        ensures
            user is Some <==> spec_check(self.spec_credentials(), authorization@) is Some,
            user is Some ==> Some(user.unwrap()@) == spec_check(
                self.spec_credentials(),
                authorization@,
            ),
    {
        match authorization {
            Authorization::Basic(user, password) => {
                match self.credentials.check(user.as_str(), password.as_str()) {
                    Ok(()) => Some(User(user)),
                    Err(_) => None,
                }
            },
            Authorization::Unknown => None,
        }
    }

    /// Narrows the set to one user: only that name is let in.
    pub fn single_user(self, user: String) -> (protected: Protected)
        ensures
            protected.spec_credentials() == self.spec_credentials(),
            protected.spec_realm() == self.spec_realm(),
            protected.spec_user() == user@,
    {
        Protected { set: self, user }
    }

    /// The answer to a request that is not let in: status 401 with the
    /// realm's challenge in `WWW-Authenticate`.
    pub fn authenticate(&self) -> (challenge: Challenge)
        ensures
            challenge.is_for(self.spec_realm()),
    {
        Challenge {
            status: UNAUTHORIZED,
            www_authenticate: header::duplicate(self.realm.www_authenticate()),
        }
    }

    /// The user of a request, or the challenge to answer it with. A failure
    /// gives the same challenge whatever caused it.
    pub fn extract(&self, authorization: Authorization) -> (outcome: Result<User, Challenge>)
        ensures
            outcome is Ok <==> spec_check(self.spec_credentials(), authorization@) is Some,
            outcome matches Ok(user) ==> Some(user@) == spec_check(
                self.spec_credentials(),
                authorization@,
            ),
            outcome matches Err(challenge) ==> challenge.is_for(self.spec_realm()),
    {
        match self.check(authorization) {
            Some(user) => Ok(user),
            None => Err(self.authenticate()),
        }
    }

    /// The user of a request, where there is one, for a handler that serves
    /// anonymous requests too.
    pub fn try_extract(&self, authorization: Authorization) -> (outcome: Result<User, Unauthorized>)
        ensures
            outcome is Ok <==> spec_check(self.spec_credentials(), authorization@) is Some,
            outcome matches Ok(user) ==> Some(user@) == spec_check(
                self.spec_credentials(),
                authorization@,
            ),
    {
        match self.check(authorization) {
            Some(user) => Ok(user),
            None => Err(Unauthorized),
        }
    }
}

/// A set of accounts narrowed to one designated user.
pub struct Protected {
    set: AccountSet,
    user: String,
}

impl Protected {
    /// The hash text of each user name in the underlying set.
    pub closed spec fn spec_credentials(&self) -> Map<Seq<char>, Seq<char>> {
        self.set.spec_credentials()
    }

    /// The bytes of the realm's challenge value.
    pub closed spec fn spec_realm(&self) -> Seq<u8> {
        self.set.spec_realm()
    }

    /// The name of the designated user.
    pub closed spec fn spec_user(&self) -> Seq<char> {
        self.user@
    }

    /// The designated user of a request, or the challenge to answer it with.
    /// Another user with valid credentials is answered as one with none.
    pub fn extract(&self, authorization: Authorization) -> (outcome: Result<User, Challenge>)
        ensures
            outcome is Ok <==> spec_check_single(
                self.spec_credentials(),
                self.spec_user(),
                authorization@,
            ) is Some,
            outcome matches Ok(user) ==> user@ == self.spec_user(),
            outcome matches Err(challenge) ==> challenge.is_for(self.spec_realm()),
    {
        let User(checked) = match self.set.check(authorization) {
            Some(user) => user,
            None => {
                return Err(self.set.authenticate());
            },
        };
        if checked != self.user {
            return Err(self.set.authenticate());
        }
        Ok(User(checked))
    }
}

} // verus!

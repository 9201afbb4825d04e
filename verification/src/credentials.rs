//! User names and their hashed passwords.

use vstd::prelude::*;
use crate::bcrypt;
use crate::accounts::AccountSet;
use crate::realm::Realm;
use crate::text;

verus! {

/// Marks a missing or invalid session token, or a failed check of
/// credentials. It says nothing of which.
#[derive(Debug)]
pub struct Unauthorized;

/// A password in hashed form, as it is stored and loaded.
pub struct Hashed {
    data: String,
}

impl View for Hashed {
    type V = Seq<char>;

    /// The hash text.
    closed spec fn view(&self) -> Seq<char> {
        self.data@
    }
}

/// Whether a password is accepted for a stored hash text: the text is
/// printable ASCII and the hash function's own check accepts the password.
pub open spec fn password_matches(password: Seq<char>, hash: Seq<char>) -> bool {
    text::is_plain(hash) && bcrypt::bcrypt_verifies(password, hash)
}

impl Hashed {
    /// Takes a hash text that was computed before.
    pub fn new(data: String) -> (hashed: Hashed)
        ensures
            hashed@ == data@,
    {
        Hashed { data }
    }

    /// Hashes a password with a fresh random salt. Where there is a hash, the
    /// password is accepted for it.
    pub fn hash(password: &str) -> (hashed: Result<Hashed, pwhash::error::Error>)
        ensures
            hashed is Ok ==> password_matches(password@, hashed.unwrap()@),
    {
        match bcrypt::hash(password) {
            Ok(data) => Ok(Hashed { data }),
            Err(error) => Err(error),
        }
    }

    /// The hash text.
    pub fn hashed(&self) -> (data: &str)
        ensures
            data@ == self@,
    {
        self.data.as_str()
    }

    /// Whether the password is accepted for this hash.
    pub fn accepts(&self, password: &str) -> (accepted: bool)
        ensures
            accepted == password_matches(password@, self@),
    {
        text::is_plain_text(self.data.as_str()) && bcrypt::verify(password, self.data.as_str())
    }
}

/// One user name with its hashed password.
struct Account {
    user: String,
    hashed: Hashed,
}

/// A mapping from user name to hashed password. A name is entered once: the
/// first entry stays.
pub struct Credentials {
    accounts: Vec<Account>,
}

impl View for Credentials {
    type V = Map<Seq<char>, Seq<char>>;

    /// The hash text of each user name.
    closed spec fn view(&self) -> Map<Seq<char>, Seq<char>> {
        Map::new(
            |user: Seq<char>| Credentials::holds(self.accounts@, user),
            |user: Seq<char>| self.accounts@[Credentials::place(self.accounts@, user)].hashed@,
        )
    }
}

impl Credentials {
    /// Whether some account has the user name.
    spec fn holds(accounts: Seq<Account>, user: Seq<char>) -> bool {
        exists|i: int| 0 <= i < accounts.len() && #[trigger] accounts[i].user@ == user
    }

    /// The index of the account with the user name.
    spec fn place(accounts: Seq<Account>, user: Seq<char>) -> int {
        choose|i: int| 0 <= i < accounts.len() && #[trigger] accounts[i].user@ == user
    }

    /// No user name stands twice.
    #[verifier::type_invariant]
    spec fn distinct_users(self) -> bool {
        forall|i: int, j: int|
            0 <= i < self.accounts@.len() && 0 <= j < self.accounts@.len() && i != j
                ==> #[trigger] self.accounts@[i].user@ != #[trigger] self.accounts@[j].user@
    }

    /// An empty mapping.
    pub fn new() -> (credentials: Credentials)
        ensures
            credentials@ == Map::<Seq<char>, Seq<char>>::empty(),
    {
        let credentials = Credentials { accounts: Vec::new() };
        assert(credentials@ =~= Map::<Seq<char>, Seq<char>>::empty());
        credentials
    }

    /// The index of the account with the user name, if there is one.
    fn find(&self, user: &str) -> (found: Option<usize>)
        ensures
            found is Some <==> self@.contains_key(user@),
            found is Some ==> found.unwrap() < self.accounts@.len()
                && self.accounts@[found.unwrap() as int].user@ == user@
                && self.accounts@[found.unwrap() as int].hashed@ == self@[user@],
    {
        proof {
            use_type_invariant(self);
        }
        let mut at: usize = 0;
        while at < self.accounts.len()
            invariant
                at <= self.accounts@.len(),
                self.distinct_users(),
                forall|j: int| 0 <= j < at ==> #[trigger] self.accounts@[j].user@ != user@,
            decreases self.accounts@.len() - at,
        {
            if text::same(self.accounts[at].user.as_str(), user) {
                proof {
                    assert(Credentials::holds(self.accounts@, user@));
                    let first = Credentials::place(self.accounts@, user@);
                    assert(self.accounts@[first].user@ == user@);
                    assert(first == at);
                }
                return Some(at);
            }
            at += 1;
        }
        None
    }

    /// Enters a user with a password that is already hashed, unless the name
    /// is taken. Says whether the entry was made.
    pub fn prehashed(&mut self, user: String, hashed: Hashed) -> (entered: bool)
        ensures
            entered == !old(self)@.contains_key(user@),
            entered ==> final(self)@ == old(self)@.insert(user@, hashed@),
            !entered ==> final(self)@ == old(self)@,
    {
        proof {
            use_type_invariant(&*self);
        }
        if self.find(user.as_str()).is_some() {
            return false;
        }
        let ghost before = self.accounts@;
        let ghost name = user@;
        let ghost hash = hashed@;
        let mut taken = Credentials { accounts: Vec::new() };
        std::mem::swap(self, &mut taken);
        let mut accounts = taken.accounts;
        accounts.push(Account { user, hashed });
        *self = Credentials { accounts };
        proof {
            let after = self.accounts@;
            assert(after[before.len() as int].user@ == name);
            assert forall|u: Seq<char>| Credentials::holds(after, u) <==> (u == name
                || Credentials::holds(before, u)) by {
                if Credentials::holds(before, u) {
                    let i = Credentials::place(before, u);
                    assert(after[i].user@ == u);
                }
            }
            assert forall|u: Seq<char>| Credentials::holds(after, u) implies after[Credentials::place(
                after,
                u,
            )].hashed@ == (if u == name {
                hash
            } else {
                before[Credentials::place(before, u)].hashed@
            }) by {
                let i = Credentials::place(after, u);
                if u != name {
                    let k = Credentials::place(before, u);
                    assert(after[k].user@ == u);
                    assert(i == k);
                } else {
                    assert(i == before.len());
                }
            }
            assert(final(self)@ =~= old(self)@.insert(name, hash));
        }
        true
    }

    /// Hashes the password and enters the user, unless the name is taken or
    /// hashing fails. Says whether the entry was made; the password is then
    /// accepted for the user.
    pub fn insert(&mut self, user: String, password: &str) -> (entered: bool)
        ensures
            old(self)@.contains_key(user@) ==> !entered,
            !entered ==> final(self)@ == old(self)@,
            entered ==> !old(self)@.contains_key(user@) && final(self)@.dom() == old(self)@.dom().insert(
                user@,
            ) && password_matches(password@, final(self)@[user@]) && forall|other: Seq<char>|
                old(self)@.contains_key(other) ==> final(self)@[other] == old(self)@[other],
    {
        // Whether hashing succeeds is for the hash function to say; what
        // follows from its answer is for `insert_hashed`.
        let hashed = Hashed::hash(password);
        self.insert_hashed(user, hashed)
    }

    /// Whether the hash text filed for a user accepts the password of one of
    /// the pairs that name the user.
    pub open spec fn entered_from(
        pairs: Seq<(String, String)>,
        user: Seq<char>,
        hash: Seq<char>,
    ) -> bool {
        exists|i: int|
            0 <= i < pairs.len() && (#[trigger] pairs[i]).0@ == user && password_matches(
                pairs[i].1@,
                hash,
            )
    }

    /// Enters pairs of user name and password in their order, each as
    /// `insert` does: of two pairs with one name the later is dropped. Every
    /// user of the result comes from a pair whose password is accepted for
    /// it.
    pub fn from_pairs(pairs: &Vec<(String, String)>) -> (credentials: Credentials)
        ensures
            exists|hashes: Seq<Option<Seq<char>>>| #[trigger]
                Credentials::built_from(pairs@, hashes, credentials@),
            forall|user: Seq<char>| #[trigger]
                credentials@.contains_key(user) ==> Credentials::entered_from(
                    pairs@,
                    user,
                    credentials@[user],
                ),
    {
        let mut credentials = Credentials::new();
        let ghost mut hashes: Seq<Option<Seq<char>>> = Seq::empty();
        let mut at: usize = 0;
        while at < pairs.len()
            invariant
                at <= pairs@.len(),
                Credentials::built_from(pairs@.take(at as int), hashes, credentials@),
                forall|user: Seq<char>| #[trigger]
                    credentials@.contains_key(user) ==> Credentials::entered_from(
                        pairs@.take(at as int),
                        user,
                        credentials@[user],
                    ),
            decreases pairs@.len() - at,
        {
            let ghost before = credentials@;
            let user = pairs[at].0.clone();
            let entered = credentials.insert(user, pairs[at].1.as_str());
            proof {
                let shorter = pairs@.take(at as int);
                let longer = pairs@.take(at + 1);
                let name = pairs@[at as int].0@;
                assert forall|name: Seq<char>| #[trigger]
                    credentials@.contains_key(name) implies Credentials::entered_from(
                    longer,
                    name,
                    credentials@[name],
                ) by {
                    if before.contains_key(name) {
                        let i = choose|i: int|
                            0 <= i < shorter.len() && (#[trigger] shorter[i]).0@ == name
                                && password_matches(shorter[i].1@, before[name]);
                        assert(longer[i] == shorter[i]);
                    } else {
                        assert(entered);
                        assert(name == pairs@[at as int].0@);
                        assert(longer[at as int] == pairs@[at as int]);
                    }
                }
                let outcome = if entered {
                    Some(credentials@[name])
                } else {
                    None
                };
                let longer_hashes = hashes.push(outcome);
                assert(longer_hashes.drop_last() =~= hashes);
                assert(Credentials::names(longer).drop_last() =~= Credentials::names(shorter));
                assert(Credentials::names(longer).last() == name);
                assert(credentials@ =~= spec_enter(before, name, outcome));
                assert forall|i: int| 0 <= i < longer.len() implies (
                #[trigger] longer_hashes[i] matches Some(hash) ==> password_matches(
                    longer[i].1@,
                    hash,
                )) by {
                    if i < at {
                        assert(longer[i] == shorter[i]);
                        assert(longer_hashes[i] == hashes[i]);
                    }
                }
                hashes = longer_hashes;
            }
            at += 1;
        }
        assert(pairs@.take(at as int) =~= pairs@);
        credentials
    }

    /// The user names of pairs, in their order.
    pub open spec fn names(pairs: Seq<(String, String)>) -> Seq<Seq<char>> {
        pairs.map_values(|pair: (String, String)| pair.0@)
    }

    /// Whether the mapping is what entering the pairs in their order gives,
    /// where `hashes` holds for each pair the hash text of its password, or
    /// nothing where hashing it failed: each hash text accepts the password
    /// of its pair, and of two pairs with one name and a hash text each, the
    /// earlier is in the mapping.
    pub open spec fn built_from(
        pairs: Seq<(String, String)>,
        hashes: Seq<Option<Seq<char>>>,
        accounts: Map<Seq<char>, Seq<char>>,
    ) -> bool {
        &&& hashes.len() == pairs.len()
        &&& forall|i: int|
            0 <= i < pairs.len() ==> (#[trigger] hashes[i] matches Some(hash) ==> password_matches(
                pairs[i].1@,
                hash,
            ))
        &&& accounts == spec_enter_all(Credentials::names(pairs), hashes)
    }

    /// Enters the user with what hashing a password gave: the entry is made
    /// exactly when there is a hash and the name is free. Says whether it was
    /// made.
    pub fn insert_hashed(
        &mut self,
        user: String,
        hashed: Result<Hashed, pwhash::error::Error>,
    ) -> (entered: bool)
        ensures
            entered == (hashed is Ok && !old(self)@.contains_key(user@)),
            entered ==> final(self)@ == old(self)@.insert(user@, hashed.unwrap()@),
            !entered ==> final(self)@ == old(self)@,
            final(self)@ == spec_enter(
                old(self)@,
                user@,
                match hashed {
                    Ok(hash) => Some(hash@),
                    Err(_) => None,
                },
            ),
    {
        match hashed {
            Ok(hashed) => self.prehashed(user, hashed),
            Err(_) => false,
        }
    }

    /// Checks a password against what is stored for the user. An unknown user
    /// and a wrong password give the same answer.
    pub fn check(&self, user: &str, password: &str) -> (checked: Result<(), Unauthorized>)
        ensures
            checked is Ok <==> self@.contains_key(user@) && password_matches(
                password@,
                self@[user@],
            ),
    {
        match self.find(user) {
            Some(at) => if self.accounts[at].hashed.accepts(password) {
                Ok(())
            } else {
                Err(Unauthorized)
            },
            None => Err(Unauthorized),
        }
    }

    /// Freezes the credentials into a set of accounts under a realm.
    pub fn freeze(self, realm: Realm) -> (set: AccountSet)
        ensures
            set.spec_credentials() == self@,
            set.spec_realm() == realm@,
    {
        AccountSet::new(self, realm)
    }
}

/// The mapping after a user is entered with the hash text of a password, or
/// with nothing where hashing failed: a new entry where there is a hash text
/// and the name is free, the same mapping otherwise.
pub open spec fn spec_enter(
    accounts: Map<Seq<char>, Seq<char>>,
    user: Seq<char>,
    hash: Option<Seq<char>>,
) -> Map<Seq<char>, Seq<char>> {
    match hash {
        Some(text) => if accounts.contains_key(user) {
            accounts
        } else {
            accounts.insert(user, text)
        },
        None => accounts,
    }
}

/// The mapping after the users are entered in their order, each with the hash
/// text at its place, starting from the empty mapping.
pub open spec fn spec_enter_all(
    users: Seq<Seq<char>>,
    hashes: Seq<Option<Seq<char>>>,
) -> Map<Seq<char>, Seq<char>>
    decreases users.len(),
{
    if users.len() == 0 {
        Map::empty()
    } else {
        spec_enter(
            spec_enter_all(users.drop_last(), hashes.drop_last()),
            users.last(),
            hashes.last(),
        )
    }
}

} // verus!

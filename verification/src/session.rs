//! The session store: a mapping from token to session data that issues its
//! own tokens.

use vstd::prelude::*;
use vstd::pervasive::cloned;
use vstd::set_lib::*;
use vstd::string::*;
use std::collections::HashMap;
use rand::rngs::StdRng;
use crate::credentials::Unauthorized;
use crate::random;
use crate::token::Token;

verus! {

broadcast use vstd::std_specs::hash::group_hash_axioms;

/// How often `create` draws again on a collision before it takes the least
/// free key instead. No run of that many collisions is to be expected of a
/// random source that works.
pub const REDRAWS: u64 = 0xffff_ffff_ffff_ffff;

/// Whether `after` is `before` with a new session under a token that was
/// free.
pub open spec fn issued<T>(before: Map<Token, T>, token: Token, data: T, after: Map<Token, T>) -> bool {
    !before.contains_key(token) && after == before.insert(token, data)
}

/// What a lookup finds in a store: the data under the token, if any.
pub open spec fn spec_get<T>(sessions: Map<Token, T>, token: Token) -> Option<T> {
    if sessions.contains_key(token) {
        Some(sessions[token])
    } else {
        None
    }
}

/// Tokens that are issued one after another are pairwise distinct: each
/// creation takes a token that no live session has, and the sessions made
/// before are live as long as none is invalidated. Since a creation needs
/// exclusive access to the store, creations by concurrent requests happen
/// one after another, in some order.
pub proof fn issued_tokens_are_distinct<T>(
    states: Seq<Map<Token, T>>,
    tokens: Seq<Token>,
    data: Seq<T>,
)
    requires
        states.len() == tokens.len() + 1,
        data.len() == tokens.len(),
        forall|i: int|
            0 <= i < tokens.len() ==> issued(
                #[trigger] states[i],
                tokens[i],
                data[i],
                states[i + 1],
            ),
    ensures
        forall|i: int, j: int| 0 <= i < j < tokens.len() ==> tokens[i] != tokens[j],
{
    assert forall|i: int, j: int| 0 <= i < j < tokens.len() implies tokens[i] != tokens[j] by {
        earlier_tokens_stay(states, tokens, data, i, j);
        assert(issued(states[j], tokens[j], data[j], states[j + 1]));
    }
}

/// After the first `upto` creations the token of each of them is live.
proof fn earlier_tokens_stay<T>(
    states: Seq<Map<Token, T>>,
    tokens: Seq<Token>,
    data: Seq<T>,
    i: int,
    upto: int,
)
    requires
        states.len() == tokens.len() + 1,
        data.len() == tokens.len(),
        forall|k: int|
            0 <= k < tokens.len() ==> issued(
                #[trigger] states[k],
                tokens[k],
                data[k],
                states[k + 1],
            ),
        0 <= i < upto <= tokens.len(),
    ensures
        states[upto].contains_key(tokens[i]),
    decreases upto,
{
    assert(issued(states[upto - 1], tokens[upto - 1], data[upto - 1], states[upto - 1 + 1]));
    if i < upto - 1 {
        earlier_tokens_stay(states, tokens, data, i, upto - 1);
    }
}

/// A lookup of the token that a creation returned finds the data that was
/// given to it.
pub proof fn get_after_create<T>(
    before: Map<Token, T>,
    token: Token,
    data: T,
    after: Map<Token, T>,
)
    requires
        issued(before, token, data, after),
    ensures
        spec_get(after, token) == Some(data),
{
}

/// A lookup of a token that was invalidated finds nothing, as if the token
/// had never been issued.
pub proof fn get_after_invalidate<T>(sessions: Map<Token, T>, token: Token)
    ensures
        spec_get(sessions.remove(token), token) is None,
{
}

/// The name of the cookie that carries the token.
pub const SESSION_COOKIE: &'static str = "session_id";

/// The name of the header that sets a cookie.
pub const SET_COOKIE: &'static str = "Set-Cookie";

/// The value of the header that hands a token to the client: the cookie
/// `session_id` with the token's text, marked `Secure` and `HttpOnly`.
pub open spec fn set_cookie_text(token: Token) -> Seq<char> {
    "session_id="@ + crate::base64url::url_safe_text(token@) + "; Secure; HttpOnly"@
}

/// The token that a request names, given the value of its `session_id`
/// cookie if it has one. A missing cookie and an ill-formed one name none.
pub open spec fn spec_cookie_token(cookie: Option<Seq<char>>) -> Option<Token> {
    match cookie {
        Some(text) => Token::spec_decode(text),
        None => None,
    }
}

/// The token that a request names, given the value of its `session_id`
/// cookie if it has one. A cookie that is missing, that is not URL-safe
/// base64 or that holds another number of bytes than sixteen names none:
/// the request then starts a fresh session.
pub fn cookie_token(cookie: Option<&str>) -> (token: Option<Token>)
    ensures
        token == spec_cookie_token(
            match cookie {
                Some(text) => Some(text@),
                None => None,
            },
        ),
{
    match cookie {
        Some(text) => Token::decode(text),
        None => None,
    }
}

/// A session as a handler sees it: the token, whether the session was made
/// for this request, and a copy of its data taken at that moment. Changes to
/// the copy are not written back to the store.
pub struct Session<T> {
    token: Token,
    is_new: bool,
    data: T,
}

impl<T> Session<T> {
    /// The token of the session.
    pub closed spec fn spec_token(&self) -> Token {
        self.token
    }

    /// Whether the session was made for this request.
    pub closed spec fn spec_is_new(&self) -> bool {
        self.is_new
    }

    /// The copy of the session's data.
    pub closed spec fn spec_data(&self) -> T {
        self.data
    }

    /// The token of the session.
    pub fn token(&self) -> (token: Token)
        ensures
            token == self.spec_token(),
    {
        self.token
    }

    /// Whether the session was made for this request.
    pub fn is_new(&self) -> (is_new: bool)
        ensures
            is_new == self.spec_is_new(),
    {
        self.is_new
    }

    /// The copy of the session's data.
    pub fn data(&self) -> (data: &T)
        ensures
            *data == self.spec_data(),
    {
        &self.data
    }

    /// The copy of the session's data, to change in place.
    pub fn data_mut(&mut self) -> (data: &mut T)
        ensures
            *data == old(self).spec_data(),
            final(self).spec_data() == *final(data),
            final(self).spec_token() == old(self).spec_token(),
            final(self).spec_is_new() == old(self).spec_is_new(),
    {
        &mut self.data
    }

    /// The `Set-Cookie` value that hands the token to the client, for a
    /// session that is new. A client that sent the token holds the cookie
    /// already and gets none.
    pub fn cookie(&self) -> (value: Option<String>)
        ensures
            value is Some <==> self.spec_is_new(),
            value matches Some(text) ==> text@ == set_cookie_text(self.spec_token()),
    {
        if !self.is_new {
            return None;
        }
        let mut text = String::from_str("session_id=");
        let encoded = self.token.encode();
        text.append(encoded.as_str());
        text.append("; Secure; HttpOnly");
        Some(text)
    }

    /// Attaches the session to a response, given as its list of headers by
    /// name and value: a new session appends one `Set-Cookie` header, another
    /// leaves the list as it is.
    pub fn attach(&self, headers: &mut Vec<(String, String)>)
        ensures
            !self.spec_is_new() ==> final(headers)@ == old(headers)@,
            self.spec_is_new() ==> final(headers)@.len() == old(headers)@.len() + 1
                && final(headers)@.drop_last() == old(headers)@ && final(headers)@.last().0@
                == SET_COOKIE@ && final(headers)@.last().1@ == set_cookie_text(self.spec_token()),
    {
        match self.cookie() {
            Some(value) => {
                headers.push((String::from_str(SET_COOKIE), value));
                assert(final(headers)@.drop_last() =~= old(headers)@);
            },
            None => {},
        }
    }
}

/// A mapping from token to session data, with the random source that its
/// tokens are drawn from. Changing it takes exclusive access; reading does
/// not.
pub struct SessionStore<T> {
    rng: StdRng,
    sessions: HashMap<u128, T>,
}

impl<T> View for SessionStore<T> {
    type V = Map<Token, T>;

    /// The data of each live session, by token.
    closed spec fn view(&self) -> Map<Token, T> {
        Map::new(
            |token: Token| self.sessions@.contains_key(token.key()),
            |token: Token| self.sessions@[token.key()],
        )
    }
}

impl<T> SessionStore<T> {
    /// An empty store whose random source starts from the given seed. The
    /// seed is to come from a secure source of entropy.
    pub fn new(seed: [u8; 32]) -> (store: SessionStore<T>)
        ensures
            store@ == Map::<Token, T>::empty(),
    {
        let store = SessionStore { rng: random::seeded(seed), sessions: HashMap::new() };
        assert(store@ =~= Map::<Token, T>::empty());
        store
    }

    /// The number of live sessions.
    pub fn len(&self) -> (len: usize)
        ensures
            len == self@.len(),
            self@.dom().finite(),
    {
        proof {
            self.same_size();
        }
        self.sessions.len()
    }

    /// The store has as many tokens as its table has keys.
    proof fn same_size(&self)
        ensures
            self@.dom().finite(),
            self@.len() == self.sessions@.len(),
    {
        let keys = self.sessions@.dom();
        let tokens = keys.map(|key: u128| Token::of_key(key));
        assert forall|key: u128| keys.contains(key) implies Token::of_key(key).key() == key by {
            Token::key_of_key(key);
        }
        assert(tokens =~= self@.dom()) by {
            assert forall|token: Token| tokens.contains(token) <==> self@.dom().contains(
                token,
            ) by {
                token.key_determines_token();
                if self@.dom().contains(token) {
                    assert(keys.contains(token.key()));
                    assert(Token::of_key(token.key()) == token);
                }
                if tokens.contains(token) {
                    let key = choose|key: u128| keys.contains(key) && Token::of_key(key) == token;
                    Token::key_of_key(key);
                }
            }
        }
        assert forall|a: u128, b: u128| Token::of_key(a) == Token::of_key(b) implies a == b by {
            Token::key_of_key(a);
            Token::key_of_key(b);
        }
        lemma_map_size(keys, tokens, |key: u128| Token::of_key(key));
    }

    /// Looks a session up. A token that was never issued and one that was
    /// invalidated give the same answer.
    pub fn get(&self, token: &Token) -> (found: Result<T, Unauthorized>) where T: Clone
        ensures
            found is Ok <==> spec_get(self@, *token) is Some,
            found matches Ok(data) ==> cloned(spec_get(self@, *token).unwrap(), data),
    {
        let key = token.to_key();
        match self.sessions.get(&key) {
            Some(data) => Ok(data.clone()),
            None => Err(Unauthorized),
        }
    }

    /// Files a session under the candidate token if that token is free, and
    /// hands the data back if it is taken.
    pub fn try_create(&mut self, candidate: Token, data: T) -> (outcome: Result<Token, T>)
        ensures
            outcome is Ok <==> !old(self)@.contains_key(candidate),
            outcome matches Ok(token) ==> token == candidate && issued(
                old(self)@,
                token,
                data,
                final(self)@,
            ),
            outcome matches Err(returned) ==> returned == data && final(self)@ == old(self)@,
    {
        let key = candidate.to_key();
        if self.sessions.contains_key(&key) {
            return Err(data);
        }
        proof {
            candidate.key_determines_token();
        }
        self.file(key, data);
        Ok(candidate)
    }

    /// Files a session under a key that is free.
    fn file(&mut self, key: u128, data: T)
        requires
            !old(self).sessions@.contains_key(key),
        ensures
            final(self).sessions@ == old(self).sessions@.insert(key, data),
            issued(old(self)@, Token::of_key(key), data, final(self)@),
    {
        self.sessions.insert(key, data);
        proof {
            Token::key_of_key(key);
            assert forall|token: Token| token.key() == key implies token == Token::of_key(key) by {
                token.key_determines_token();
            }
            assert(final(self)@ =~= old(self)@.insert(Token::of_key(key), data));
        }
    }

    /// The least key that is free.
    fn least_free(&self) -> (key: u128)
        ensures
            !self.sessions@.contains_key(key),
    {
        let ghost taken = self.sessions@.dom();
        let ghost mut seen: Set<u128> = Set::empty();
        let mut count: usize = 0;
        let mut key: u128 = 0;
        while self.sessions.contains_key(&key)
            invariant
                taken == self.sessions@.dom(),
                taken.finite(),
                taken.len() == self.sessions.len(),
                seen.finite(),
                seen.len() == count,
                seen.subset_of(taken),
                forall|k: u128| seen.contains(k) <==> k < key,
                key == count,
            decreases taken.len() - count,
        {
            proof {
                seen = seen.insert(key);
                lemma_len_subset(seen, taken);
            }
            count += 1;
            key += 1;
        }
        key
    }

    /// Files a new session under a fresh token and returns the token.
    ///
    /// The token is drawn at random and drawn again while it is taken. No
    /// session that lives in the store has the token returned, whatever the
    /// random source yields: should `REDRAWS` draws in a row be taken, the
    /// least free key serves, so that the call returns in any case.
    pub fn create(&mut self, data: T) -> (token: Token)
        ensures
            issued(old(self)@, token, data, final(self)@),
    {
        let mut key = Token::from_array(&random::draw(&mut self.rng)).to_key();
        let mut redraws: u64 = REDRAWS;
        while redraws > 0 && self.sessions.contains_key(&key)
            invariant
                self.sessions == old(self).sessions,
            decreases redraws,
        {
            key = Token::from_array(&random::draw(&mut self.rng)).to_key();
            redraws -= 1;
        }
        if self.sessions.contains_key(&key) {
            key = self.least_free();
        }
        assert(self@ == old(self)@);
        self.file(key, data);
        Token::from_key(key)
    }

    /// The session that a request names, if it lives in the store: a handle
    /// with a copy of its data, not marked new. This only reads the store.
    pub fn resume(&self, token: Option<Token>) -> (session: Option<Session<T>>) where T: Clone
        ensures
            session is Some <==> token is Some && self@.contains_key(token.unwrap()),
            session matches Some(found) ==> {
                &&& !found.spec_is_new()
                &&& found.spec_token() == token.unwrap()
                &&& cloned(self@[token.unwrap()], found.spec_data())
            },
    {
        match token {
            Some(token) => match self.get(&token) {
                Ok(data) => Some(Session { token, is_new: false, data }),
                Err(_) => None,
            },
            None => None,
        }
    }

    /// Starts a session with the given data: files it under a fresh token and
    /// returns a handle with a copy of the data, marked new.
    pub fn start(&mut self, default: T) -> (session: Session<T>) where T: Clone
        ensures
            session.spec_is_new(),
            cloned(default, session.spec_data()),
            issued(old(self)@, session.spec_token(), default, final(self)@),
    {
        let data = default.clone();
        let token = self.create(default);
        Session { token, is_new: true, data }
    }

    /// The session that a request names, or a fresh one. Where the request
    /// names a token that lives in the store, the handle holds a copy of its
    /// data and the store stays as it is. Otherwise a session with the default
    /// data is started and the handle is marked new.
    pub fn get_or_create(&mut self, token: Option<Token>, default: T) -> (session: Session<T>) where
        T: Clone,

        ensures
            token is Some && old(self)@.contains_key(token.unwrap()) ==> {
                &&& !session.spec_is_new()
                &&& session.spec_token() == token.unwrap()
                &&& cloned(old(self)@[token.unwrap()], session.spec_data())
                &&& final(self)@ == old(self)@
            },
            !(token is Some && old(self)@.contains_key(token.unwrap())) ==> {
                &&& session.spec_is_new()
                &&& cloned(default, session.spec_data())
                &&& issued(old(self)@, session.spec_token(), default, final(self)@)
            },
    {
        match self.resume(token) {
            Some(session) => session,
            None => self.start(default),
        }
    }

    /// Removes a session and returns its data, if it was there.
    pub fn invalidate(&mut self, token: &Token) -> (removed: Option<T>)
        ensures
            removed == spec_get(old(self)@, *token),
            final(self)@ == old(self)@.remove(*token),
    {
        let key = token.to_key();
        let removed = self.sessions.remove(&key);
        proof {
            assert forall|other: Token| other.key() == key implies other == *token by {
                other.key_determines_token();
                token.key_determines_token();
            }
            assert(final(self)@ =~= old(self)@.remove(*token));
        }
        removed
    }
}

} // verus!

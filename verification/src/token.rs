//! Session tokens and their textual form in a cookie.

use vstd::prelude::*;
use vstd::bytes::*;
use vstd::string::*;
use crate::base64url;

verus! {

/// The number of raw bytes in a token.
pub const TOKEN_LEN: usize = 16;

/// An opaque 128-bit identifier that names a session.
///
/// Two tokens are equal exactly when their sixteen bytes are.
#[derive(Clone, Copy, Debug, PartialEq, Eq, Structural, Hash)]
pub struct Token {
    value: u128,
}

impl View for Token {
    type V = Seq<u8>;

    /// The sixteen raw bytes of the token.
    closed spec fn view(&self) -> Seq<u8> {
        spec_u128_to_le_bytes(self.value)
    }
}

impl Token {
    /// The key under which a store files this token.
    pub(crate) closed spec fn key(self) -> u128 {
        self.value
    }

    /// The token with the given raw bytes.
    pub closed spec fn of_bytes(bytes: Seq<u8>) -> Token
        recommends
            bytes.len() == TOKEN_LEN,
    {
        Token { value: spec_u128_from_le_bytes(bytes) }
    }

    /// The token filed under the given key.
    pub(crate) closed spec fn of_key(key: u128) -> Token {
        Token { value: key }
    }

    /// What a cookie value decodes to: the token whose bytes the text holds in
    /// URL-safe base64, or nothing where the text is no such encoding of
    /// exactly sixteen bytes.
    pub open spec fn spec_decode(text: Seq<char>) -> Option<Token> {
        match base64url::url_safe_bytes(vstd::utf8::encode_utf8(text)) {
            Some(bytes) => if bytes.len() == TOKEN_LEN {
                Some(Token::of_bytes(bytes))
            } else {
                None
            },
            None => None,
        }
    }

    /// A token has sixteen bytes, and they determine it.
    pub proof fn bytes_determine_token(self)
        ensures
            self@.len() == TOKEN_LEN,
            Token::of_bytes(self@) == self,
    {
        lemma_auto_spec_u128_to_from_le_bytes();
        assert(spec_u128_to_le_bytes(self.value).len() == TOKEN_LEN);
    }

    /// A token is the one filed under its key.
    pub(crate) proof fn key_determines_token(self)
        ensures
            Token::of_key(self.key()) == self,
    {
    }

    /// A key is the key of the token filed under it.
    pub(crate) proof fn key_of_key(key: u128)
        ensures
            Token::of_key(key).key() == key,
    {
    }

    /// Sixteen bytes are the bytes of the token made of them.
    pub proof fn token_keeps_bytes(bytes: Seq<u8>)
        requires
            bytes.len() == TOKEN_LEN,
        ensures
            Token::of_bytes(bytes)@ == bytes,
    {
        lemma_auto_spec_u128_to_from_le_bytes();
    }

    /// Reads a token from raw bytes: there is one exactly when there are
    /// sixteen of them.
    pub fn from_bytes(bytes: &[u8]) -> (token: Option<Token>)
        ensures
            token == (if bytes@.len() == TOKEN_LEN {
                Some(Token::of_bytes(bytes@))
            } else {
                None
            }),
    {
        if bytes.len() == TOKEN_LEN {
            Some(Token { value: u128_from_le_bytes(bytes) })
        } else {
            None
        }
    }

    /// The token made of sixteen bytes.
    pub fn from_array(bytes: &[u8; 16]) -> (token: Token)
        ensures
            token == Token::of_bytes(bytes@),
            token@ == bytes@,
    {
        proof {
            Token::token_keeps_bytes(bytes@);
        }
        Token { value: u128_from_le_bytes(bytes.as_slice()) }
    }

    /// The key under which a store files this token.
    pub(crate) fn to_key(&self) -> (key: u128)
        ensures
            key == self.key(),
    {
        self.value
    }

    /// The token filed under the given key.
    pub(crate) fn from_key(key: u128) -> (token: Token)
        ensures
            token == Token::of_key(key),
            token.key() == key,
    {
        Token { value: key }
    }

    /// The sixteen raw bytes.
    pub fn to_bytes(&self) -> (bytes: Vec<u8>)
        ensures
            bytes@ == self@,
            bytes@.len() == TOKEN_LEN,
    {
        u128_to_le_bytes(self.value)
    }

    /// The cookie value for this token: its bytes in URL-safe base64.
    ///
    /// Decoding the value gives this token back.
    pub fn encode(&self) -> (text: String)
        ensures
            text@ == base64url::url_safe_text(self@),
            Token::spec_decode(text@) == Some(*self),
    {
        let bytes = self.to_bytes();
        proof {
            self.bytes_determine_token();
        }
        base64url::encode(bytes.as_slice())
    }

    /// Reads a token from a cookie value. A value that is not URL-safe base64,
    /// or that holds another number of bytes than sixteen, gives no token.
    pub fn decode(text: &str) -> (token: Option<Token>)
        ensures
            token == Token::spec_decode(text@),
    {
        match base64url::decode(text.as_bytes()) {
            Some(bytes) => Token::from_bytes(bytes.as_slice()),
            None => None,
        }
    }
}

} // verus!

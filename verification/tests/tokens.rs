use tide_authorize::session::cookie_token;
use tide_authorize::Token;

fn counting_bytes() -> [u8; 16] {
    [0, 1, 2, 3, 4, 5, 6, 7, 8, 9, 10, 11, 12, 13, 14, 15]
}

#[test]
fn cookie_round_trip() {
    let token = Token::from_array(&counting_bytes());
    let text = token.encode();
    assert_eq!(Token::decode(&text), Some(token));
}

#[test]
fn cookie_round_trip_of_many_payloads() {
    let mut bytes = [0u8; 16];
    for round in 0..64u32 {
        for (at, byte) in bytes.iter_mut().enumerate() {
            *byte = (round as usize * 37 + at * 11 + 5) as u8;
        }
        let token = Token::from_array(&bytes);
        assert_eq!(Token::decode(&token.encode()), Some(token));
        assert_eq!(token.to_bytes(), bytes.to_vec());
    }
}

#[test]
fn encode_gives_padded_base64() {
    let token = Token::from_array(&counting_bytes());
    assert_eq!(token.encode(), "AAECAwQFBgcICQoLDA0ODw==");
}

#[test]
fn encode_uses_the_url_safe_alphabet() {
    let token = Token::from_array(&[0xff; 16]);
    assert_eq!(token.encode(), "_____________________w==");
    let token = Token::from_array(&[0xfb; 16]);
    assert!(token.encode().contains('-'));
    assert!(!token.encode().contains('+'));
    assert!(!token.encode().contains('/'));
}

#[test]
fn decode_reads_the_bytes() {
    let token = Token::decode("AAECAwQFBgcICQoLDA0ODw==").unwrap();
    assert_eq!(token.to_bytes(), counting_bytes().to_vec());
}

#[test]
fn decode_refuses_another_length() {
    assert_eq!(Token::decode("AAEC"), None);
    assert_eq!(Token::decode(""), None);
    // fifteen and seventeen bytes
    assert_eq!(Token::decode("AAECAwQFBgcICQoLDA0O"), None);
    assert_eq!(Token::decode("AAECAwQFBgcICQoLDA0ODxA="), None);
}

#[test]
fn decode_refuses_what_is_not_base64() {
    assert_eq!(Token::decode("!!!!!!!!!!!!!!!!!!!!!!=="), None);
    assert_eq!(Token::decode("not a token"), None);
    // the standard alphabet is not the URL-safe one
    assert_eq!(Token::decode("/////////////////////w=="), None);
    assert_eq!(Token::decode("AAECAwQFBgcICQoLDA0ODw=A"), None);
    assert_eq!(Token::decode("AAECAwQFBgcICQoLDA0ODw==\n"), None);
}

#[test]
fn decode_reads_a_value_without_padding() {
    let token = Token::decode("AAECAwQFBgcICQoLDA0ODw").unwrap();
    assert_eq!(token.to_bytes(), counting_bytes().to_vec());
}

#[test]
fn from_bytes_takes_exactly_sixteen() {
    assert_eq!(Token::from_bytes(&counting_bytes()), Some(Token::from_array(&counting_bytes())));
    assert_eq!(Token::from_bytes(&counting_bytes()[..15]), None);
    assert_eq!(Token::from_bytes(&[0u8; 17]), None);
    assert_eq!(Token::from_bytes(&[]), None);
}

#[test]
fn tokens_are_equal_by_their_bytes() {
    let mut other = counting_bytes();
    assert_eq!(Token::from_array(&counting_bytes()), Token::from_array(&other));
    other[15] = 16;
    assert_ne!(Token::from_array(&counting_bytes()), Token::from_array(&other));
    other = counting_bytes();
    other[0] = 1;
    assert_ne!(Token::from_array(&counting_bytes()), Token::from_array(&other));
}

#[test]
fn missing_cookie_names_no_token() {
    assert_eq!(cookie_token(None), None);
}

#[test]
fn ill_formed_cookie_names_no_token() {
    assert_eq!(cookie_token(Some("AAEC")), None);
    assert_eq!(cookie_token(Some("%%%")), None);
}

#[test]
fn well_formed_cookie_names_its_token() {
    let token = Token::from_array(&counting_bytes());
    assert_eq!(cookie_token(Some("AAECAwQFBgcICQoLDA0ODw==")), Some(token));
}

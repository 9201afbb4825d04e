use tide_authorize::SessionStore;
use tide_authorize::Token;

fn store_of_strings(seed: u8) -> SessionStore<String> {
    SessionStore::new([seed; 32])
}

#[test]
fn get_after_create() {
    let mut store = store_of_strings(1);
    let token = store.create("cart: 3 items".to_string());
    assert_eq!(store.get(&token).unwrap(), "cart: 3 items");
}

#[test]
fn invalidate_then_get() {
    let mut store = store_of_strings(2);
    let token = store.create("data".to_string());
    assert_eq!(store.invalidate(&token), Some("data".to_string()));
    assert!(store.get(&token).is_err());
    assert_eq!(store.invalidate(&token), None);
}

#[test]
fn get_of_a_token_never_issued_is_unauthorized() {
    let store = store_of_strings(3);
    assert!(store.get(&Token::from_array(&[7; 16])).is_err());
}

#[test]
fn issued_tokens_are_pairwise_distinct() {
    let mut store: SessionStore<usize> = SessionStore::new([4; 32]);
    let mut tokens = Vec::new();
    for n in 0..500usize {
        tokens.push(store.create(n));
    }
    for (i, a) in tokens.iter().enumerate() {
        for b in tokens.iter().skip(i + 1) {
            assert_ne!(a, b);
        }
    }
    assert_eq!(store.len(), 500);
    for (n, token) in tokens.iter().enumerate() {
        assert_eq!(store.get(token).unwrap(), n);
    }
}

#[test]
fn empty_store_has_no_session() {
    let store = store_of_strings(5);
    assert_eq!(store.len(), 0);
}

#[test]
fn try_create_takes_a_free_token() {
    let mut store = store_of_strings(6);
    let candidate = Token::from_array(&[9; 16]);
    assert_eq!(store.try_create(candidate, "first".to_string()), Ok(candidate));
    assert_eq!(store.get(&candidate).unwrap(), "first");
    assert_eq!(store.len(), 1);
}

#[test]
fn try_create_leaves_a_taken_token() {
    let mut store = store_of_strings(7);
    let candidate = Token::from_array(&[9; 16]);
    assert_eq!(store.try_create(candidate, "first".to_string()), Ok(candidate));
    assert_eq!(store.try_create(candidate, "second".to_string()), Err("second".to_string()));
    assert_eq!(store.get(&candidate).unwrap(), "first");
    assert_eq!(store.len(), 1);
}

#[test]
fn create_draws_again_on_a_collision() {
    // Two stores with one seed draw the same tokens.
    let mut first = store_of_strings(8);
    let drawn = first.create("a".to_string());
    let mut second = store_of_strings(8);
    assert_eq!(second.try_create(drawn, "taken".to_string()), Ok(drawn));
    let fresh = second.create("b".to_string());
    assert_ne!(fresh, drawn);
    assert_eq!(second.get(&drawn).unwrap(), "taken");
    assert_eq!(second.get(&fresh).unwrap(), "b");
    assert_eq!(second.len(), 2);
}

#[test]
fn stores_with_one_seed_issue_the_same_tokens() {
    let mut first = store_of_strings(10);
    let mut second = store_of_strings(10);
    assert_eq!(first.create("a".to_string()), second.create("b".to_string()));
    let mut third = store_of_strings(11);
    assert_ne!(first.create("a".to_string()), third.create("c".to_string()));
}

#[test]
fn create_keeps_the_other_sessions() {
    let mut store = store_of_strings(12);
    let first = store.create("one".to_string());
    let second = store.create("two".to_string());
    assert_eq!(store.get(&first).unwrap(), "one");
    assert_eq!(store.get(&second).unwrap(), "two");
    store.invalidate(&first);
    assert!(store.get(&first).is_err());
    assert_eq!(store.get(&second).unwrap(), "two");
    assert_eq!(store.len(), 1);
}

#[test]
fn get_or_create_finds_a_live_session() {
    let mut store = store_of_strings(13);
    let token = store.create("kept".to_string());
    let session = store.get_or_create(Some(token), "default".to_string());
    assert!(!session.is_new());
    assert_eq!(session.token(), token);
    assert_eq!(session.data(), "kept");
    assert_eq!(store.len(), 1);
}

#[test]
fn get_or_create_without_a_token_starts_a_session() {
    let mut store = store_of_strings(14);
    let session = store.get_or_create(None, "default".to_string());
    assert!(session.is_new());
    assert_eq!(session.data(), "default");
    assert_eq!(store.get(&session.token()).unwrap(), "default");
    assert_eq!(store.len(), 1);
}

#[test]
fn get_or_create_with_an_unknown_token_starts_a_session() {
    let mut store = store_of_strings(15);
    let stale = store.create("old".to_string());
    store.invalidate(&stale);
    let session = store.get_or_create(Some(stale), "default".to_string());
    assert!(session.is_new());
    assert_eq!(session.data(), "default");
    assert_eq!(store.get(&session.token()).unwrap(), "default");
}

#[test]
fn a_new_session_sets_its_cookie() {
    let mut store = store_of_strings(16);
    let session = store.get_or_create(None, "default".to_string());
    let expected = format!("session_id={}; Secure; HttpOnly", session.token().encode());
    assert_eq!(session.cookie(), Some(expected.clone()));
    let mut headers = vec![("Content-Type".to_string(), "text/plain".to_string())];
    session.attach(&mut headers);
    assert_eq!(
        headers,
        vec![
            ("Content-Type".to_string(), "text/plain".to_string()),
            ("Set-Cookie".to_string(), expected),
        ]
    );
}

#[test]
fn a_cookie_has_the_exact_form() {
    let mut store = store_of_strings(18);
    let session = store.get_or_create(None, "x".to_string());
    let value = session.cookie().unwrap();
    assert!(value.starts_with("session_id="));
    assert!(value.ends_with("==; Secure; HttpOnly"));
    assert_eq!(value.len(), "session_id=".len() + 24 + "; Secure; HttpOnly".len());
    let text = &value["session_id=".len()..value.len() - "; Secure; HttpOnly".len()];
    assert_eq!(Token::decode(text), Some(session.token()));
}

#[test]
fn a_known_session_sets_no_cookie() {
    let mut store = store_of_strings(19);
    let token = store.create("kept".to_string());
    let session = store.get_or_create(Some(token), "default".to_string());
    assert_eq!(session.cookie(), None);
    let mut headers = vec![("Content-Type".to_string(), "text/plain".to_string())];
    session.attach(&mut headers);
    assert_eq!(headers, vec![("Content-Type".to_string(), "text/plain".to_string())]);
}

#[test]
fn changes_to_the_handle_stay_out_of_the_store() {
    let mut store = store_of_strings(20);
    let token = store.create("kept".to_string());
    let mut session = store.get_or_create(Some(token), "default".to_string());
    session.data_mut().push_str(" and changed");
    assert_eq!(session.data(), "kept and changed");
    assert_eq!(session.token(), token);
    assert!(!session.is_new());
    assert_eq!(store.get(&token).unwrap(), "kept");
}

use pwhash::bcrypt::BcryptSetup;
use tide_authorize::AccountSet;
use tide_authorize::Authorization;
use tide_authorize::Credentials;
use tide_authorize::Hashed;
use tide_authorize::Realm;
use tide_authorize::RealmError;
use tide_authorize::User;

fn quick_hash(password: &str) -> Hashed {
    let setup = BcryptSetup { cost: Some(4), ..Default::default() };
    Hashed::new(pwhash::bcrypt::hash_with(setup, password).unwrap())
}

fn accounts() -> AccountSet {
    let mut credentials = Credentials::new();
    assert!(credentials.prehashed("admin".to_string(), quick_hash("admin")));
    assert!(credentials.prehashed("irc".to_string(), quick_hash("hunter2")));
    credentials.freeze(Realm::new("WorldOfPureImagination").unwrap())
}

fn login(user: &str, password: &str) -> Authorization {
    Authorization::Basic(user.to_string(), password.to_string())
}

fn name(user: Option<User>) -> Option<String> {
    user.map(User::into_name)
}

#[test]
fn realm_formatting() {
    let realm = Realm::new("R").unwrap();
    assert_eq!(realm.www_authenticate().as_bytes(), b"Basic realm=\"R\"");
    assert_eq!(realm.as_bytes(), b"Basic realm=\"R\"");
    let challenge = Credentials::new().freeze(realm).authenticate();
    assert_eq!(challenge.status, 401);
    assert_eq!(challenge.www_authenticate.as_bytes(), b"Basic realm=\"R\"");
    assert_eq!(challenge.www_authenticate.to_str().unwrap(), "Basic realm=\"R\"");
}

#[test]
fn realm_names_are_taken_as_they_are() {
    assert_eq!(Realm::new("").unwrap().www_authenticate().as_bytes(), b"Basic realm=\"\"");
    assert_eq!(
        Realm::new("a \\\"b\\\"").unwrap().www_authenticate().as_bytes(),
        b"Basic realm=\"a \\\"b\\\"\""
    );
    assert_eq!(
        Realm::new("tab\there").unwrap().www_authenticate().as_bytes(),
        b"Basic realm=\"tab\there\""
    );
    assert_eq!(
        Realm::new("caf\u{e9}").unwrap().www_authenticate().as_bytes(),
        b"Basic realm=\"caf\xc3\xa9\""
    );
}

#[test]
fn realm_refuses_an_illegal_character() {
    assert!(matches!(Realm::new("line\nbreak"), Err(RealmError::UnhandledCharacter)));
    assert!(matches!(Realm::new("\r"), Err(RealmError::UnhandledCharacter)));
    assert!(matches!(Realm::new("nul\0"), Err(RealmError::UnhandledCharacter)));
    assert!(matches!(Realm::new("del\x7f"), Err(RealmError::UnhandledCharacter)));
    assert!(matches!(Realm::new("\x1f"), Err(RealmError::UnhandledCharacter)));
    assert!(Realm::new(" ~").is_ok());
}

#[test]
fn a_cloned_realm_has_the_same_value() {
    let realm = Realm::new("R").unwrap();
    let copy = realm.clone();
    assert_eq!(copy.www_authenticate(), realm.www_authenticate());
}

#[test]
fn check_lets_a_valid_login_in() {
    let set = accounts();
    assert_eq!(name(set.check(login("admin", "admin"))), Some("admin".to_string()));
    assert_eq!(name(set.check(login("irc", "hunter2"))), Some("irc".to_string()));
}

#[test]
fn check_rejects_the_rest() {
    let set = accounts();
    assert_eq!(name(set.check(login("admin", "hunter2"))), None);
    assert_eq!(name(set.check(login("irc", ""))), None);
    assert_eq!(name(set.check(login("nobody", "admin"))), None);
    assert_eq!(name(set.check(Authorization::Unknown)), None);
}

#[test]
fn extract_answers_a_failure_with_the_challenge() {
    let set = accounts();
    let expected: &[u8] = b"Basic realm=\"WorldOfPureImagination\"";
    for authorization in [login("admin", "wrong"), login("nobody", "admin"), Authorization::Unknown] {
        match set.extract(authorization) {
            Ok(_) => panic!("let in"),
            Err(challenge) => {
                assert_eq!(challenge.status, 401);
                assert_eq!(challenge.www_authenticate.as_bytes(), expected);
            }
        }
    }
    match set.extract(login("irc", "hunter2")) {
        Ok(user) => assert_eq!(user.name(), "irc"),
        Err(_) => panic!("kept out"),
    }
}

#[test]
fn try_extract_reports_a_failure_as_unauthorized() {
    let set = accounts();
    assert!(set.try_extract(login("admin", "wrong")).is_err());
    assert!(set.try_extract(Authorization::Unknown).is_err());
    assert_eq!(set.try_extract(login("admin", "admin")).unwrap().name(), "admin");
}

#[test]
fn single_user_restriction() {
    let protected = accounts().single_user("admin".to_string());
    match protected.extract(login("irc", "hunter2")) {
        Ok(_) => panic!("let in"),
        Err(challenge) => {
            assert_eq!(challenge.status, 401);
            assert_eq!(
                challenge.www_authenticate.as_bytes(),
                b"Basic realm=\"WorldOfPureImagination\""
            );
        }
    }
    match protected.extract(login("admin", "admin")) {
        Ok(user) => assert_eq!(user.name(), "admin"),
        Err(_) => panic!("kept out"),
    }
    assert!(protected.extract(login("admin", "hunter2")).is_err());
    assert!(protected.extract(Authorization::Unknown).is_err());
}

#[test]
fn single_user_may_name_a_user_without_an_account() {
    let protected = accounts().single_user("root".to_string());
    assert!(protected.extract(login("root", "admin")).is_err());
    assert!(protected.extract(login("admin", "admin")).is_err());
}

#[test]
fn a_cloned_set_refers_to_the_same_accounts() {
    let set = accounts();
    let copy = set.clone();
    assert_eq!(name(copy.check(login("irc", "hunter2"))), Some("irc".to_string()));
    assert_eq!(name(copy.check(login("irc", "admin"))), None);
    assert_eq!(copy.realm().www_authenticate(), set.realm().www_authenticate());
    assert!(copy.credentials().check("admin", "admin").is_ok());
    assert!(std::ptr::eq(copy.credentials(), set.credentials()));
}

#[test]
fn a_header_is_checked_from_end_to_end() {
    let set = accounts();
    let values = vec![b"Basic aXJjOmh1bnRlcjI=".to_vec()];
    assert_eq!(
        name(set.check(Authorization::from_header(&values))),
        Some("irc".to_string())
    );
    let twice = vec![b"Basic aXJjOmh1bnRlcjI=".to_vec(), b"Basic aXJjOmh1bnRlcjI=".to_vec()];
    assert_eq!(name(set.check(Authorization::from_header(&twice))), None);
}

use todo_axum_htmx::auth::{
    check_fingerprint, login, logout, resolve_session, signup, AuthState, LoginResult,
    SignupResult,
};
use todo_axum_htmx::sessions::{LoginForm, SessionCodec};
use todo_axum_htmx::users::{salted_hash, StoreError, User, UserForm, UserStore};

const KEY_HEX: &str = "000102030405060708090A0B0C0D0E0F101112131415161718191A1B1C1D1E1F";
const NOW: u64 = 1_700_000_000;

fn codec() -> SessionCodec {
    SessionCodec::from_hex_key(KEY_HEX).unwrap()
}

fn signup_form(email: &str, password: &str, confirmation: &str) -> UserForm {
    UserForm {
        email: String::from(email),
        password: String::from(password),
        email_errors: String::new(),
        password_errors: String::new(),
        password_confirmation: String::from(confirmation),
    }
}

fn login_form(email: &str, password: &str) -> LoginForm {
    LoginForm {
        email: String::from(email),
        password: String::from(password),
        email_errors: String::new(),
        password_errors: String::new(),
    }
}

#[test]
fn short_password_is_rejected_and_no_user_created() {
    let mut store = UserStore::new();
    let form = signup_form("a@b.com", "short1", "short1");
    let r = signup(form, &mut store, &codec(), NOW).unwrap();
    match r {
        SignupResult::Invalid(f) => {
            assert_eq!(
                f.password_errors,
                "passwords must be at least 10 characters long"
            );
            assert_eq!(f.email_errors, "");
        }
        SignupResult::Created(_) => panic!("short password accepted"),
    }
    assert!(store.find_by_email(&String::from("a@b.com")).is_none());
}

#[test]
fn mismatched_confirmation_is_rejected_and_no_user_created() {
    let mut store = UserStore::new();
    let form = signup_form("a@b.com", "longenough1", "different1");
    let r = signup(form, &mut store, &codec(), NOW).unwrap();
    match r {
        SignupResult::Invalid(f) => {
            assert_eq!(
                f.password_errors,
                "password and password confirmation must match"
            );
            assert_eq!(f.email_errors, "");
        }
        SignupResult::Created(_) => panic!("mismatched confirmation accepted"),
    }
    assert!(store.find_by_email(&String::from("a@b.com")).is_none());
}

#[test]
fn short_and_mismatched_reports_both() {
    let mut store = UserStore::new();
    let form = signup_form("a@b.com", "short1", "other1");
    let r = signup(form, &mut store, &codec(), NOW).unwrap();
    match r {
        SignupResult::Invalid(f) => {
            assert_eq!(
                f.password_errors,
                "passwords must be at least 10 characters long, \
                 password and password confirmation must match"
            );
        }
        SignupResult::Created(_) => panic!("invalid form accepted"),
    }
}

#[test]
fn duplicate_email_exactly_one_signup_succeeds() {
    let mut store = UserStore::new();
    let codec = codec();
    let first = signup(
        signup_form("a@b.com", "longenough1", "longenough1"),
        &mut store,
        &codec,
        NOW,
    )
    .unwrap();
    assert!(matches!(first, SignupResult::Created(_)));
    let second = signup(
        signup_form("a@b.com", "alsolongenough2", "alsolongenough2"),
        &mut store,
        &codec,
        NOW,
    )
    .unwrap();
    match second {
        SignupResult::Invalid(f) => {
            assert_eq!(f.email_errors, "A user with this email already exists");
        }
        SignupResult::Created(_) => panic!("duplicate email accepted"),
    }
    let stored = store.find_by_email(&String::from("a@b.com")).unwrap();
    assert!(stored.authenticate("longenough1"));
    assert!(!stored.authenticate("alsolongenough2"));
}

#[test]
fn signup_token_authenticates_the_new_user() {
    let mut store = UserStore::new();
    let codec = codec();
    let r = signup(
        signup_form("a@b.com", "longenough1", "longenough1"),
        &mut store,
        &codec,
        NOW,
    )
    .unwrap();
    let token = match r {
        SignupResult::Created(token) => token,
        SignupResult::Invalid(_) => panic!("valid signup refused"),
    };
    assert_eq!(
        resolve_session(&codec, &token, &store, NOW + 10),
        AuthState::Authenticated(1)
    );
}

#[test]
fn login_succeeds_with_the_right_password() {
    let mut store = UserStore::new();
    let codec = codec();
    signup(
        signup_form("a@b.com", "longenough1", "longenough1"),
        &mut store,
        &codec,
        NOW,
    )
    .unwrap();
    let r = login(login_form("a@b.com", "longenough1"), &store, &codec, NOW);
    let token = match r {
        LoginResult::LoggedIn(token) => token,
        LoginResult::Invalid(_) => panic!("correct password refused"),
    };
    assert_eq!(
        resolve_session(&codec, &token, &store, NOW + 10),
        AuthState::Authenticated(1)
    );
}

#[test]
fn both_login_failures_show_the_same_message() {
    let mut store = UserStore::new();
    let codec = codec();
    signup(
        signup_form("a@b.com", "longenough1", "longenough1"),
        &mut store,
        &codec,
        NOW,
    )
    .unwrap();
    let wrong_password = login(login_form("a@b.com", "wrongpassword1"), &store, &codec, NOW);
    let unknown_email = login(login_form("nobody@b.com", "longenough1"), &store, &codec, NOW);
    let m1 = match wrong_password {
        LoginResult::Invalid(f) => f.email_errors,
        LoginResult::LoggedIn(_) => panic!("wrong password accepted"),
    };
    let m2 = match unknown_email {
        LoginResult::Invalid(f) => f.email_errors,
        LoginResult::LoggedIn(_) => panic!("unknown email accepted"),
    };
    assert_eq!(m1, m2);
    assert_eq!(m1, "No user found for that email/password combination");
}

#[test]
fn stale_token_fails_after_password_change() {
    let mut store = UserStore::new();
    let codec = codec();
    let r = signup(
        signup_form("a@b.com", "longenough1", "longenough1"),
        &mut store,
        &codec,
        NOW,
    )
    .unwrap();
    let token = match r {
        SignupResult::Created(token) => token,
        SignupResult::Invalid(_) => panic!("valid signup refused"),
    };
    // The same account with a regenerated credential: same id and email,
    // fresh salt and digest.
    let mut changed = UserStore::new();
    signup(
        signup_form("a@b.com", "brandnewpassword2", "brandnewpassword2"),
        &mut changed,
        &codec,
        NOW,
    )
    .unwrap();
    assert_eq!(
        resolve_session(&codec, &token, &store, NOW + 10),
        AuthState::Authenticated(1)
    );
    assert_eq!(
        resolve_session(&codec, &token, &changed, NOW + 10),
        AuthState::Anonymous
    );
    // The cross-check itself: the decoded claims against the new credential.
    let claims = codec.decode(&token, NOW + 10).unwrap();
    let old_user = store.find_by_email(&String::from("a@b.com")).unwrap();
    let new_user = changed.find_by_email(&String::from("a@b.com")).unwrap();
    assert!(check_fingerprint(&claims, &old_user));
    assert!(!check_fingerprint(&claims, &new_user));
}

#[test]
fn bad_tokens_resolve_to_anonymous() {
    let mut store = UserStore::new();
    let codec = codec();
    let r = signup(
        signup_form("a@b.com", "longenough1", "longenough1"),
        &mut store,
        &codec,
        NOW,
    )
    .unwrap();
    let token = match r {
        SignupResult::Created(token) => token,
        SignupResult::Invalid(_) => panic!("valid signup refused"),
    };
    assert_eq!(
        resolve_session(&codec, "garbage", &store, NOW),
        AuthState::Anonymous
    );
    let mut bytes = token.clone().into_bytes();
    bytes[3] ^= 0x01;
    let tampered = String::from_utf8(bytes).unwrap();
    assert_eq!(
        resolve_session(&codec, &tampered, &store, NOW),
        AuthState::Anonymous
    );
    assert_eq!(
        resolve_session(&codec, &token, &store, NOW + 90 * 24 * 60 * 60 + 1),
        AuthState::Anonymous
    );
}

#[test]
fn logout_returns_to_anonymous() {
    assert_eq!(logout(AuthState::Authenticated(7)), AuthState::Anonymous);
    assert_eq!(logout(AuthState::Anonymous), AuthState::Anonymous);
}

#[test]
fn store_assigns_sequential_ids_and_enforces_uniqueness() {
    let mut store = UserStore::new();
    assert!(store.has_room());
    let (h1, s1) = salted_hash("firstpassword1").unwrap();
    let (h2, s2) = salted_hash("secondpassword2").unwrap();
    let u1 = store
        .insert(String::from("a@b.com"), h1, s1)
        .unwrap();
    let u2 = store
        .insert(String::from("c@d.com"), h2.clone(), s2.clone())
        .unwrap();
    assert_eq!(u1.id, Some(1));
    assert_eq!(u2.id, Some(2));
    assert!(matches!(
        store.insert(String::from("a@b.com"), h2, s2),
        Err(StoreError::DuplicateEmail)
    ));
    assert_eq!(store.find_by_id(1).unwrap().email, "a@b.com");
    assert_eq!(store.find_by_id(2).unwrap().email, "c@d.com");
    assert!(store.find_by_id(3).is_none());
}

#[test]
fn attempt_login_mirrors_the_lookup() {
    let (digest_hex, salt_hex) = salted_hash("longenough1").unwrap();
    let user = User {
        id: Some(1),
        email: String::from("a@b.com"),
        password_hash: digest_hex,
        salt: salt_hex,
    };
    let (found, _) = login_form("a@b.com", "longenough1").attempt_login(Some(user.duplicate()));
    assert!(found.is_some());
    let (missing, echoed) = login_form("a@b.com", "wrongpassword1").attempt_login(Some(user));
    assert!(missing.is_none());
    assert_eq!(
        echoed.email_errors,
        "No user found for that email/password combination"
    );
    let (none, echoed2) = login_form("a@b.com", "longenough1").attempt_login(None);
    assert!(none.is_none());
    assert_eq!(echoed2.email_errors, echoed.email_errors);
}

//! The authentication flow: signup, login, logout, and the resolution of an
//! incoming session token to an identity. Orchestrates the credential
//! hasher, the session codec, and the user store; the transport layer around
//! it only moves forms, tokens and cookies.

use vstd::pervasive::unreached;
use vstd::prelude::*;

use crate::sessions::{
    decode_spec, token_text, ClaimsView, LoginForm, SessionClaims, SessionCodec,
    SESSION_LIFETIME_SECONDS,
};
use crate::users::{
    credential_fingerprint, credential_matches, email_errors_spec, fingerprint_spec,
    password_errors_spec, salted_hash, InternalError, User, UserForm, UserStore, MIN_PASSWORD_LEN,
};

verus! {

/// The two observable authentication states of a request.
#[derive(Clone, Copy, Debug, PartialEq, Eq, Structural)]
pub enum AuthState {
    Anonymous,
    Authenticated(u64),
}

/// The outcome of a signup attempt.
#[derive(Debug)]
pub enum SignupResult {
    /// The account was created; the new session's token is enclosed.
    Created(String),
    /// Validation failed; the form comes back with its error fields set.
    Invalid(UserForm),
}

/// The outcome of a login attempt.
#[derive(Debug)]
pub enum LoginResult {
    /// The password matched; the new session's token is enclosed.
    LoggedIn(String),
    /// No match; the form comes back with one generic error message.
    Invalid(LoginForm),
}

/// The signup rules: password long enough, confirmation equal, email free.
pub open spec fn signup_valid(form: UserForm, email_taken: bool) -> bool {
    &&& form.password@.len() >= MIN_PASSWORD_LEN
    &&& form.password@ == form.password_confirmation@
    &&& !email_taken
}

/// Whether some stored user has this email and a credential the password
/// matches.
pub open spec fn login_succeeds_in(store: UserStore, email: Seq<char>, password: Seq<char>) -> bool {
    exists|i: int|
        0 <= i < store.rows().len() && (#[trigger] store.rows()[i]).email@ == email
            && credential_matches(
            password,
            store.rows()[i].password_hash@,
            store.rows()[i].salt@,
        )
}

/// Whether the token's fingerprint still matches a current stored
/// credential: the cross-check that makes a password change revoke every
/// session issued before it.
pub open spec fn fingerprint_ok(c: ClaimsView, password_hash: Seq<char>) -> bool {
    c.credential_fingerprint == fingerprint_spec(password_hash)
}

/// Whether the store grants the decoded claims an identity: a stored user
/// carries the claimed id and a credential whose fingerprint the claims
/// still match.
pub open spec fn token_grants(store: UserStore, c: ClaimsView) -> bool {
    &&& c.user_id <= i32::MAX as u64
    &&& exists|i: int|
        0 <= i < store.rows().len() && (#[trigger] store.rows()[i]).id == Some(
            c.user_id as i32,
        ) && fingerprint_ok(c, store.rows()[i].password_hash@)
}

/// Sign up a new account. Validation failures (short password, mismatched
/// confirmation, taken email) echo the form back with field-scoped messages
/// and change nothing. On success the user is stored with a freshly salted
/// credential — the store itself still enforcing email uniqueness in the
/// same step as the insertion — and a session token is minted for the new
/// user. Fails only if the random source does.
pub fn signup(form: UserForm, store: &mut UserStore, codec: &SessionCodec, now: u64) -> (r: Result<
    SignupResult,
    InternalError,
>)
    requires
        old(store).wf(),
        old(store).has_capacity(),
        codec.wf(),
        now + SESSION_LIFETIME_SECONDS <= u64::MAX,
    ensures
        final(store).wf(),
        !signup_valid(form, old(store).contains_email(form.email@)) ==> (r matches Ok(s)
            && s matches SignupResult::Invalid(f) && {
            &&& *final(store) == *old(store)
            &&& f.email@ == form.email@
            &&& f.password@ == form.password@
            &&& f.password_confirmation@ == form.password_confirmation@
            &&& f.password_errors@ == password_errors_spec(
                form.password@,
                form.password_confirmation@,
            )
            &&& f.email_errors@ == email_errors_spec(old(store).contains_email(form.email@))
        }),
        signup_valid(form, old(store).contains_email(form.email@)) ==> (match r {
            Ok(s) => s matches SignupResult::Created(token) && {
                &&& final(store).rows().len() == old(store).rows().len() + 1
                &&& final(store).rows().take(old(store).rows().len() as int) == old(store).rows()
                &&& final(store).next_id_spec() == old(store).next_id_spec() + 1
                &&& ({
                    let u = final(store).rows().last();
                    &&& u.id == Some(old(store).next_id_spec() as i32)
                    &&& u.email@ == form.email@
                    &&& credential_matches(form.password@, u.password_hash@, u.salt@)
                    &&& token@ == token_text(
                        codec.key_view(),
                        (ClaimsView {
                            user_id: old(store).next_id_spec() as u64,
                            issued_at: now,
                            expires_at: (now + SESSION_LIFETIME_SECONDS) as u64,
                            credential_fingerprint: fingerprint_spec(u.password_hash@),
                        }),
                    )
                })
            },
            Err(e) => e == InternalError::RandomUnavailable && *final(store) == *old(store),
        }),
{
    let email_taken = store.find_by_email(&form.email).is_some();
    let validated = form.validate(email_taken);
    if !validated.is_valid() {
        return Ok(SignupResult::Invalid(validated));
    }
    proof {
        reveal_strlit("passwords must be at least 10 characters long");
        reveal_strlit("password and password confirmation must match");
        reveal_strlit("A user with this email already exists");
        assert(signup_valid(form, email_taken));
    }
    let (digest_hex, salt_hex) = match salted_hash(validated.password.as_str()) {
        Ok(p) => p,
        Err(e) => {
            return Err(e);
        },
    };
    let user = match store.insert(validated.email, digest_hex, salt_hex) {
        Ok(u) => u,
        Err(_) => unreached(),
    };
    let uid: i32 = match user.id {
        Some(i) => i,
        None => unreached(),
    };
    let fingerprint = credential_fingerprint(user.password_hash.as_str());
    let claims = SessionClaims::issue(uid as u64, fingerprint, now);
    let token = codec.encode(&claims);
    Ok(SignupResult::Created(token))
}

/// Log in. Success returns a fresh session token for the stored user whose
/// email and credential match the form. A missing user and a wrong password
/// come back with the same single generic message, so the response does not
/// reveal whether the email exists.
pub fn login(form: LoginForm, store: &UserStore, codec: &SessionCodec, now: u64) -> (r: LoginResult)
    requires
        store.wf(),
        codec.wf(),
        now + SESSION_LIFETIME_SECONDS <= u64::MAX,
    ensures
        login_succeeds_in(*store, form.email@, form.password@) ==> (r matches LoginResult::LoggedIn(
            token,
        ) && exists|i: int|
            0 <= i < store.rows().len() && ({
                let u = #[trigger] store.rows()[i];
                &&& u.email@ == form.email@
                &&& credential_matches(form.password@, u.password_hash@, u.salt@)
                &&& u.id matches Some(n) && token@ == token_text(
                    codec.key_view(),
                    (ClaimsView {
                        user_id: n as u64,
                        issued_at: now,
                        expires_at: (now + SESSION_LIFETIME_SECONDS) as u64,
                        credential_fingerprint: fingerprint_spec(u.password_hash@),
                    }),
                )
            })),
        !login_succeeds_in(*store, form.email@, form.password@) ==> (r matches LoginResult::Invalid(
            f,
        ) && {
            &&& f.email@ == form.email@
            &&& f.password@ == form.password@
            &&& f.email_errors@ == "No user found for that email/password combination"@
        }),
{
    let found = store.find_by_email(&form.email);
    let ghost found0 = found;
    let (user_opt, echoed) = form.attempt_login(found);
    match user_opt {
        Some(user) => {
            proof {
                let i = choose|i: int|
                    0 <= i < store.rows().len() && #[trigger] store.rows()[i] == user;
                assert(store.rows()[i].email@ == form.email@);
            }
            let uid: i32 = match user.id {
                Some(i) => i,
                None => unreached(),
            };
            let fingerprint = credential_fingerprint(user.password_hash.as_str());
            let claims = SessionClaims::issue(uid as u64, fingerprint, now);
            let token = codec.encode(&claims);
            LoginResult::LoggedIn(token)
        },
        None => {
            proof {
                if login_succeeds_in(*store, form.email@, form.password@) {
                    let i = choose|i: int|
                        0 <= i < store.rows().len() && (#[trigger] store.rows()[i]).email@
                            == form.email@ && credential_matches(
                            form.password@,
                            store.rows()[i].password_hash@,
                            store.rows()[i].salt@,
                        );
                    match found0 {
                        Some(u) => {
                            let j = choose|j: int|
                                0 <= j < store.rows().len() && #[trigger] store.rows()[j] == u;
                            assert(store.rows()[i] == store.rows()[j]);
                        },
                        None => {},
                    }
                }
            }
            LoginResult::Invalid(echoed)
        },
    }
}

/// Log out: there is no server-side session state to clean up, so the
/// transition is purely to the anonymous state; the transport layer clears
/// the session cookie.
pub fn logout(_state: AuthState) -> (r: AuthState)
    ensures
        r == AuthState::Anonymous,
{
    AuthState::Anonymous
}

/// Byte-for-byte equality of two slices.
fn bytes_eq(a: &[u8], b: &[u8]) -> (r: bool)
    ensures
        r == (a@ == b@),
{
    if a.len() != b.len() {
        return false;
    }
    let n = a.len();
    for i in 0..n
        invariant
            n == a.len() && n == b.len(),
            forall|j: int| 0 <= j < i ==> a@[j] == b@[j],
    {
        if a[i] != b[i] {
            return false;
        }
    }
    proof {
        assert(a@ =~= b@);
    }
    true
}

/// Cross-check a decoded token against the referenced user's current
/// credential: true exactly when the embedded fingerprint still matches.
pub fn check_fingerprint(claims: &SessionClaims, user: &User) -> (r: bool)
    ensures
        r == fingerprint_ok(claims@, user.password_hash@),
{
    let current = credential_fingerprint(user.password_hash.as_str());
    bytes_eq(claims.credential_fingerprint.as_slice(), current.as_slice())
}

/// Resolve an incoming token to the request's authentication state: the
/// claimed identity exactly when the token decodes under the codec's key,
/// is unexpired, and its fingerprint matches the stored user's current
/// credential; the anonymous state on every other outcome.
pub fn resolve_session(codec: &SessionCodec, token: &str, store: &UserStore, now: u64) -> (r:
    AuthState)
    requires
        codec.wf(),
        store.wf(),
    ensures
        (match decode_spec(codec.key_view(), token@, now) {
            Ok(c) => if token_grants(*store, c) {
                r == AuthState::Authenticated(c.user_id)
            } else {
                r == AuthState::Anonymous
            },
            Err(_) => r == AuthState::Anonymous,
        }),
{
    let claims = match codec.decode(token, now) {
        Ok(c) => c,
        Err(_) => {
            return AuthState::Anonymous;
        },
    };
    if claims.user_id > (i32::MAX as u64) {
        return AuthState::Anonymous;
    }
    let user = match store.find_by_id(claims.user_id as i32) {
        Some(u) => u,
        None => {
            return AuthState::Anonymous;
        },
    };
    if check_fingerprint(&claims, &user) {
        proof {
            let i = choose|i: int| 0 <= i < store.rows().len() && #[trigger] store.rows()[i] == user;
            assert(store.rows()[i].id == Some(claims.user_id as i32));
        }
        AuthState::Authenticated(claims.user_id)
    } else {
        proof {
            let i = choose|i: int| 0 <= i < store.rows().len() && #[trigger] store.rows()[i] == user;
            if token_grants(*store, claims@) {
                let j = choose|j: int|
                    0 <= j < store.rows().len() && (#[trigger] store.rows()[j]).id == Some(
                        claims@.user_id as i32,
                    ) && fingerprint_ok(claims@, store.rows()[j].password_hash@);
                assert(store.rows()[i] == store.rows()[j]);
            }
        }
        AuthState::Anonymous
    }
}

/// A password change revokes earlier sessions: claims fingerprinted from
/// the old credential fail the cross-check against the new one, whenever
/// the two credentials' fingerprints differ.
pub proof fn lemma_password_change_revokes(c: ClaimsView, old_hash: Seq<char>, new_hash: Seq<char>)
    requires
        c.credential_fingerprint == fingerprint_spec(old_hash),
        fingerprint_spec(old_hash) != fingerprint_spec(new_hash),
    ensures
        !fingerprint_ok(c, new_hash),
{
}

} // verus!

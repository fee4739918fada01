//! Stateless session tokens: a user identity is serialized, authenticated
//! with HMAC-SHA256 under a process-wide secret key, and hex encoded into an
//! opaque cookie value. Decoding rejects tampering, expiry, and malformed
//! input, in that order of discovery; no server-side session state exists.
//!
//! Also holds the login form and its view model.

use vstd::bytes::{
    lemma_auto_spec_u64_to_from_le_bytes, spec_u64_from_le_bytes, spec_u64_to_le_bytes,
    u64_from_le_bytes, u64_to_le_bytes,
};
use vstd::prelude::*;
use vstd::slice::{slice_subrange, slice_to_vec};
use vstd::string::*;

use crate::crypto::{hmac_sha256, hmac_sign, hmac_verify};
use crate::hex::{
    bytes_of_hex, hex_decode, hex_encode, hex_of, is_hex_seq, lemma_bytes_of_hex_of,
    lemma_hex_of_bytes_of, lemma_hex_of_is_hex_seq, lemma_hex_of_len,
};
use crate::users::{credential_matches, User, FINGERPRINT_LEN};

verus! {

/// Length in bytes of the decoded secret key.
pub const KEY_LEN: usize = 32;

/// Sessions live 90 days from issuance.
pub const SESSION_LIFETIME_SECONDS: u64 = 90 * 24 * 60 * 60;

/// Length in bytes of the serialized claims: three 64-bit timestamp and
/// identity fields plus the credential fingerprint.
pub const CLAIMS_BYTES_LEN: usize = 24 + FINGERPRINT_LEN;

/// Length in bytes of the HMAC-SHA256 tag.
pub const TAG_LEN: usize = 32;

/// Length in bytes of a full token before hex encoding.
pub const TOKEN_BYTES_LEN: usize = CLAIMS_BYTES_LEN + TAG_LEN;

/// Why a token was rejected. Callers treat all three alike and fall back to
/// the anonymous state.
#[derive(Clone, Copy, Debug, PartialEq, Eq, Structural)]
pub enum DecodeError {
    /// The authentication check failed: some bit of the token was altered.
    Tampered,
    /// The token is authentic but past its expiry.
    Expired,
    /// The token cannot be parsed into the expected shape at all.
    Malformed,
}

/// Why the secret key was refused at startup.
#[derive(Clone, Copy, Debug, PartialEq, Eq, Structural)]
pub enum KeyError {
    /// The key is not a well-formed hex string.
    MalformedHex,
    /// The key decodes to the wrong number of bytes.
    WrongLength,
}

/// The logical content of a session token.
#[derive(Clone, Debug)]
pub struct SessionClaims {
    pub user_id: u64,
    pub issued_at: u64,
    pub expires_at: u64,
    pub credential_fingerprint: Vec<u8>,
}

/// The mathematical value of a `SessionClaims`.
#[verifier::ext_equal]
pub ghost struct ClaimsView {
    pub user_id: u64,
    pub issued_at: u64,
    pub expires_at: u64,
    pub credential_fingerprint: Seq<u8>,
}

impl ClaimsView {
    /// Well-formed claims carry a full-length fingerprint.
    pub open spec fn wf(self) -> bool {
        self.credential_fingerprint.len() == FINGERPRINT_LEN
    }
}

impl View for SessionClaims {
    type V = ClaimsView;

    open spec fn view(&self) -> ClaimsView {
        ClaimsView {
            user_id: self.user_id,
            issued_at: self.issued_at,
            expires_at: self.expires_at,
            credential_fingerprint: self.credential_fingerprint@,
        }
    }
}

impl SessionClaims {
    /// Fresh claims for a user: issued now, expiring `SESSION_LIFETIME_SECONDS`
    /// later, bound to the user's current credential fingerprint.
    pub fn issue(user_id: u64, credential_fingerprint: Vec<u8>, issued_at: u64) -> (r:
        SessionClaims)
        requires
            credential_fingerprint@.len() == FINGERPRINT_LEN,
            issued_at + SESSION_LIFETIME_SECONDS <= u64::MAX,
        ensures
            r@ == (ClaimsView {
                user_id,
                issued_at,
                expires_at: (issued_at + SESSION_LIFETIME_SECONDS) as u64,
                credential_fingerprint: credential_fingerprint@,
            }),
            r@.wf(),
    {
        SessionClaims {
            user_id,
            issued_at,
            expires_at: issued_at + SESSION_LIFETIME_SECONDS,
            credential_fingerprint,
        }
    }
}

/// The serialized claims: user id, issuance and expiry as little-endian
/// 64-bit values, then the fingerprint.
pub open spec fn claims_bytes(c: ClaimsView) -> Seq<u8> {
    spec_u64_to_le_bytes(c.user_id) + spec_u64_to_le_bytes(c.issued_at) + spec_u64_to_le_bytes(
        c.expires_at,
    ) + c.credential_fingerprint
}

/// The token before text encoding: the serialized claims followed by their
/// tag under `key`.
pub open spec fn token_bytes(key: Seq<u8>, c: ClaimsView) -> Seq<u8> {
    claims_bytes(c) + hmac_sha256(key, claims_bytes(c))
}

/// The wire form of a token: hex text of `token_bytes`.
pub open spec fn token_text(key: Seq<u8>, c: ClaimsView) -> Seq<char> {
    hex_of(token_bytes(key, c))
}

/// The claims a 40-byte body stands for.
pub open spec fn parse_claims(body: Seq<u8>) -> ClaimsView
    recommends
        body.len() == CLAIMS_BYTES_LEN,
{
    ClaimsView {
        user_id: spec_u64_from_le_bytes(body.subrange(0, 8)),
        issued_at: spec_u64_from_le_bytes(body.subrange(8, 16)),
        expires_at: spec_u64_from_le_bytes(body.subrange(16, 24)),
        credential_fingerprint: body.skip(24),
    }
}

/// What decoding a token text under `key` at time `now` yields: the exact
/// result, error cases included.
pub open spec fn decode_spec(key: Seq<u8>, text: Seq<char>, now: u64) -> Result<
    ClaimsView,
    DecodeError,
> {
    if !is_hex_seq(text) {
        Err(DecodeError::Malformed)
    } else {
        let bytes = bytes_of_hex(text);
        if bytes.len() != TOKEN_BYTES_LEN {
            Err(DecodeError::Malformed)
        } else {
            let body = bytes.take(CLAIMS_BYTES_LEN as int);
            let tag = bytes.skip(CLAIMS_BYTES_LEN as int);
            if tag != hmac_sha256(key, body) {
                Err(DecodeError::Tampered)
            } else {
                let c = parse_claims(body);
                if now > c.expires_at {
                    Err(DecodeError::Expired)
                } else {
                    Ok(c)
                }
            }
        }
    }
}

/// Converts a user identity to an opaque, authenticated, expiring bearer
/// token and back, under a process-wide secret key. Stateless: no storage
/// is consulted and none is kept.
pub struct SessionCodec {
    key: Vec<u8>,
}

impl SessionCodec {
    /// The secret key bytes.
    pub closed spec fn key_view(&self) -> Seq<u8> {
        self.key@
    }

    /// A usable codec holds a full-length key.
    pub open spec fn wf(&self) -> bool {
        self.key_view().len() == KEY_LEN
    }

    /// Build the codec from the environment-provided, hex-encoded secret
    /// key. Refuses malformed hex and any length but `KEY_LEN` bytes; such
    /// a refusal is a fatal startup condition for the caller.
    pub fn from_hex_key(hex_key: &str) -> (r: Result<SessionCodec, KeyError>)
        ensures
            r matches Ok(c) ==> {
                &&& c.wf()
                &&& is_hex_seq(hex_key@)
                &&& c.key_view() == bytes_of_hex(hex_key@)
            },
            r is Ok <==> is_hex_seq(hex_key@) && bytes_of_hex(hex_key@).len() == KEY_LEN,
            r matches Err(e) ==> (match e {
                KeyError::MalformedHex => !is_hex_seq(hex_key@),
                KeyError::WrongLength => is_hex_seq(hex_key@) && bytes_of_hex(hex_key@).len()
                    != KEY_LEN,
            }),
    {
        let key = match hex_decode(hex_key) {
            Some(k) => k,
            None => {
                return Err(KeyError::MalformedHex);
            },
        };
        if key.len() != KEY_LEN {
            return Err(KeyError::WrongLength);
        }
        Ok(SessionCodec { key })
    }

    /// Encode claims into the opaque token text for them. The second
    /// clause records the tag width the signer produced, which is what lets
    /// a caller apply the round-trip lemmas to this token.
    pub fn encode(&self, claims: &SessionClaims) -> (r: String)
        requires
            self.wf(),
            claims@.wf(),
        ensures
            r@ == token_text(self.key_view(), claims@),
            hmac_sha256(self.key_view(), claims_bytes(claims@)).len() == TAG_LEN,
    {
        let mut body: Vec<u8> = Vec::new();
        let mut b0 = u64_to_le_bytes(claims.user_id);
        body.append(&mut b0);
        let mut b1 = u64_to_le_bytes(claims.issued_at);
        body.append(&mut b1);
        let mut b2 = u64_to_le_bytes(claims.expires_at);
        body.append(&mut b2);
        body.extend_from_slice(claims.credential_fingerprint.as_slice());
        proof {
            assert(body@ =~= claims_bytes(claims@));
        }
        let tag = hmac_sign(self.key.as_slice(), body.as_slice());
        let mut token = body;
        let mut tag_bytes = tag;
        token.append(&mut tag_bytes);
        proof {
            assert(token@ =~= token_bytes(self.key_view(), claims@));
            lemma_hex_of_len(token@);
        }
        hex_encode(token.as_slice())
    }

    /// Decode and validate a token text at time `now`: exactly the result
    /// `decode_spec` gives, so a malformed text, an altered token, and an
    /// expired one are rejected with their own errors, and anything else
    /// yields the embedded claims.
    pub fn decode(&self, token: &str, now: u64) -> (r: Result<SessionClaims, DecodeError>)
        requires
            self.wf(),
        ensures
            r matches Ok(c) ==> Ok::<ClaimsView, DecodeError>(c@) == decode_spec(
                self.key_view(),
                token@,
                now,
            ) && c@.wf(),
            r matches Err(e) ==> Err::<ClaimsView, DecodeError>(e) == decode_spec(
                self.key_view(),
                token@,
                now,
            ),
    {
        let bytes = match hex_decode(token) {
            Some(b) => b,
            None => {
                return Err(DecodeError::Malformed);
            },
        };
        if bytes.len() != TOKEN_BYTES_LEN {
            return Err(DecodeError::Malformed);
        }
        let body = slice_subrange(bytes.as_slice(), 0, CLAIMS_BYTES_LEN);
        let tag = slice_subrange(bytes.as_slice(), CLAIMS_BYTES_LEN, TOKEN_BYTES_LEN);
        proof {
            assert(body@ =~= bytes_of_hex(token@).take(CLAIMS_BYTES_LEN as int));
            assert(tag@ =~= bytes_of_hex(token@).skip(CLAIMS_BYTES_LEN as int));
        }
        if !hmac_verify(self.key.as_slice(), body, tag) {
            return Err(DecodeError::Tampered);
        }
        let user_id = u64_from_le_bytes(slice_subrange(body, 0, 8));
        let issued_at = u64_from_le_bytes(slice_subrange(body, 8, 16));
        let expires_at = u64_from_le_bytes(slice_subrange(body, 16, 24));
        let fingerprint = slice_to_vec(slice_subrange(body, 24, CLAIMS_BYTES_LEN));
        let claims = SessionClaims {
            user_id,
            issued_at,
            expires_at,
            credential_fingerprint: fingerprint,
        };
        proof {
            assert(claims@ =~= parse_claims(body@));
        }
        if now > expires_at {
            return Err(DecodeError::Expired);
        }
        Ok(claims)
    }
}

/// Decoding inverts encoding: the token minted for well-formed claims
/// decodes to exactly those claims at any time up to their expiry.
pub proof fn lemma_encode_decode_round_trip(key: Seq<u8>, c: ClaimsView, now: u64)
    requires
        c.wf(),
        hmac_sha256(key, claims_bytes(c)).len() == TAG_LEN,
        now <= c.expires_at,
    ensures
        decode_spec(key, token_text(key, c), now) == Ok::<ClaimsView, DecodeError>(c),
{
    lemma_auto_spec_u64_to_from_le_bytes();
    let cb = claims_bytes(c);
    let tb = token_bytes(key, c);
    let text = token_text(key, c);
    lemma_hex_of_is_hex_seq(tb);
    lemma_bytes_of_hex_of(tb);
    assert(tb.take(CLAIMS_BYTES_LEN as int) =~= cb);
    assert(tb.skip(CLAIMS_BYTES_LEN as int) =~= hmac_sha256(key, cb));
    assert(cb.subrange(0, 8) =~= spec_u64_to_le_bytes(c.user_id));
    assert(cb.subrange(8, 16) =~= spec_u64_to_le_bytes(c.issued_at));
    assert(cb.subrange(16, 24) =~= spec_u64_to_le_bytes(c.expires_at));
    assert(cb.skip(24) =~= c.credential_fingerprint);
    assert(parse_claims(cb) =~= c);
}

/// A token the codec accepts is exactly a token the codec would mint: if
/// decoding yields claims `c`, the text read was `token_text` for `c`. So a
/// text that differs anywhere from the minted token for `c` — one flipped
/// character included — can never decode to `c`.
pub proof fn lemma_decode_only_signed(key: Seq<u8>, text: Seq<char>, now: u64, c: ClaimsView)
    requires
        decode_spec(key, text, now) == Ok::<ClaimsView, DecodeError>(c),
    ensures
        text == token_text(key, c),
        c.wf(),
        now <= c.expires_at,
{
    lemma_auto_spec_u64_to_from_le_bytes();
    let bytes = bytes_of_hex(text);
    let body = bytes.take(CLAIMS_BYTES_LEN as int);
    let tag = bytes.skip(CLAIMS_BYTES_LEN as int);
    assert(spec_u64_to_le_bytes(spec_u64_from_le_bytes(body.subrange(0, 8))) == body.subrange(
        0,
        8,
    ));
    assert(spec_u64_to_le_bytes(spec_u64_from_le_bytes(body.subrange(8, 16))) == body.subrange(
        8,
        16,
    ));
    assert(spec_u64_to_le_bytes(spec_u64_from_le_bytes(body.subrange(16, 24))) == body.subrange(
        16,
        24,
    ));
    assert(claims_bytes(c) =~= body);
    assert(token_bytes(key, c) =~= bytes);
    lemma_hex_of_bytes_of(text);
}

/// No text other than the minted token for `c` decodes to `c`: altering the
/// token text anywhere changes the decode result away from `c`.
pub proof fn lemma_altered_token_never_decodes(key: Seq<u8>, text: Seq<char>, c: ClaimsView, now: u64)
    requires
        text != token_text(key, c),
    ensures
        decode_spec(key, text, now) != Ok::<ClaimsView, DecodeError>(c),
{
    if decode_spec(key, text, now) == Ok::<ClaimsView, DecodeError>(c) {
        lemma_decode_only_signed(key, text, now, c);
    }
}

/// An authentic token past its expiry is rejected as expired, however well
/// formed the rest of it is.
pub proof fn lemma_expired_token_rejected(key: Seq<u8>, c: ClaimsView, now: u64)
    requires
        c.wf(),
        hmac_sha256(key, claims_bytes(c)).len() == TAG_LEN,
        now > c.expires_at,
    ensures
        decode_spec(key, token_text(key, c), now) == Err::<ClaimsView, DecodeError>(
            DecodeError::Expired,
        ),
{
    lemma_auto_spec_u64_to_from_le_bytes();
    let cb = claims_bytes(c);
    let tb = token_bytes(key, c);
    lemma_hex_of_is_hex_seq(tb);
    lemma_bytes_of_hex_of(tb);
    assert(tb.take(CLAIMS_BYTES_LEN as int) =~= cb);
    assert(tb.skip(CLAIMS_BYTES_LEN as int) =~= hmac_sha256(key, cb));
    assert(cb.subrange(16, 24) =~= spec_u64_to_le_bytes(c.expires_at));
    assert(parse_claims(cb).expires_at == c.expires_at);
}

/// The login form, echoed back with a generic error when login fails.
#[derive(Clone, Debug)]
pub struct LoginForm {
    pub email: String,
    pub password: String,
    pub email_errors: String,
    pub password_errors: String,
}

/// The login page's view model.
pub struct LoginFormTemplate {
    pub login_form: LoginForm,
}

/// Build the login page's view model, echoing a submitted form if there is
/// one and showing an empty form otherwise.
pub fn render_new(form: Option<LoginForm>) -> (r: LoginFormTemplate)
    ensures
        form matches Some(f) ==> r.login_form == f,
        form is None ==> {
            &&& r.login_form.email@.len() == 0
            &&& r.login_form.password@.len() == 0
            &&& r.login_form.email_errors@.len() == 0
            &&& r.login_form.password_errors@.len() == 0
        },
{
    let f = match form {
        Some(f) => f,
        None => LoginForm::default(),
    };
    LoginFormTemplate { login_form: f }
}

impl Default for LoginForm {
    /// An empty form.
    fn default() -> (r: LoginForm)
        ensures
            r.email@.len() == 0,
            r.password@.len() == 0,
            r.email_errors@.len() == 0,
            r.password_errors@.len() == 0,
    {
        LoginForm {
            email: String::new(),
            password: String::new(),
            email_errors: String::new(),
            password_errors: String::new(),
        }
    }
}

/// Whether the password matches the looked-up user's credential; false when
/// no user was found.
pub open spec fn login_succeeds(password: Seq<char>, found: Option<User>) -> bool {
    found matches Some(u) && credential_matches(password, u.password_hash@, u.salt@)
}

impl LoginForm {
    /// Try to log in given the repository's lookup result for this form's
    /// email. On success the user is returned with the form untouched; on a
    /// missing user and on a wrong password alike, the form comes back with
    /// one generic message that does not reveal whether the email exists.
    pub fn attempt_login(self, found: Option<User>) -> (r: (Option<User>, LoginForm))
        ensures
            login_succeeds(self.password@, found) ==> r.0 == found && r.1 == self,
            !login_succeeds(self.password@, found) ==> {
                &&& r.0 is None
                &&& r.1.email@ == self.email@
                &&& r.1.password@ == self.password@
                &&& r.1.password_errors@ == self.password_errors@
                &&& r.1.email_errors@ == "No user found for that email/password combination"@
            },
    {
        match found {
            Some(user) => {
                if user.authenticate(self.password.as_str()) {
                    (Some(user), self)
                } else {
                    let mut f = self;
                    f.email_errors = String::from_str(
                        "No user found for that email/password combination",
                    );
                    (None, f)
                }
            },
            None => {
                let mut f = self;
                f.email_errors = String::from_str(
                    "No user found for that email/password combination",
                );
                (None, f)
            },
        }
    }
}

} // verus!

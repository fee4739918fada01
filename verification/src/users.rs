//! Accounts and credentials: deriving a password credential with a fresh
//! random salt, checking a password against a stored credential, signup-form
//! validation, and an in-memory user store that enforces email uniqueness.

use vstd::prelude::*;
use vstd::string::*;

use crate::crypto::{
    kdf_output, new_system_random, pbkdf2_derive, pbkdf2_verify, random_bytes, sha256_of_str,
    sha256_str,
};
use crate::hex::{
    bytes_of_hex, hex_decode, hex_encode, hex_of, is_hex_seq, lemma_bytes_of_hex_len,
    lemma_bytes_of_hex_of, lemma_hex_of_is_hex_seq, lemma_hex_of_len,
};

verus! {

/// Rounds of the key-derivation function: a deliberate CPU cost against
/// offline brute force.
pub const KDF_ITERATIONS: u32 = 100000;

/// Length in bytes of the derived digest and of the random salt (the output
/// width of SHA-512).
pub const CREDENTIAL_LEN: usize = 64;

/// Length in bytes of the credential fingerprint embedded in session tokens.
pub const FINGERPRINT_LEN: usize = 16;

/// Minimum password length, counted in characters.
pub const MIN_PASSWORD_LEN: usize = 10;

/// A failure of a resource the library cannot do without; never shown to the
/// user in detail.
#[derive(Clone, Copy, Debug, PartialEq, Eq, Structural)]
pub enum InternalError {
    /// The secure random source refused to produce bytes.
    RandomUnavailable,
}

/// A registered account. `password_hash` and `salt` are the hex-encoded
/// derived credential; the plaintext password is never stored.
#[derive(Clone, Debug)]
pub struct User {
    pub id: Option<i32>,
    pub email: String,
    pub password_hash: String,
    pub salt: String,
}

/// The signup form, echoed back with error fields when validation fails.
#[derive(Clone, Debug)]
pub struct UserForm {
    pub email: String,
    pub password: String,
    pub email_errors: String,
    pub password_errors: String,
    pub password_confirmation: String,
}

/// What it means for a password to match a stored credential: both encoded
/// fields are well-formed hexadecimal, the digest has the full credential
/// width, and re-deriving from the password and the stored salt reproduces
/// the stored digest.
pub open spec fn credential_matches(
    password: Seq<char>,
    digest_hex: Seq<char>,
    salt_hex: Seq<char>,
) -> bool {
    &&& is_hex_seq(digest_hex)
    &&& digest_hex.len() == 2 * CREDENTIAL_LEN
    &&& is_hex_seq(salt_hex)
    &&& bytes_of_hex(digest_hex) == kdf_output(
        password,
        bytes_of_hex(salt_hex),
        KDF_ITERATIONS,
        CREDENTIAL_LEN as nat,
    )
}

/// The short, non-reversible tag derived from a stored credential and
/// embedded in session tokens.
pub open spec fn fingerprint_spec(password_hash: Seq<char>) -> Seq<u8> {
    sha256_of_str(password_hash).take(FINGERPRINT_LEN as int)
}

/// A credential freshly derived from a password verifies against that
/// password: hashing and then checking the same password always succeeds.
pub proof fn lemma_hash_then_verify(password: Seq<char>, digest_hex: Seq<char>, salt_hex: Seq<char>)
    requires
        is_hex_seq(salt_hex),
        digest_hex == hex_of(
            kdf_output(password, bytes_of_hex(salt_hex), KDF_ITERATIONS, CREDENTIAL_LEN as nat),
        ),
        kdf_output(password, bytes_of_hex(salt_hex), KDF_ITERATIONS, CREDENTIAL_LEN as nat).len()
            == CREDENTIAL_LEN,
    ensures
        credential_matches(password, digest_hex, salt_hex),
{
    let digest = kdf_output(password, bytes_of_hex(salt_hex), KDF_ITERATIONS, CREDENTIAL_LEN as nat);
    lemma_hex_of_len(digest);
    lemma_hex_of_is_hex_seq(digest);
    lemma_bytes_of_hex_of(digest);
}

/// Derive a storable credential from a password: a fresh random salt of
/// `CREDENTIAL_LEN` bytes, never reused across calls, and the iterated
/// digest of `(password, salt)`, both hex encoded. Returns
/// `(digest_hex, salt_hex)`; fails only if the random source does.
pub fn salted_hash(password: &str) -> (r: Result<(String, String), InternalError>)
    requires
        password@.len() >= 1,
    ensures
        r matches Ok(p) ==> {
            &&& is_hex_seq(p.0@) && p.0@.len() == 2 * CREDENTIAL_LEN
            &&& is_hex_seq(p.1@) && p.1@.len() == 2 * CREDENTIAL_LEN
            &&& p.0@ == hex_of(
                kdf_output(
                    password@,
                    bytes_of_hex(p.1@),
                    KDF_ITERATIONS,
                    CREDENTIAL_LEN as nat,
                ),
            )
            &&& credential_matches(password@, p.0@, p.1@)
        },
        r matches Err(e) ==> e == InternalError::RandomUnavailable,
{
    let rng = new_system_random();
    let salt = match random_bytes(&rng, CREDENTIAL_LEN) {
        Some(s) => s,
        None => {
            return Err(InternalError::RandomUnavailable);
        },
    };
    let digest = pbkdf2_derive(password, salt.as_slice(), KDF_ITERATIONS, CREDENTIAL_LEN);
    let digest_hex = hex_encode(digest.as_slice());
    let salt_hex = hex_encode(salt.as_slice());
    proof {
        lemma_hex_of_len(salt@);
        lemma_hex_of_is_hex_seq(salt@);
        lemma_bytes_of_hex_of(salt@);
        lemma_hash_then_verify(password@, digest_hex@, salt_hex@);
    }
    Ok((digest_hex, salt_hex))
}

/// Compute the credential fingerprint of a stored password hash: a short
/// prefix of its SHA-256 digest, revealing no usable part of the credential.
pub fn credential_fingerprint(password_hash: &str) -> (r: Vec<u8>)
    ensures
        r@ == fingerprint_spec(password_hash@),
        r@.len() == FINGERPRINT_LEN,
{
    let mut d = sha256_str(password_hash);
    d.truncate(FINGERPRINT_LEN);
    assert(d@ =~= fingerprint_spec(password_hash@));
    d
}

impl User {
    /// Check the password against this user's stored credential. Returns
    /// false on any mismatch or on a malformed stored digest or salt,
    /// without distinguishing the cases.
    pub fn authenticate(&self, password: &str) -> (r: bool)
        ensures
            r == credential_matches(password@, self.password_hash@, self.salt@),
    {
        let digest = match hex_decode(self.password_hash.as_str()) {
            Some(d) => d,
            None => {
                return false;
            },
        };
        proof {
            lemma_bytes_of_hex_len(self.password_hash@);
        }
        if digest.len() != CREDENTIAL_LEN {
            return false;
        }
        let salt = match hex_decode(self.salt.as_str()) {
            Some(s) => s,
            None => {
                return false;
            },
        };
        pbkdf2_verify(password, salt.as_slice(), KDF_ITERATIONS, digest.as_slice())
    }

    /// A field-for-field copy of this user.
    pub fn duplicate(&self) -> (r: User)
        ensures
            r == *self,
    {
        User {
            id: self.id,
            email: self.email.clone(),
            password_hash: self.password_hash.clone(),
            salt: self.salt.clone(),
        }
    }
}

impl Default for UserForm {
    /// An empty form.
    fn default() -> (r: UserForm)
        ensures
            r.email@.len() == 0,
            r.password@.len() == 0,
            r.email_errors@.len() == 0,
            r.password_errors@.len() == 0,
            r.password_confirmation@.len() == 0,
    {
        UserForm {
            email: String::new(),
            password: String::new(),
            email_errors: String::new(),
            password_errors: String::new(),
            password_confirmation: String::new(),
        }
    }
}

/// The password error field produced by validation: the applicable messages,
/// in order, joined with a comma.
pub open spec fn password_errors_spec(password: Seq<char>, confirmation: Seq<char>) -> Seq<char> {
    if password.len() < MIN_PASSWORD_LEN && password != confirmation {
        "passwords must be at least 10 characters long"@ + ", "@
            + "password and password confirmation must match"@
    } else if password.len() < MIN_PASSWORD_LEN {
        "passwords must be at least 10 characters long"@
    } else if password != confirmation {
        "password and password confirmation must match"@
    } else {
        Seq::empty()
    }
}

/// The email error field produced by validation.
pub open spec fn email_errors_spec(email_taken: bool) -> Seq<char> {
    if email_taken {
        "A user with this email already exists"@
    } else {
        Seq::empty()
    }
}

impl UserForm {
    /// Validate the form against the signup rules: password at least
    /// `MIN_PASSWORD_LEN` characters, password equal to its confirmation,
    /// and the email not already registered (`email_taken` is the caller's
    /// lookup result). The form is returned with its error fields set to
    /// exactly the applicable messages and every other field unchanged.
    pub fn validate(self, email_taken: bool) -> (r: UserForm)
        ensures
            r.email@ == self.email@,
            r.password@ == self.password@,
            r.password_confirmation@ == self.password_confirmation@,
            r.password_errors@ == password_errors_spec(self.password@, self.password_confirmation@),
            r.email_errors@ == email_errors_spec(email_taken),
    {
        let too_short = self.password.as_str().unicode_len() < MIN_PASSWORD_LEN;
        let mismatch = !(self.password == self.password_confirmation);
        let mut password_errors = String::new();
        if too_short {
            password_errors.append("passwords must be at least 10 characters long");
        }
        if too_short && mismatch {
            password_errors.append(", ");
        }
        if mismatch {
            password_errors.append("password and password confirmation must match");
        }
        let mut email_errors = String::new();
        if email_taken {
            email_errors.append("A user with this email already exists");
        }
        proof {
            assert(password_errors@ =~= password_errors_spec(
                self.password@,
                self.password_confirmation@,
            ));
            assert(email_errors@ =~= email_errors_spec(email_taken));
        }
        UserForm {
            email: self.email,
            password: self.password,
            email_errors,
            password_errors,
            password_confirmation: self.password_confirmation,
        }
    }

    /// Whether validation left no error on the form.
    pub fn is_valid(&self) -> (r: bool)
        ensures
            r == (self.password_errors@.len() == 0 && self.email_errors@.len() == 0),
    {
        self.password_errors.as_str().is_empty() && self.email_errors.as_str().is_empty()
    }
}

/// The signup page's view model.
pub struct UsersNewTemplate {
    pub users_form: UserForm,
}

/// Build the signup page's view model, echoing a submitted form if there is
/// one and showing an empty form otherwise.
pub fn render_new(form: Option<UserForm>) -> (r: UsersNewTemplate)
    ensures
        form matches Some(f) ==> r.users_form == f,
        form is None ==> {
            &&& r.users_form.email@.len() == 0
            &&& r.users_form.password@.len() == 0
            &&& r.users_form.email_errors@.len() == 0
            &&& r.users_form.password_errors@.len() == 0
            &&& r.users_form.password_confirmation@.len() == 0
        },
{
    let f = match form {
        Some(f) => f,
        None => UserForm::default(),
    };
    UsersNewTemplate { users_form: f }
}

/// Why the store refused an insertion.
#[derive(Clone, Copy, Debug, PartialEq, Eq, Structural)]
pub enum StoreError {
    /// Another user already holds this email; uniqueness is enforced by the
    /// store itself, not merely checked beforehand.
    DuplicateEmail,
}

/// An in-memory user repository: looks up users by email or id, inserts new
/// users, assigns identifiers, and enforces email uniqueness atomically.
pub struct UserStore {
    users: Vec<User>,
    next_id: i32,
}

impl UserStore {
    /// The stored rows, in insertion order.
    pub closed spec fn rows(&self) -> Seq<User> {
        self.users@
    }

    /// The identifier the next inserted user will receive.
    pub closed spec fn next_id_spec(&self) -> int {
        self.next_id as int
    }

    /// Store invariant: emails unique, ids unique, every id assigned and
    /// below the next free one.
    pub open spec fn wf(&self) -> bool {
        &&& forall|i: int, j: int|
            0 <= i < j < self.rows().len() ==> (#[trigger] self.rows()[i]).email@ != (
            #[trigger] self.rows()[j]).email@
        &&& forall|i: int|
            0 <= i < self.rows().len() ==> ((#[trigger] self.rows()[i]).id matches Some(n) && 1 <= n
                < self.next_id_spec())
        &&& forall|i: int, j: int|
            0 <= i < j < self.rows().len() ==> (#[trigger] self.rows()[i]).id != (
            #[trigger] self.rows()[j]).id
        &&& 1 <= self.next_id_spec() <= i32::MAX
    }

    /// Whether a user with this email is stored.
    pub open spec fn contains_email(&self, email: Seq<char>) -> bool {
        exists|i: int| 0 <= i < self.rows().len() && (#[trigger] self.rows()[i]).email@ == email
    }

    /// Whether a user with this id is stored.
    pub open spec fn contains_id(&self, id: i32) -> bool {
        exists|i: int|
            0 <= i < self.rows().len() && (#[trigger] self.rows()[i]).id == Some(id)
    }

    /// Whether the store can still assign an identifier.
    pub open spec fn has_capacity(&self) -> bool {
        self.next_id_spec() < i32::MAX
    }

    /// Whether the store can still assign an identifier; callers test this
    /// before asking for an insertion.
    pub fn has_room(&self) -> (r: bool)
        ensures
            r == self.has_capacity(),
    {
        self.next_id < i32::MAX
    }

    /// An empty store.
    pub fn new() -> (s: UserStore)
        ensures
            s.wf(),
            s.rows().len() == 0,
            s.next_id_spec() == 1,
            s.has_capacity(),
    {
        UserStore { users: Vec::new(), next_id: 1 }
    }

    /// Look up a user by email; returns a copy of the stored row.
    pub fn find_by_email(&self, email: &String) -> (r: Option<User>)
        ensures
            r is Some <==> self.contains_email(email@),
            r matches Some(u) ==> {
                &&& exists|i: int| 0 <= i < self.rows().len() && #[trigger] self.rows()[i] == u
                &&& u.email@ == email@
            },
    {
        let n = self.users.len();
        for i in 0..n
            invariant
                n == self.users.len(),
                forall|j: int| 0 <= j < i ==> (#[trigger] self.rows()[j]).email@ != email@,
        {
            if self.users[i].email == *email {
                return Some(self.users[i].duplicate());
            }
        }
        None
    }

    /// Look up a user by id; returns a copy of the stored row.
    pub fn find_by_id(&self, id: i32) -> (r: Option<User>)
        ensures
            r is Some <==> self.contains_id(id),
            r matches Some(u) ==> {
                &&& exists|i: int| 0 <= i < self.rows().len() && #[trigger] self.rows()[i] == u
                &&& u.id == Some(id)
            },
    {
        let n = self.users.len();
        for i in 0..n
            invariant
                n == self.users.len(),
                forall|j: int| 0 <= j < i ==> (#[trigger] self.rows()[j]).id != Some(id),
        {
            let found = match self.users[i].id {
                Some(stored) => stored == id,
                None => false,
            };
            if found {
                return Some(self.users[i].duplicate());
            }
        }
        None
    }

    /// Insert a new user with the given credential fields, assigning the
    /// next identifier. Refuses a duplicate email and leaves the store
    /// unchanged in that case: the uniqueness check and the insertion are
    /// one atomic step of the store.
    pub fn insert(&mut self, email: String, password_hash: String, salt: String) -> (r: Result<
        User,
        StoreError,
    >)
        requires
            old(self).wf(),
            old(self).has_capacity(),
        ensures
            final(self).wf(),
            old(self).contains_email(email@) ==> {
                &&& r matches Err(e) && e == StoreError::DuplicateEmail
                &&& *final(self) == *old(self)
            },
            !old(self).contains_email(email@) ==> (r matches Ok(u) && {
                &&& u.id == Some(old(self).next_id_spec() as i32)
                &&& u.email@ == email@
                &&& u.password_hash@ == password_hash@
                &&& u.salt@ == salt@
                &&& final(self).rows() == old(self).rows().push(u)
                &&& final(self).next_id_spec() == old(self).next_id_spec() + 1
                &&& final(self).contains_email(email@)
            }),
    {
        let n = self.users.len();
        for i in 0..n
            invariant
                *self == *old(self),
                old(self).wf(),
                n == self.users.len(),
                forall|j: int| 0 <= j < i ==> (#[trigger] self.rows()[j]).email@ != email@,
        {
            if self.users[i].email == email {
                return Err(StoreError::DuplicateEmail);
            }
        }
        let user = User { id: Some(self.next_id), email, password_hash, salt };
        let stored = user.duplicate();
        self.users.push(stored);
        self.next_id = self.next_id + 1;
        proof {
            assert(self.rows() =~= old(self).rows().push(user));
            assert(self.rows()[old(self).rows().len() as int].email@ == user.email@);
        }
        Ok(user)
    }
}

} // verus!

//! Cryptographic primitives of the `ring` crate behind trusted wrappers.
//!
//! Each primitive's output is deterministic in its inputs (except the random
//! source), so it is given a name here as an uninterpreted spec function;
//! the wrappers state how each call relates to that name, and everything
//! built on top is verified against those statements.

use vstd::prelude::*;

verus! {

/// The PBKDF2-HMAC-SHA512 derived key for a password and salt: `out_len`
/// bytes after `iterations` rounds. A function of its arguments alone.
pub uninterp spec fn kdf_output(
    password: Seq<char>,
    salt: Seq<u8>,
    iterations: u32,
    out_len: nat,
) -> Seq<u8>;

/// The HMAC-SHA256 tag of a message under a key. A function of its
/// arguments alone.
pub uninterp spec fn hmac_sha256(key: Seq<u8>, msg: Seq<u8>) -> Seq<u8>;

/// The SHA-256 digest of a string's UTF-8 bytes. A function of its argument
/// alone.
pub uninterp spec fn sha256_of_str(s: Seq<char>) -> Seq<u8>;

/// `ring`'s handle on the operating system's secure random source.
#[verifier::external_type_specification]
#[verifier::external_body]
pub struct ExSystemRandom(ring::rand::SystemRandom);

/// Relies on `ring::rand::SystemRandom::new`: constructs the handle on the
/// system random source.
#[verifier::external_body]
pub(crate) fn new_system_random() -> ring::rand::SystemRandom {
    ring::rand::SystemRandom::new()
}

/// Relies on `ring::rand::SecureRandom::fill`: on success the buffer holds
/// `len` bytes from the system random source. Nothing is promised of the
/// values; callers must hold for every outcome.
#[verifier::external_body]
pub(crate) fn random_bytes(rng: &ring::rand::SystemRandom, len: usize) -> (r: Option<Vec<u8>>)
    ensures
        r matches Some(v) ==> v@.len() == len,
{
    let mut buf = vec![0u8; len];
    match ring::rand::SecureRandom::fill(rng, &mut buf) {
        Ok(()) => Some(buf),
        Err(_) => None,
    }
}

/// Relies on `ring::pbkdf2::derive` with `PBKDF2_HMAC_SHA512`: fills exactly
/// `out_len` bytes with the PBKDF2 derived key for these inputs.
#[verifier::external_body]
pub(crate) fn pbkdf2_derive(password: &str, salt: &[u8], iterations: u32, out_len: usize) -> (r:
    Vec<u8>)
    requires
        1 <= iterations,
        1 <= out_len <= 0x1000000,
    ensures
        r@ == kdf_output(password@, salt@, iterations, out_len as nat),
        r@.len() == out_len,
{
    let mut out = vec![0u8; out_len];
    ring::pbkdf2::derive(
        ring::pbkdf2::PBKDF2_HMAC_SHA512,
        core::num::NonZeroU32::new(iterations).unwrap(),
        salt,
        password.as_bytes(),
        &mut out,
    );
    out
}

/// Relies on `ring::pbkdf2::verify` with `PBKDF2_HMAC_SHA512`: succeeds
/// exactly when re-deriving `previously.len()` bytes from the password and
/// salt reproduces `previously`, compared in constant time.
#[verifier::external_body]
pub(crate) fn pbkdf2_verify(password: &str, salt: &[u8], iterations: u32, previously: &[u8]) -> (r:
    bool)
    requires
        1 <= iterations,
        1 <= previously@.len() <= 0x1000000,
    ensures
        r == (previously@ == kdf_output(password@, salt@, iterations, previously@.len())),
{
    ring::pbkdf2::verify(
        ring::pbkdf2::PBKDF2_HMAC_SHA512,
        core::num::NonZeroU32::new(iterations).unwrap(),
        salt,
        password.as_bytes(),
        previously,
    )
        .is_ok()
}

/// Relies on `ring::hmac::sign` with `HMAC_SHA256` (the key built by
/// `ring::hmac::Key::new`): a 32-byte tag, deterministic in key and message.
#[verifier::external_body]
pub(crate) fn hmac_sign(key: &[u8], msg: &[u8]) -> (r: Vec<u8>)
    ensures
        r@ == hmac_sha256(key@, msg@),
        r@.len() == 32,
{
    let k = ring::hmac::Key::new(ring::hmac::HMAC_SHA256, key);
    ring::hmac::sign(&k, msg).as_ref().to_vec()
}

/// Relies on `ring::hmac::verify` with `HMAC_SHA256` (the key built by
/// `ring::hmac::Key::new`): a constant-time check that `tag` is the tag of
/// `msg` under `key`, succeeding exactly when it is.
#[verifier::external_body]
pub(crate) fn hmac_verify(key: &[u8], msg: &[u8], tag: &[u8]) -> (r: bool)
    ensures
        r == (tag@ == hmac_sha256(key@, msg@)),
{
    let k = ring::hmac::Key::new(ring::hmac::HMAC_SHA256, key);
    ring::hmac::verify(&k, msg, tag).is_ok()
}

/// Relies on `ring::digest::digest` with `SHA256`: the 32-byte SHA-256
/// digest of the string's UTF-8 bytes, deterministic in the input alone.
#[verifier::external_body]
pub(crate) fn sha256_str(s: &str) -> (r: Vec<u8>)
    ensures
        r@ == sha256_of_str(s@),
        r@.len() == 32,
{
    ring::digest::digest(&ring::digest::SHA256, s.as_bytes()).as_ref().to_vec()
}

} // verus!

//! Password credentials: salted Argon2id hashes in PHC string form.

use crate::entropy::random_bytes;
use argon2::{PasswordHasher, PasswordVerifier};
use vstd::prelude::*;

verus! {

/// Does `h` parse as a PHC password-hash string?
pub uninterp spec fn phc_well_formed(h: Seq<char>) -> bool;

/// Does recomputing the hash that `h` describes (algorithm, parameters and
/// salt taken from `h`) over `password` give the output that `h` records?
pub uninterp spec fn argon2_accepts(password: Seq<u8>, h: Seq<char>) -> bool;

/// `password` is the password that the stored hash `h` was made from.
pub open spec fn password_matches(password: Seq<u8>, h: Seq<char>) -> bool {
    phc_well_formed(h) && argon2_accepts(password, h)
}

/// Longest password that Argon2 takes, in bytes.
pub const MAX_PASSWORD_BYTES: u64 = 0xFFFF_FFFF;

/// Relies on password-hash's `SaltString::encode_b64` and on argon2's
/// `Argon2::default().hash_password`: the PHC string of the Argon2id hash of
/// `password` with `salt`. With the default parameters and a 16-byte salt it
/// fails exactly on a password longer than `MAX_PASSWORD_BYTES`. The string
/// parses again, and verifying the same password against it succeeds.
#[verifier::external_body]
fn argon2_hash(password: &[u8], salt: &[u8]) -> (r: Option<String>)
    requires
        salt@.len() == 16,
    ensures
        r is Some <==> password@.len() <= MAX_PASSWORD_BYTES,
        r is Some ==> phc_well_formed(r->Some_0@) && argon2_accepts(password@, r->Some_0@),
{
    let salt = argon2::password_hash::SaltString::encode_b64(salt).ok()?;
    argon2::Argon2::default().hash_password(password, &salt).ok().map(|h| h.to_string())
}

/// Relies on password-hash's `PasswordHash::new` and argon2's
/// `verify_password`: `None` when `h` does not parse, else whether the
/// recomputed hash of `password` matches.
#[verifier::external_body]
fn argon2_check(password: &[u8], h: &str) -> (r: Option<bool>)
    ensures
        r is None <==> !phc_well_formed(h@),
        r is Some ==> r->Some_0 == argon2_accepts(password@, h@),
{
    match argon2::PasswordHash::new(h) {
        Ok(parsed) => Some(argon2::Argon2::default().verify_password(password, &parsed).is_ok()),
        Err(_) => None,
    }
}

/// The outcome of checking a password against a stored hash. The two
/// failures are told apart for logging only.
#[derive(Clone, Copy, Debug, PartialEq, Eq, Structural)]
pub enum PasswordCheck {
    Match,
    Mismatch,
    MalformedHash,
}

/// Why a password could not be hashed.
#[derive(Clone, Copy, Debug, PartialEq, Eq, Structural)]
pub enum HashingError {
    /// The random source failed to give a salt.
    RandomSourceFailed,
    /// The password is longer than Argon2 takes.
    PasswordTooLong,
}

/// Number of random salt bytes drawn for each hash.
pub const SALT_BYTES: usize = 16;

/// Hashes a password with the given 16-byte salt. Fails only on a password
/// too long for Argon2; the hash verifies against the same password.
pub fn hash_password_with_salt(password: &[u8], salt: &[u8]) -> (r: Result<String, HashingError>)
    requires
        salt@.len() == 16,
    ensures
        r is Ok <==> password@.len() <= MAX_PASSWORD_BYTES,
        r is Err ==> r == Err::<String, HashingError>(HashingError::PasswordTooLong),
        r is Ok ==> password_matches(password@, r->Ok_0@),
{
    match argon2_hash(password, salt) {
        Some(h) => Ok(h),
        None => Err(HashingError::PasswordTooLong),
    }
}

/// Hashes a password with a fresh random salt. Apart from a password too
/// long for Argon2, it fails only when the random source fails; a hash that
/// comes back verifies against the same password.
pub fn hash_password(password: &[u8]) -> (r: Result<String, HashingError>)
    ensures
        r is Ok ==> password_matches(password@, r->Ok_0@),
        password@.len() <= MAX_PASSWORD_BYTES && r is Err ==> r == Err::<String, HashingError>(
            HashingError::RandomSourceFailed,
        ),
        password@.len() > MAX_PASSWORD_BYTES ==> r is Err,
{
    let salt = match random_bytes(SALT_BYTES) {
        Some(s) => s,
        None => return Err(HashingError::RandomSourceFailed),
    };
    hash_password_with_salt(password, &salt)
}

/// Checks a password against a stored hash, telling a malformed hash apart
/// from a wrong password.
pub fn check_password(password: &[u8], stored: &str) -> (r: PasswordCheck)
    ensures
        r == PasswordCheck::MalformedHash <==> !phc_well_formed(stored@),
        r == PasswordCheck::Match <==> password_matches(password@, stored@),
{
    match argon2_check(password, stored) {
        None => PasswordCheck::MalformedHash,
        Some(true) => PasswordCheck::Match,
        Some(false) => PasswordCheck::Mismatch,
    }
}

/// Does `password` match the stored hash? A malformed hash matches nothing.
pub fn verify_password(password: &[u8], stored: &str) -> (r: bool)
    ensures
        r == password_matches(password@, stored@),
{
    match check_password(password, stored) {
        PasswordCheck::Match => true,
        _ => false,
    }
}

} // verus!

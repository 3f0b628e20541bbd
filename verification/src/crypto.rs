//! Trusted boundary around the password-hashing and randomness crates.
//!
//! One-time codes are hashed with Argon2 under a fresh random salt, and
//! verified against the stored PHC string; code values and identifiers are
//! drawn from the process RNG.

use vstd::prelude::*;
use argon2::Argon2;
use password_hash::PasswordHasher;
use password_hash::PasswordVerifier;
use password_hash::phc::PasswordHash;

verus! {

/// Whether Argon2 verification of `code` against the PHC string `hash`
/// succeeds. The outcome is a function of the two arguments alone: the salt
/// and parameters are read back out of the PHC string itself.
pub uninterp spec fn argon_matches(code: Seq<u8>, hash: Seq<char>) -> bool;

/// Relies on argon2's `PasswordHasher::hash_password`, which hashes under a
/// fresh random salt and renders the result as a PHC string (so it begins
/// with `$`); verifying the same code against that string succeeds.
#[verifier::external_body]
pub fn hash_code(code: &[u8]) -> (r: Option<String>)
    ensures
        r matches Some(h) ==> argon_matches(code@, h@) && h@.len() > 0 && h@[0] == '$',
{
    match Argon2::default().hash_password(code) {
        Ok(h) => Some(h.to_string()),
        Err(_) => None,
    }
}

/// Relies on argon2's `PasswordVerifier::verify_password` after parsing the
/// stored PHC string; a string that does not parse verifies as no match.
#[verifier::external_body]
pub fn verify_code(code: &[u8], hash: &str) -> (r: bool)
    ensures
        r == argon_matches(code@, hash@),
{
    match PasswordHash::new(hash) {
        Ok(parsed) => Argon2::default().verify_password(code, &parsed).is_ok(),
        Err(_) => false,
    }
}

/// Relies on rand's `random_range`: a uniformly random six-digit code.
#[verifier::external_body]
pub fn random_code() -> (r: u32)
    ensures
        100000 <= r <= 999999,
{
    rand::random_range(100000u32..=999999u32)
}

/// Relies on uuid's `Uuid::new_v4`: a random identifier. Nothing is promised
/// of the value; callers state what holds of every outcome.
#[verifier::external_body]
pub fn fresh_id() -> u128 {
    uuid::Uuid::new_v4().as_u128()
}

} // verus!

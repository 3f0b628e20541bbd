//! Rows of the credential store, as the verified core models them.
//!
//! Identifiers are 128-bit values (as a UUID holds), byte strings stand for
//! text and key material, and instants are unix seconds.

use vstd::prelude::*;

verus! {

/// Ephemeral phone-verification record, keyed by phone number. One row per
/// phone; a re-request overwrites it. Destroyed on successful confirmation.
pub struct VerificationCode {
    pub phone_number: Vec<u8>,
    pub code_hash: String,
    pub expires_at: u64,
    pub attempt_count: u32,
}

/// A user, created on the first successful confirmation for a phone number.
/// The phone number is unique; the id is the stable reference.
pub struct User {
    pub id: u128,
    pub name: Vec<u8>,
    pub phone_number: Vec<u8>,
    pub created_at: u64,
}

/// A device row, materialized when its key bundle is uploaded; at most one
/// row ever exists per device id.
pub struct Device {
    pub id: u128,
    pub user_id: u128,
    pub name: Vec<u8>,
    pub created_at: u64,
    pub is_revoked: bool,
    pub identity_key_pub: Vec<u8>,
    pub signed_prekey_pub: Vec<u8>,
    pub signed_prekey_signature: Vec<u8>,
    pub push_token: Vec<u8>,
}

/// A one-time prekey of a device; `is_consumed` moves false to true exactly
/// once and is never reversed.
pub struct OneTimePrekey {
    pub id: u64,
    pub device_id: u128,
    pub prekey_pub: Vec<u8>,
    pub is_consumed: bool,
    pub created_at: u64,
}

} // verus!

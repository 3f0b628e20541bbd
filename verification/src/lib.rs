//! Identity-bootstrap core for an end-to-end-encrypted messaging service:
//! phone verification by one-time code, session-token issuance and checking,
//! and the device key-bundle lifecycle with one-time prekey consumption.

pub mod crypto;
pub mod encoding;
pub mod keys;
pub mod models;
pub mod phone;
pub mod register;
pub mod state;
pub mod token;

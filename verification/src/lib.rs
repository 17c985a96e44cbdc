//! Credential verification and token-lifecycle core for an HTTP
//! authentication service.
//!
//! The crate covers password hashing and verification, signed access-token
//! issuance and validation, single-use refresh-token rotation, and the
//! request-time authorization gate.  HTTP wiring, the persistent user store
//! and other process plumbing are collaborators that hand plain values in
//! and take plain values back.

pub mod flows;
pub mod headers;
pub mod models;
pub mod password;
pub mod registry;
pub mod token;

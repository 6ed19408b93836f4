//! Credential issuance and verification: a directory of identities with
//! unique names, a store of salted Argon2 password hashes, and the service
//! that signs users up and logs them in.

pub mod auth;
pub mod directory;
pub mod error;
pub mod handler;
pub mod secret;

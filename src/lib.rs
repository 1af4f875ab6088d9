//! Authentication core for a web application behind a reverse proxy:
//! password accounts, public-key ("passkey") ceremonies and session tokens.
//!
//! - `credentials`: accounts and the public-key credentials bound to them.
//! - `password`: salted, adaptive password hashes.
//! - `challenges`: open ceremonies, each taken at most once.
//! - `crypto`: digests and signature checks.
//! - `ceremony`: the checks a client's registration or assertion must pass.
//! - `sessions`: session tokens with a fixed lifetime.
//! - `service`: the flows that tie these together.
pub mod bytes;
pub mod ceremony;
pub mod challenges;
pub mod credentials;
pub mod crypto;
pub mod error;
pub mod password;
mod random;
pub mod service;
pub mod sessions;

//! An application-layer envelope-and-token protocol for authenticating a user
//! over an untrusted transport: sender-bound envelope encryption under a
//! per-session keyring, a deterministic transform for equality-searchable
//! indexes, sealing of key material under a secret derived from a session id,
//! and RSA-signed token issuance and verification for authentication and CSRF
//! protection.

pub mod base64;
pub mod deterministic;
pub mod emoji;
pub mod envelope;
pub mod errors;
pub mod login;
pub mod primitives;
pub mod sealing;
pub mod token;

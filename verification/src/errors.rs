//! The error kinds that the protocol layer surfaces. Every cryptographic
//! failure is non-fatal and maps to an authentication rejection at the caller.

use vstd::prelude::*;

verus! {

/// Why token verification was refused.
#[derive(Clone, Copy, Debug, PartialEq, Eq, Structural)]
pub enum VerifyFailure {
    /// The token could not be split or its claims could not be parsed.
    MalformedToken,
    /// The RSA signature did not check out against the public key.
    BadSignature,
    /// The `iss` claim differs from the configured issuer.
    IssuerMismatch,
    /// The `exp` claim lies at or before the given time.
    Expired,
    /// A bound claim (`email` or `sid`) differs from the expected value.
    ClaimMismatch,
}

/// The failure kinds of the envelope, index, sealing and token operations.
#[derive(Clone, Copy, Debug, PartialEq, Eq, Structural)]
pub enum CryptoError {
    /// Malformed encoded text that does not decode to bytes.
    DecodeError,
    /// An envelope's declared sender differs from the keyring's identity.
    SenderMismatch,
    /// The authenticated cipher failed: a bad tag, malformed ciphertext,
    /// wrong key, or a failure of the cipher computation itself.
    DecryptionError,
    /// A sealed keyring failed to open or to parse back into its fields.
    UnsealError,
    /// Missing or malformed static key material.
    InvalidKeyMaterial,
    /// Token signing failed, typically on bad private key material.
    SigningError,
    /// Token verification failed, with the reason.
    VerificationError(VerifyFailure),
}

} // verus!

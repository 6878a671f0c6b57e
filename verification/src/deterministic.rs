//! Deterministic index crypto: a non-randomized transform of a byte payload
//! under a static key and salt, so equal plaintext always yields equal
//! ciphertext and the result can be stored and looked up by equality, without
//! ever storing or recovering the plaintext. It deliberately trades semantic
//! secrecy for equality-queryability and must only index values whose
//! equality pattern may leak.

use vstd::prelude::*;

use crate::errors::CryptoError;
use crate::primitives::{blake2b512, blake2b512_of};

verus! {

/// The deterministic ciphertext of a payload under a static key and salt:
/// the wide hash of key, salt and payload run together. A function of its
/// three inputs and nothing else.
pub open spec fn deterministic_index_model(
    static_key: Seq<u8>,
    static_salt: Seq<u8>,
    plaintext: Seq<u8>,
) -> Seq<u8> {
    blake2b512_of(static_key + static_salt + plaintext)
}

/// Computes the deterministic index ciphertext of a payload. Equal inputs
/// give equal output across all calls; it succeeds exactly when the static
/// key material is non-empty, and rejects empty key material as
/// `InvalidKeyMaterial`.
pub fn deterministic_encrypt(static_key: &[u8], static_salt: &[u8], plaintext: &[u8]) -> (r: Result<
    Vec<u8>,
    CryptoError,
>)
    ensures
        r is Ok <==> static_key@.len() > 0 && static_salt@.len() > 0,
        r matches Ok(v) ==> v@ == deterministic_index_model(static_key@, static_salt@, plaintext@),
        r is Err ==> r == Err::<Vec<u8>, CryptoError>(CryptoError::InvalidKeyMaterial),
{
    if static_key.len() == 0 || static_salt.len() == 0 {
        return Err(CryptoError::InvalidKeyMaterial);
    }
    let mut input: Vec<u8> = Vec::new();
    input.extend_from_slice(static_key);
    input.extend_from_slice(static_salt);
    input.extend_from_slice(plaintext);
    assert(input@ == static_key@ + static_salt@ + plaintext@);
    Ok(blake2b512(input.as_slice()))
}

/// Determinism: any two successfully computed index ciphertexts of the same
/// payload under the same static key and salt are equal, however far apart
/// the calls.
pub proof fn lemma_deterministic_index_repeatable(
    static_key: Seq<u8>,
    static_salt: Seq<u8>,
    plaintext: Seq<u8>,
    first: Seq<u8>,
    second: Seq<u8>,
)
    requires
        first == deterministic_index_model(static_key, static_salt, plaintext),
        second == deterministic_index_model(static_key, static_salt, plaintext),
    ensures
        first == second,
{
}

} // verus!

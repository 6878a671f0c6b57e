//! Trusted declarations for the outside primitives the library builds on:
//! UTF-8 string construction from std, the BLAKE2b hash, the authenticated
//! cipher and the password-hash check from `orion`. Each carries the contract
//! the outside source shows; nothing else in the crate is taken on trust.

use vstd::prelude::*;

verus! {

/// Relies on `String::from_utf8`: when the bytes are valid UTF-8 it returns
/// the string whose bytes are the input, otherwise it reports the failure.
#[verifier::external_body]
pub fn try_utf8_to_string(v: Vec<u8>) -> (r: Option<String>)
    ensures
        r matches Some(s) ==> vstd::utf8::encode_utf8(s@) == v@,
        r is Some <==> vstd::utf8::valid_utf8(v@),
{
    String::from_utf8(v).ok()
}

/// The BLAKE2b-512 digest of a byte sequence, named but not written out:
/// the outside implementation is the sole definition of its value.
pub uninterp spec fn blake2b512_of(data: Seq<u8>) -> Seq<u8>;

/// Relies on `orion::hazardous::hash::blake2::blake2b::Hasher::Blake2b512.digest`:
/// the digest depends on the input bytes alone and is 64 bytes wide. The
/// one-shot call has no reachable failure: `Blake2b::new(64)` accepts the
/// size, and `update`/`finalize` fail only on a reused or keyed state, never
/// on a fresh one.
#[verifier::external_body]
pub fn blake2b512(data: &[u8]) -> (r: Vec<u8>)
    ensures
        r@ == blake2b512_of(data@),
        r@.len() == 64,
{
    let digest = orion::hazardous::hash::blake2::blake2b::Hasher::Blake2b512
        .digest(data)
        .expect("one-shot BLAKE2b-512 digest cannot fail");
    digest.as_ref().to_vec()
}

/// What `orion::aead::open` returns for a key and a ciphertext: `Some` of the
/// plaintext exactly when the 32-byte key authenticates the ciphertext. The
/// outcome depends on the two arguments alone.
pub uninterp spec fn aead_open_of(key: Seq<u8>, ciphertext: Seq<u8>) -> Option<Seq<u8>>;

/// Relies on `orion::aead::seal` (XChaCha20Poly1305, fresh random nonce):
/// on success the ciphertext is nonce + ciphertext + tag, 40 bytes longer
/// than the plaintext, and `orion::aead::open` under the same key returns the
/// plaintext. The nonce is random, so nothing relates two ciphertexts of one
/// plaintext.
#[verifier::external_body]
pub fn aead_seal(key: &[u8], plaintext: &[u8]) -> (r: Option<Vec<u8>>)
    requires
        key@.len() == 32,
        plaintext@.len() > 0,
    ensures
        r matches Some(c) ==> {
            &&& c@.len() == plaintext@.len() + 40
            &&& aead_open_of(key@, c@) == Some(plaintext@)
        },
{
    let secret_key = orion::aead::SecretKey::try_from(key).ok()?;
    orion::aead::seal(&secret_key, plaintext).ok()
}

/// Relies on `orion::aead::open` (XChaCha20Poly1305): deterministic in the
/// key and ciphertext; it returns the plaintext exactly when the tag checks
/// out, and fails otherwise.
#[verifier::external_body]
pub fn aead_open(key: &[u8], ciphertext: &[u8]) -> (r: Option<Vec<u8>>)
    requires
        key@.len() == 32,
    ensures
        r matches Some(p) ==> aead_open_of(key@, ciphertext@) == Some(p@),
        r is None ==> aead_open_of(key@, ciphertext@) is None,
{
    let secret_key = orion::aead::SecretKey::try_from(key).ok()?;
    orion::aead::open(&secret_key, ciphertext).ok()
}

/// Relies on `chrono::Utc::now`: the present moment as a Unix timestamp in
/// seconds. Nothing is promised of it: it depends on the machine's clock.
/// The underlying call panics only on a host clock set before 1970.
#[verifier::external_body]
pub fn now_timestamp() -> i64 {
    chrono::Utc::now().timestamp()
}

/// Whether an encoded password hash verifies a password: what
/// `orion::pwhash::hash_password_verify` decides, a deterministic function
/// of the encoded hash text and the password bytes.
pub uninterp spec fn pwhash_verifies(hash_text: Seq<char>, password: Seq<u8>) -> bool;

/// Relies on `orion::pwhash::hash_password_verify` (Argon2id): re-derives the
/// hash from the password and the parameters and salt inside the encoded
/// text, and compares; the outcome depends on the two arguments alone.
/// A hash text that does not parse verifies nothing.
#[verifier::external_body]
pub fn verify_password_hash(hash_text: &str, password: &[u8]) -> (r: bool)
    ensures
        r == pwhash_verifies(hash_text@, password@),
{
    let parsed = match orion::pwhash::PasswordHash::try_from(hash_text) {
        Ok(h) => h,
        Err(_) => return false,
    };
    let pw = match orion::pwhash::Password::try_from(password) {
        Ok(p) => p,
        Err(_) => return false,
    };
    orion::pwhash::hash_password_verify(&parsed, &pw).is_ok()
}

} // verus!

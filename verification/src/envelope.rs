//! The sender-bound message envelope: authenticated symmetric encryption of a
//! byte payload under a per-session shared secret, carried as emoji text and
//! tagged with the sender's identity. Decryption checks the declared sender
//! against the keyring's identity before it touches the cipher, so one
//! session's ciphertext replayed against another session's key is rejected
//! outright.

use vstd::prelude::*;

use crate::base64;
use crate::emoji;
use crate::errors::CryptoError;
use crate::primitives::{aead_open, aead_open_of, aead_seal};

verus! {

/// Per-session symmetric key material: the session's identity (`user`), the
/// envelope encryption key, and the static key and salt pair for
/// deterministic indexing. Created once per session and immutable afterwards.
pub struct SharedKeyring {
    /// The sender identity every envelope of this session is bound to.
    pub user: String,
    /// The 32-byte key of the authenticated cipher.
    pub key: Vec<u8>,
    /// The static key of the deterministic index transform.
    pub static_key: Vec<u8>,
    /// The static salt of the deterministic index transform.
    pub static_salt: Vec<u8>,
}

impl SharedKeyring {
    /// The key material fits the cipher.
    pub open spec fn wf(self) -> bool {
        self.key@.len() == 32
    }
}

/// A ciphertext bundle tagged with its declared sender; the message text is
/// the emoji encoding of the cipher's output.
pub struct EnvelopeMessage {
    /// The identity the envelope claims to come from.
    pub sender: String,
    /// The emoji-encoded ciphertext.
    pub message: String,
}

/// What decrypting an envelope under a keyring yields: the sender check comes
/// first and fails without touching the cipher; then the text must decode,
/// and the cipher must authenticate the ciphertext under the session key.
pub open spec fn decrypt_model(
    env_sender: Seq<char>,
    env_message: Seq<char>,
    user: Seq<char>,
    key: Seq<u8>,
) -> Result<Seq<u8>, CryptoError> {
    if env_sender != user {
        Err(CryptoError::SenderMismatch)
    } else if !emoji::is_emoji_encoding(vstd::utf8::encode_utf8(env_message)) {
        Err(CryptoError::DecodeError)
    } else {
        match aead_open_of(key, emoji::emoji_decoded(vstd::utf8::encode_utf8(env_message))) {
            Some(p) => Ok(p),
            None => Err(CryptoError::DecryptionError),
        }
    }
}

/// True when an envelope is a well-formed encryption of `plaintext` for the
/// given key material: its text decodes to a ciphertext that the cipher opens
/// back to `plaintext` under the key.
pub open spec fn encrypts(env: EnvelopeMessage, key: Seq<u8>, plaintext: Seq<u8>) -> bool {
    &&& emoji::is_emoji_encoding(vstd::utf8::encode_utf8(env.message@))
    &&& aead_open_of(key, emoji::emoji_decoded(vstd::utf8::encode_utf8(env.message@))) == Some(
        plaintext,
    )
}

/// Encrypts a payload under the keyring's session key with a fresh random
/// nonce, encodes the ciphertext as emoji text and tags the envelope with the
/// given sender. Pure but for the nonce draw: two calls on one payload yield
/// unequal ciphertexts with overwhelming probability.
pub fn encrypt(keyring: &SharedKeyring, sender: String, plaintext: &[u8]) -> (r: Result<
    EnvelopeMessage,
    CryptoError,
>)
    requires
        keyring.wf(),
        plaintext@.len() > 0,
    ensures
        r matches Ok(env) ==> env.sender@ == sender@ && encrypts(env, keyring.key@, plaintext@),
        r is Err ==> r == Err::<EnvelopeMessage, CryptoError>(CryptoError::DecryptionError),
{
    match aead_seal(keyring.key.as_slice(), plaintext) {
        Some(ciphertext) => {
            let message = emoji::encode(ciphertext.as_slice());
            proof {
                emoji::lemma_emoji_bytes_is_encoding(ciphertext@);
                emoji::lemma_emoji_decoded_of_encoded(ciphertext@);
            }
            Ok(EnvelopeMessage { sender, message })
        },
        None => Err(CryptoError::DecryptionError),
    }
}

/// Encrypts a payload the session sends to its own peer, tagging the envelope
/// with the keyring's own identity: the form used for server-to-client
/// payloads such as an entire response body.
pub fn encrypt_broadcast(keyring: &SharedKeyring, plaintext: &[u8]) -> (r: Result<
    EnvelopeMessage,
    CryptoError,
>)
    requires
        keyring.wf(),
        plaintext@.len() > 0,
    ensures
        r matches Ok(env) ==> env.sender@ == keyring.user@ && encrypts(
            env,
            keyring.key@,
            plaintext@,
        ),
        r is Err ==> r == Err::<EnvelopeMessage, CryptoError>(CryptoError::DecryptionError),
{
    let sender = keyring.user.clone();
    encrypt(keyring, sender, plaintext)
}

impl EnvelopeMessage {
    /// Decrypts the envelope under the keyring: rejects a mismatched sender
    /// before any cryptographic work, then decodes and opens the ciphertext.
    pub fn decrypt(&self, keyring: &SharedKeyring) -> (r: Result<Vec<u8>, CryptoError>)
        requires
            keyring.wf(),
        ensures
            r matches Ok(v) ==> decrypt_model(
                self.sender@,
                self.message@,
                keyring.user@,
                keyring.key@,
            ) == Ok::<Seq<u8>, CryptoError>(v@),
            r matches Err(e) ==> decrypt_model(
                self.sender@,
                self.message@,
                keyring.user@,
                keyring.key@,
            ) == Err::<Seq<u8>, CryptoError>(e),
    {
        if !self.sender.eq(&keyring.user) {
            return Err(CryptoError::SenderMismatch);
        }
        let ciphertext = emoji::decode(self.message.as_str())?;
        match aead_open(keyring.key.as_slice(), ciphertext.as_slice()) {
            Some(p) => Ok(p),
            None => Err(CryptoError::DecryptionError),
        }
    }
}

/// What decrypting a base64-carried envelope yields: as `decrypt_model`,
/// with the ciphertext read from base64 text instead of emoji text — the
/// form used for header values. The sender check still comes first.
pub open spec fn decrypt_base64_model(
    env_sender: Seq<char>,
    env_message: Seq<char>,
    user: Seq<char>,
    key: Seq<u8>,
) -> Result<Seq<u8>, CryptoError> {
    if env_sender != user {
        Err(CryptoError::SenderMismatch)
    } else {
        match base64::base64_decoded(vstd::utf8::encode_utf8(env_message)) {
            None => Err(CryptoError::DecodeError),
            Some(ciphertext) => match aead_open_of(key, ciphertext) {
                Some(p) => Ok(p),
                None => Err(CryptoError::DecryptionError),
            },
        }
    }
}

/// True when a base64-carried envelope is a well-formed encryption of
/// `plaintext` for the given key material.
pub open spec fn encrypts_base64(env: EnvelopeMessage, key: Seq<u8>, plaintext: Seq<u8>) -> bool {
    &&& base64::base64_decoded(vstd::utf8::encode_utf8(env.message@)) matches Some(ct)
        && aead_open_of(key, ct) == Some(plaintext)
}

/// As `encrypt_broadcast`, but carrying the ciphertext as base64 text: the
/// form used for header values, where emoji text is unwelcome.
pub fn encrypt_broadcast_base64(keyring: &SharedKeyring, plaintext: &[u8]) -> (r: Result<
    EnvelopeMessage,
    CryptoError,
>)
    requires
        keyring.wf(),
        plaintext@.len() > 0,
    ensures
        r matches Ok(env) ==> env.sender@ == keyring.user@ && encrypts_base64(
            env,
            keyring.key@,
            plaintext@,
        ),
        r is Err ==> r == Err::<EnvelopeMessage, CryptoError>(CryptoError::DecryptionError),
{
    match aead_seal(keyring.key.as_slice(), plaintext) {
        Some(ciphertext) => {
            let message = base64::encode(ciphertext.as_slice());
            proof {
                base64::lemma_base64_decoded_of_encoded(ciphertext@);
            }
            let sender = keyring.user.clone();
            Ok(EnvelopeMessage { sender, message })
        },
        None => Err(CryptoError::DecryptionError),
    }
}

impl EnvelopeMessage {
    /// Decrypts a base64-carried envelope under the keyring: the same sender
    /// check first, then the base64 decoding and the cipher.
    pub fn decrypt_base64(&self, keyring: &SharedKeyring) -> (r: Result<Vec<u8>, CryptoError>)
        requires
            keyring.wf(),
        ensures
            r matches Ok(v) ==> decrypt_base64_model(
                self.sender@,
                self.message@,
                keyring.user@,
                keyring.key@,
            ) == Ok::<Seq<u8>, CryptoError>(v@),
            r matches Err(e) ==> decrypt_base64_model(
                self.sender@,
                self.message@,
                keyring.user@,
                keyring.key@,
            ) == Err::<Seq<u8>, CryptoError>(e),
    {
        if !self.sender.eq(&keyring.user) {
            return Err(CryptoError::SenderMismatch);
        }
        let ciphertext = base64::decode(self.message.as_str())?;
        match aead_open(keyring.key.as_slice(), ciphertext.as_slice()) {
            Some(p) => Ok(p),
            None => Err(CryptoError::DecryptionError),
        }
    }
}

/// Round trip: an envelope that encrypts `p` under a keyring's key, tagged
/// with the keyring's own identity, decrypts back to exactly `p`.
pub proof fn lemma_envelope_round_trip(
    env_sender: Seq<char>,
    env_message: Seq<char>,
    user: Seq<char>,
    key: Seq<u8>,
    p: Seq<u8>,
)
    requires
        env_sender == user,
        emoji::is_emoji_encoding(vstd::utf8::encode_utf8(env_message)),
        aead_open_of(key, emoji::emoji_decoded(vstd::utf8::encode_utf8(env_message))) == Some(p),
    ensures
        decrypt_model(env_sender, env_message, user, key) == Ok::<Seq<u8>, CryptoError>(p),
{
}

/// A mismatched sender is rejected as `SenderMismatch` whatever the message
/// text holds: the model never reaches the decoding or the cipher. The same
/// holds of the base64-carried form.
pub proof fn lemma_sender_mismatch_rejected(
    env_sender: Seq<char>,
    env_message: Seq<char>,
    user: Seq<char>,
    key: Seq<u8>,
)
    requires
        env_sender != user,
    ensures
        decrypt_model(env_sender, env_message, user, key) == Err::<Seq<u8>, CryptoError>(
            CryptoError::SenderMismatch,
        ),
        decrypt_base64_model(env_sender, env_message, user, key) == Err::<Seq<u8>, CryptoError>(
            CryptoError::SenderMismatch,
        ),
{
}

/// Round trip for the base64-carried form: an envelope that encrypts `p`
/// under a keyring's key, tagged with the keyring's own identity, decrypts
/// back to exactly `p`.
pub proof fn lemma_envelope_base64_round_trip(
    env_sender: Seq<char>,
    env_message: Seq<char>,
    user: Seq<char>,
    key: Seq<u8>,
    p: Seq<u8>,
)
    requires
        env_sender == user,
        base64::base64_decoded(vstd::utf8::encode_utf8(env_message)) matches Some(ct)
            && aead_open_of(key, ct) == Some(p),
    ensures
        decrypt_base64_model(env_sender, env_message, user, key) == Ok::<Seq<u8>, CryptoError>(p),
{
}

} // verus!

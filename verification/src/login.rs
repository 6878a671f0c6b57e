//! The login decision: decrypt the submitted credential envelopes, recompute
//! the deterministic email index and compare it byte for byte against the
//! stored record, verify the password hash only on an index match, and
//! materialize the authenticated identity. Every failure path rejects; the
//! caller maps any rejection to one uniform response so an unknown email and
//! a wrong password are indistinguishable to the client.

use vstd::prelude::*;

use crate::deterministic::{deterministic_encrypt, deterministic_index_model};
use crate::emoji;
use crate::envelope::{decrypt_model, EnvelopeMessage, SharedKeyring};
use crate::errors::CryptoError;
use crate::primitives::{pwhash_verifies, try_utf8_to_string, verify_password_hash};

verus! {

/// The authenticated identity written into the session after a successful
/// login.
pub struct SessionUser {
    /// The plaintext email the user authenticated as.
    pub email: String,
    /// Whether the email matches the configured super-user email.
    pub is_admin: bool,
}

/// A stored user row: no plaintext, only the deterministic index of the
/// email and the emoji-encoded password-hash text.
pub struct UserRecord {
    /// The deterministic index ciphertext of the user's email.
    pub email_hash: Vec<u8>,
    /// The password-hash text, emoji-encoded.
    pub password: String,
}

/// True when a submitted email and password are accepted against a stored
/// record under the given static key material: the recomputed index equals
/// the stored one, the stored hash decodes to text, and that text verifies
/// the password.
pub open spec fn login_accepts(
    record_email_hash: Seq<u8>,
    record_password: Seq<char>,
    email: Seq<char>,
    password: Seq<char>,
    static_key: Seq<u8>,
    static_salt: Seq<u8>,
) -> bool {
    &&& static_key.len() > 0
    &&& static_salt.len() > 0
    &&& login_accepts_index(
        record_email_hash,
        record_password,
        deterministic_index_model(static_key, static_salt, vstd::utf8::encode_utf8(email)),
        password,
    )
}

/// True when a record accepts a password, with the email index already
/// computed: the stored index equals the computed one, the stored hash
/// decodes to text, and that text verifies the password.
pub open spec fn login_accepts_index(
    record_email_hash: Seq<u8>,
    record_password: Seq<char>,
    computed_index: Seq<u8>,
    password: Seq<char>,
) -> bool {
    &&& record_email_hash == computed_index
    &&& emoji::is_emoji_encoding(vstd::utf8::encode_utf8(record_password))
    &&& vstd::utf8::valid_utf8(emoji::emoji_decoded(vstd::utf8::encode_utf8(record_password)))
    &&& pwhash_verifies(
        vstd::utf8::decode_utf8(emoji::emoji_decoded(vstd::utf8::encode_utf8(record_password))),
        vstd::utf8::encode_utf8(password),
    )
}

/// Decrypts the two submitted credential envelopes — emoji-encoded `email`
/// and `password` field values — under the session keyring, treating each as
/// sent by the session's own identity.
pub fn decrypt_credentials(keyring: &SharedKeyring, email_text: &str, password_text: &str) -> (r:
    Result<(String, String), CryptoError>)
    requires
        keyring.wf(),
    ensures
        r matches Ok((email, password)) ==> {
            &&& decrypt_model(keyring.user@, email_text@, keyring.user@, keyring.key@)
                == Ok::<Seq<u8>, CryptoError>(vstd::utf8::encode_utf8(email@))
            &&& decrypt_model(keyring.user@, password_text@, keyring.user@, keyring.key@)
                == Ok::<Seq<u8>, CryptoError>(vstd::utf8::encode_utf8(password@))
        },
        r is Ok <==> {
            &&& decrypt_model(keyring.user@, email_text@, keyring.user@, keyring.key@) matches Ok(
                b,
            ) && vstd::utf8::valid_utf8(b)
            &&& decrypt_model(keyring.user@, password_text@, keyring.user@, keyring.key@) matches
                Ok(b2) && vstd::utf8::valid_utf8(b2)
        },
        r matches Err(e) ==> e == CryptoError::DecodeError || e == CryptoError::DecryptionError,
{
    let email_envelope = EnvelopeMessage {
        sender: keyring.user.clone(),
        message: email_text.to_owned(),
    };
    let password_envelope = EnvelopeMessage {
        sender: keyring.user.clone(),
        message: password_text.to_owned(),
    };
    let email_bytes = match email_envelope.decrypt(keyring) {
        Ok(b) => b,
        Err(e) => {
            return match e {
                CryptoError::DecodeError => Err(CryptoError::DecodeError),
                _ => Err(CryptoError::DecryptionError),
            };
        },
    };
    let password_bytes = match password_envelope.decrypt(keyring) {
        Ok(b) => b,
        Err(e) => {
            return match e {
                CryptoError::DecodeError => Err(CryptoError::DecodeError),
                _ => Err(CryptoError::DecryptionError),
            };
        },
    };
    let email = match try_utf8_to_string(email_bytes) {
        None => { return Err(CryptoError::DecodeError) },
        Some(s) => s,
    };
    let password = match try_utf8_to_string(password_bytes) {
        None => { return Err(CryptoError::DecodeError) },
        Some(s) => s,
    };
    Ok((email, password))
}

/// Decides a login attempt against an optional stored record. Accepts
/// exactly when the record exists, the recomputed deterministic index of the
/// submitted email equals the stored one, and the stored hash verifies the
/// submitted password — and the password check runs only after the index has
/// matched. The admin flag is set exactly when the email equals the
/// configured super-user email.
pub fn authenticate(
    record: Option<&UserRecord>,
    email: &String,
    password: &String,
    static_key: &[u8],
    static_salt: &[u8],
    super_user_email: &String,
) -> (r: Option<SessionUser>)
    ensures
        r is Some <==> (record matches Some(u) && login_accepts(
            u.email_hash@,
            u.password@,
            email@,
            password@,
            static_key@,
            static_salt@,
        )),
        r matches Some(su) ==> su.email@ == email@ && su.is_admin == (email@
            == super_user_email@),
{
    let user = match record {
        None => { return None },
        Some(u) => u,
    };
    let computed = match deterministic_encrypt(
        static_key,
        static_salt,
        email.as_str().as_bytes(),
    ) {
        Ok(c) => c,
        Err(_) => { return None },
    };
    authenticate_with_index(user, email, password, &computed, super_user_email)
}

/// The deterministic heart of the login decision, with the email index
/// already computed: accepts exactly when the stored index equals the
/// computed one and the stored hash verifies the password — and the password
/// check runs only after the index has matched.
pub fn authenticate_with_index(
    record: &UserRecord,
    email: &String,
    password: &String,
    computed_index: &Vec<u8>,
    super_user_email: &String,
) -> (r: Option<SessionUser>)
    ensures
        r is Some <==> login_accepts_index(
            record.email_hash@,
            record.password@,
            computed_index@,
            password@,
        ),
        r matches Some(su) ==> su.email@ == email@ && su.is_admin == (email@
            == super_user_email@),
{
    let email_is_valid = {
        let expected: &Vec<u8> = &record.email_hash;
        computed_index.eq(expected)
    };
    if !email_is_valid {
        return None;
    }
    proof {
        assert(record.email_hash@ =~= computed_index@);
    }
    let hash_bytes = match emoji::decode(record.password.as_str()) {
        Ok(b) => b,
        Err(_) => { return None },
    };
    let hash_text = match try_utf8_to_string(hash_bytes) {
        None => { return None },
        Some(t) => t,
    };
    proof {
        vstd::utf8::encode_utf8_decode_utf8(hash_text@);
    }
    let pass_is_valid = verify_password_hash(hash_text.as_str(), password.as_str().as_bytes());
    if !pass_is_valid {
        return None;
    }
    let is_admin = email.eq(super_user_email);
    Some(SessionUser { email: email.clone(), is_admin })
}

} // verus!

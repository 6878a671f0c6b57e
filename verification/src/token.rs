//! RSA-signed token issuance and verification. Auth tokens bind an issuer,
//! an expiry and an email; CSRF tokens bind the issuer, an expiry, the hashed
//! session id and the session's sealed keyring. The RSA signature itself and
//! the JOSE wire format come from the `jsonwebtokens` crate behind trusted
//! declarations; every claim check — issuer, expiry, bound claim equality —
//! is verified here.

use vstd::prelude::*;

use crate::emoji;
use crate::envelope::{decrypt_base64_model, EnvelopeMessage, SharedKeyring};
use crate::errors::{CryptoError, VerifyFailure};
use crate::primitives::{aead_open_of, blake2b512_of, try_utf8_to_string};
use crate::sealing;

verus! {

/// Whether the RSA signature of an encoded token checks out under a public
/// key: what `jsonwebtokens::raw::verify_signature_only` decides, a
/// deterministic function of the key and token bytes alone.
pub uninterp spec fn rsa_sig_ok(pub_pem: Seq<u8>, token: Seq<char>) -> bool;

/// Whether a public-key PEM is the counterpart of a private-key PEM. The
/// library never establishes this relation itself: a caller supplies it as a
/// hypothesis, and the signing wrappers state the one fact that follows from
/// it — a freshly signed token verifies under the matching public key.
pub uninterp spec fn rsa_keypair_ok(priv_pem: Seq<u8>, pub_pem: Seq<u8>) -> bool;

/// The auth-token claims carried by an encoded token, if it splits and its
/// claims part holds a text `iss`, an integer `exp` and a text `email`: a
/// pure parse of the token text.
pub uninterp spec fn auth_claims_of(token: Seq<char>) -> Option<(Seq<char>, int, Seq<char>)>;

/// The CSRF-token claims carried by an encoded token — `iss`, `exp`, `sid`
/// and the sealed `keyring` — if present: a pure parse of the token text.
pub uninterp spec fn csrf_claims_of(token: Seq<char>) -> Option<
    (Seq<char>, int, Seq<char>, Seq<char>),
>;

/// Relies on `jsonwebtokens::Algorithm::new_rsa_pem_signer` and
/// `jsonwebtokens::encode`: signs the claims `{iss, exp, email}` with RS256
/// under the private key; decoding the result recovers exactly those claims,
/// and the RS256 signature verifies under the matching public key.
#[verifier::external_body]
fn sign_auth_raw(priv_pem: &[u8], issuer: &str, exp: i64, email: &str) -> (r: Option<String>)
    ensures
        r matches Some(t) ==> auth_claims_of(t@) == Some((issuer@, exp as int, email@)),
        r matches Some(t) ==> forall|pub_pem: Seq<u8>|
            #[trigger] rsa_keypair_ok(priv_pem@, pub_pem) ==> rsa_sig_ok(pub_pem, t@),
{
    let alg = jsonwebtokens::Algorithm::new_rsa_pem_signer(jsonwebtokens::AlgorithmID::RS256, priv_pem).ok()?;
    let mut header = serde_json::Map::new();
    header.insert("alg".to_string(), serde_json::Value::from(alg.name()));
    let mut claims = serde_json::Map::new();
    claims.insert("iss".to_string(), serde_json::Value::from(issuer));
    claims.insert("exp".to_string(), serde_json::Value::from(exp));
    claims.insert("email".to_string(), serde_json::Value::from(email));
    jsonwebtokens::encode(&serde_json::Value::Object(header), &serde_json::Value::Object(claims), &alg).ok()
}

/// Relies on `jsonwebtokens::Algorithm::new_rsa_pem_signer` and
/// `jsonwebtokens::encode`: signs the claims `{iss, exp, sid, keyring}` with
/// RS256 under the private key; decoding the result recovers those claims,
/// and the RS256 signature verifies under the matching public key.
#[verifier::external_body]
fn sign_csrf_raw(priv_pem: &[u8], issuer: &str, exp: i64, sid: &str, sealed: &str) -> (r: Option<
    String,
>)
    ensures
        r matches Some(t) ==> csrf_claims_of(t@) == Some((issuer@, exp as int, sid@, sealed@)),
        r matches Some(t) ==> forall|pub_pem: Seq<u8>|
            #[trigger] rsa_keypair_ok(priv_pem@, pub_pem) ==> rsa_sig_ok(pub_pem, t@),
{
    let alg = jsonwebtokens::Algorithm::new_rsa_pem_signer(jsonwebtokens::AlgorithmID::RS256, priv_pem).ok()?;
    let mut header = serde_json::Map::new();
    header.insert("alg".to_string(), serde_json::Value::from(alg.name()));
    let mut claims = serde_json::Map::new();
    claims.insert("iss".to_string(), serde_json::Value::from(issuer));
    claims.insert("exp".to_string(), serde_json::Value::from(exp));
    claims.insert("sid".to_string(), serde_json::Value::from(sid));
    claims.insert("keyring".to_string(), serde_json::Value::from(sealed));
    jsonwebtokens::encode(&serde_json::Value::Object(header), &serde_json::Value::Object(claims), &alg).ok()
}

/// Relies on `jsonwebtokens::raw::split_token`, `decode_json_token_slice`
/// and `verify_signature_only` with an RS256 verifier from
/// `Algorithm::new_rsa_pem_verifier`: checks the token's RSA signature under
/// the public key; deterministic in the key and the token text.
#[verifier::external_body]
fn check_signature(pub_pem: &[u8], token: &str) -> (r: bool)
    ensures
        r == rsa_sig_ok(pub_pem@, token@),
{
    let alg = jsonwebtokens::Algorithm::new_rsa_pem_verifier(jsonwebtokens::AlgorithmID::RS256, pub_pem);
    match (alg, jsonwebtokens::raw::split_token(token)) {
        (Ok(alg), Ok(s)) => match jsonwebtokens::raw::decode_json_token_slice(s.header) {
            Ok(h) => jsonwebtokens::raw::verify_signature_only(&h, s.message, s.signature, &alg).is_ok(),
            Err(_) => false,
        },
        _ => false,
    }
}

/// Relies on `jsonwebtokens::raw::split_token` and
/// `decode_json_token_slice`: reads the `iss`, `exp` and `email` claims out
/// of the token's claims part, without any signature or validity check.
#[verifier::external_body]
fn decode_auth_claims(token: &str) -> (r: Option<(String, i64, String)>)
    ensures
        r matches Some((iss, exp, email)) ==> auth_claims_of(token@) == Some(
            (iss@, exp as int, email@),
        ),
        r is None ==> auth_claims_of(token@) is None,
{
    let slices = jsonwebtokens::raw::split_token(token).ok()?;
    let claims = jsonwebtokens::raw::decode_json_token_slice(slices.claims).ok()?;
    let iss = claims.get("iss")?.as_str()?.to_string();
    let exp = claims.get("exp")?.as_i64()?;
    let email = claims.get("email")?.as_str()?.to_string();
    Some((iss, exp, email))
}

/// Relies on `jsonwebtokens::raw::split_token` and
/// `decode_json_token_slice`: reads the `iss`, `exp`, `sid` and `keyring`
/// claims out of the token's claims part, without any validity check.
#[verifier::external_body]
fn decode_csrf_claims(token: &str) -> (r: Option<(String, i64, String, String)>)
    ensures
        r matches Some((iss, exp, sid, sealed)) ==> csrf_claims_of(token@) == Some(
            (iss@, exp as int, sid@, sealed@),
        ),
        r is None ==> csrf_claims_of(token@) is None,
{
    let slices = jsonwebtokens::raw::split_token(token).ok()?;
    let claims = jsonwebtokens::raw::decode_json_token_slice(slices.claims).ok()?;
    let iss = claims.get("iss")?.as_str()?.to_string();
    let exp = claims.get("exp")?.as_i64()?;
    let sid = claims.get("sid")?.as_str()?.to_string();
    let sealed = claims.get("keyring")?.as_str()?.to_string();
    Some((iss, exp, sid, sealed))
}

/// The validated claims of an auth token.
pub struct AuthClaims {
    /// The issuer the token names.
    pub issuer: String,
    /// The expiry timestamp, seconds.
    pub expiry: i64,
    /// The email the token is bound to.
    pub email: String,
}

/// The validated claims of a CSRF token.
pub struct CsrfClaims {
    /// The issuer the token names.
    pub issuer: String,
    /// The expiry timestamp, seconds.
    pub expiry: i64,
    /// The encoded hash of the session id the token is bound to.
    pub sid: String,
    /// The session's sealed keyring, emoji-encoded.
    pub sealed_keyring: String,
}

/// The RSA key pair, PEM-encoded: the private key signs, the public key
/// verifies.
pub struct JsonWebTokenSecrets {
    /// The private-key PEM bytes.
    pub key_pem_data: Vec<u8>,
    /// The public-key PEM bytes.
    pub pub_key_pem_data: Vec<u8>,
}

impl JsonWebTokenSecrets {
    /// Wraps the two PEM byte strings read at startup.
    pub fn new(key_pem_data: Vec<u8>, pub_key_pem_data: Vec<u8>) -> (r: JsonWebTokenSecrets)
        ensures
            r.key_pem_data@ == key_pem_data@,
            r.pub_key_pem_data@ == pub_key_pem_data@,
    {
        JsonWebTokenSecrets { key_pem_data, pub_key_pem_data }
    }
}

/// Issues and verifies RSA-signed tokens for one issuer with a fixed expiry
/// duration.
pub struct JsonWebTokenUtil {
    /// The key pair.
    pub secrets: JsonWebTokenSecrets,
    /// The `iss` claim written into and demanded of every token.
    pub issuer: String,
    /// How far past issuance a token stays valid. The name follows the
    /// configuration it is read from; the value is added as-is to the
    /// seconds-resolution issuance timestamp.
    pub expiry_duration_millis: i64,
}

/// What verifying an auth token yields at a given time: the claims must
/// parse, the signature must check out, and issuer, freshness and the bound
/// email are demanded in that order.
pub open spec fn auth_verify_model(
    pub_pem: Seq<u8>,
    issuer: Seq<char>,
    expected_email: Seq<char>,
    now: int,
    token: Seq<char>,
) -> Result<(Seq<char>, int, Seq<char>), CryptoError> {
    match auth_claims_of(token) {
        None => Err(CryptoError::VerificationError(VerifyFailure::MalformedToken)),
        Some((iss, exp, email)) => if !rsa_sig_ok(pub_pem, token) {
            Err(CryptoError::VerificationError(VerifyFailure::BadSignature))
        } else if iss != issuer {
            Err(CryptoError::VerificationError(VerifyFailure::IssuerMismatch))
        } else if exp <= now {
            Err(CryptoError::VerificationError(VerifyFailure::Expired))
        } else if email != expected_email {
            Err(CryptoError::VerificationError(VerifyFailure::ClaimMismatch))
        } else {
            Ok((iss, exp, email))
        },
    }
}

/// What verifying a CSRF token yields at a given time: as for auth tokens,
/// with the hashed session id as the bound claim; the sealed keyring claim
/// is carried through unchecked.
pub open spec fn csrf_verify_model(
    pub_pem: Seq<u8>,
    issuer: Seq<char>,
    expected_sid: Seq<char>,
    now: int,
    token: Seq<char>,
) -> Result<(Seq<char>, int, Seq<char>, Seq<char>), CryptoError> {
    match csrf_claims_of(token) {
        None => Err(CryptoError::VerificationError(VerifyFailure::MalformedToken)),
        Some((iss, exp, sid, sealed)) => if !rsa_sig_ok(pub_pem, token) {
            Err(CryptoError::VerificationError(VerifyFailure::BadSignature))
        } else if iss != issuer {
            Err(CryptoError::VerificationError(VerifyFailure::IssuerMismatch))
        } else if exp <= now {
            Err(CryptoError::VerificationError(VerifyFailure::Expired))
        } else if sid != expected_sid {
            Err(CryptoError::VerificationError(VerifyFailure::ClaimMismatch))
        } else {
            Ok((iss, exp, sid, sealed))
        },
    }
}

impl JsonWebTokenUtil {
    /// Signs an auth token issued at `now`: claims `{iss, exp: now +
    /// duration, email}` under the private key.
    pub fn sign_auth_token_at(&self, email: &str, now: i64) -> (r: Result<String, CryptoError>)
        requires
            i64::MIN <= now + self.expiry_duration_millis <= i64::MAX,
        ensures
            r matches Ok(t) ==> auth_claims_of(t@) == Some(
                (self.issuer@, now + self.expiry_duration_millis, email@),
            ),
            r matches Ok(t) ==> forall|pub_pem: Seq<u8>|
                #[trigger] rsa_keypair_ok(self.secrets.key_pem_data@, pub_pem) ==> rsa_sig_ok(
                    pub_pem,
                    t@,
                ),
            r is Err ==> r == Err::<String, CryptoError>(CryptoError::SigningError),
    {
        let exp = now + self.expiry_duration_millis;
        match sign_auth_raw(
            self.secrets.key_pem_data.as_slice(),
            self.issuer.as_str(),
            exp,
            email,
        ) {
            Some(t) => Ok(t),
            None => Err(CryptoError::SigningError),
        }
    }

    /// Signs an auth token expiring one duration from the present moment.
    pub fn sign_auth_token(&self, email: &str) -> (r: Result<String, CryptoError>)
        ensures
            r matches Ok(t) ==> (auth_claims_of(t@) matches Some((iss, exp, em)) && iss
                == self.issuer@ && em == email@),
            r matches Ok(t) ==> forall|pub_pem: Seq<u8>|
                #[trigger] rsa_keypair_ok(self.secrets.key_pem_data@, pub_pem) ==> rsa_sig_ok(
                    pub_pem,
                    t@,
                ),
            r is Err ==> r == Err::<String, CryptoError>(CryptoError::SigningError),
    {
        let now = crate::primitives::now_timestamp();
        let dur = self.expiry_duration_millis;
        if dur >= 0 {
            if now > i64::MAX - dur {
                return Err(CryptoError::SigningError);
            }
        } else {
            if now < i64::MIN - dur {
                return Err(CryptoError::SigningError);
            }
        }
        self.sign_auth_token_at(email, now)
    }

    /// Verifies an auth token at time `now` against an expected email:
    /// signature, issuer, freshness and exact email equality, in that order.
    pub fn verify_auth_token_at(&self, token_str: &str, email: &str, now: i64) -> (r: Result<
        AuthClaims,
        CryptoError,
    >)
        ensures
            r matches Ok(c) ==> auth_verify_model(
                self.secrets.pub_key_pem_data@,
                self.issuer@,
                email@,
                now as int,
                token_str@,
            ) == Ok::<(Seq<char>, int, Seq<char>), CryptoError>((c.issuer@, c.expiry as int, c.email@)),
            r matches Err(e) ==> auth_verify_model(
                self.secrets.pub_key_pem_data@,
                self.issuer@,
                email@,
                now as int,
                token_str@,
            ) == Err::<(Seq<char>, int, Seq<char>), CryptoError>(e),
    {
        let parsed = decode_auth_claims(token_str);
        match parsed {
            None => Err(CryptoError::VerificationError(VerifyFailure::MalformedToken)),
            Some((iss, exp, em)) => {
                if !check_signature(self.secrets.pub_key_pem_data.as_slice(), token_str) {
                    return Err(CryptoError::VerificationError(VerifyFailure::BadSignature));
                }
                if !iss.eq(&self.issuer) {
                    return Err(CryptoError::VerificationError(VerifyFailure::IssuerMismatch));
                }
                if exp <= now {
                    return Err(CryptoError::VerificationError(VerifyFailure::Expired));
                }
                let expected = email.to_owned();
                if !em.eq(&expected) {
                    return Err(CryptoError::VerificationError(VerifyFailure::ClaimMismatch));
                }
                Ok(AuthClaims { issuer: iss, expiry: exp, email: em })
            },
        }
    }

    /// Verifies an auth token against an expected email at the present
    /// moment.
    pub fn verify_auth_token(&self, token_str: &str, email: &str) -> (r: Result<
        AuthClaims,
        CryptoError,
    >)
        ensures
            r matches Ok(c) ==> {
                &&& auth_claims_of(token_str@) == Some(
                    (c.issuer@, c.expiry as int, c.email@),
                )
                &&& rsa_sig_ok(self.secrets.pub_key_pem_data@, token_str@)
                &&& c.issuer@ == self.issuer@
                &&& c.email@ == email@
            },
            auth_claims_of(token_str@) is None ==> r == Err::<AuthClaims, CryptoError>(
                CryptoError::VerificationError(VerifyFailure::MalformedToken),
            ),
            auth_claims_of(token_str@) is Some && !rsa_sig_ok(
                self.secrets.pub_key_pem_data@,
                token_str@,
            ) ==> r == Err::<AuthClaims, CryptoError>(
                CryptoError::VerificationError(VerifyFailure::BadSignature),
            ),
            auth_claims_of(token_str@) matches Some((iss, exp, em)) && rsa_sig_ok(
                self.secrets.pub_key_pem_data@,
                token_str@,
            ) && iss != self.issuer@ ==> r == Err::<AuthClaims, CryptoError>(
                CryptoError::VerificationError(VerifyFailure::IssuerMismatch),
            ),
            auth_claims_of(token_str@) matches Some((iss, exp, em)) && rsa_sig_ok(
                self.secrets.pub_key_pem_data@,
                token_str@,
            ) && iss == self.issuer@ && em != email@ ==> r is Err,
            r matches Err(e) ==> e matches CryptoError::VerificationError(_),
    {
        let now = crate::primitives::now_timestamp();
        self.verify_auth_token_at(token_str, email, now)
    }

    /// Verifies a CSRF token at time `now` against the expected encoded
    /// session-id hash: signature, issuer, freshness and exact `sid`
    /// equality, in that order.
    pub fn verify_csrf_token_at(&self, token_str: &str, expected_sid: &str, now: i64) -> (r: Result<
        CsrfClaims,
        CryptoError,
    >)
        ensures
            r matches Ok(c) ==> csrf_verify_model(
                self.secrets.pub_key_pem_data@,
                self.issuer@,
                expected_sid@,
                now as int,
                token_str@,
            ) == Ok::<(Seq<char>, int, Seq<char>, Seq<char>), CryptoError>(
                (c.issuer@, c.expiry as int, c.sid@, c.sealed_keyring@),
            ),
            r matches Err(e) ==> csrf_verify_model(
                self.secrets.pub_key_pem_data@,
                self.issuer@,
                expected_sid@,
                now as int,
                token_str@,
            ) == Err::<(Seq<char>, int, Seq<char>, Seq<char>), CryptoError>(e),
    {
        let parsed = decode_csrf_claims(token_str);
        match parsed {
            None => Err(CryptoError::VerificationError(VerifyFailure::MalformedToken)),
            Some((iss, exp, sid, sealed)) => {
                if !check_signature(self.secrets.pub_key_pem_data.as_slice(), token_str) {
                    return Err(CryptoError::VerificationError(VerifyFailure::BadSignature));
                }
                if !iss.eq(&self.issuer) {
                    return Err(CryptoError::VerificationError(VerifyFailure::IssuerMismatch));
                }
                if exp <= now {
                    return Err(CryptoError::VerificationError(VerifyFailure::Expired));
                }
                let expected = expected_sid.to_owned();
                if !sid.eq(&expected) {
                    return Err(CryptoError::VerificationError(VerifyFailure::ClaimMismatch));
                }
                Ok(CsrfClaims { issuer: iss, expiry: exp, sid, sealed_keyring: sealed })
            },
        }
    }

    /// Signs a CSRF token issued at `now` for a session: the claims bind the
    /// issuer, the expiry `now + duration`, the encoded hash of the session
    /// id, and the keyring sealed under the secret derived from that same
    /// session id, so the token alone, plus knowledge of the session id,
    /// reconstructs the session's key material.
    pub fn sign_csrf_token_at(&self, session_id: &str, keyring: &SharedKeyring, now: i64) -> (r:
        Result<String, CryptoError>)
        requires
            keyring.sealable(),
            i64::MIN <= now + self.expiry_duration_millis <= i64::MAX,
        ensures
            r matches Ok(t) ==> exists|sid: Seq<char>, sealed: Seq<char>|
                #[trigger] csrf_claims_of(t@) == Some(
                    (self.issuer@, now + self.expiry_duration_millis, sid, sealed),
                ) && {
                    &&& vstd::utf8::encode_utf8(sid) == sealing::hashed_sid_bytes(session_id@)
                    &&& emoji::is_emoji_encoding(vstd::utf8::encode_utf8(sealed))
                    &&& aead_open_of(
                        sealing::session_secret_model(session_id@),
                        emoji::emoji_decoded(vstd::utf8::encode_utf8(sealed)),
                    ) == Some(
                        sealing::keyring_bytes(
                            keyring.user@,
                            keyring.key@,
                            keyring.static_key@,
                            keyring.static_salt@,
                        ),
                    )
                },
            r matches Ok(t) ==> forall|pub_pem: Seq<u8>|
                #[trigger] rsa_keypair_ok(self.secrets.key_pem_data@, pub_pem) ==> rsa_sig_ok(
                    pub_pem,
                    t@,
                ),
            r matches Err(e) ==> e == CryptoError::SigningError || e == CryptoError::UnsealError,
    {
        let (sid, secret) = sealing::session_binding(session_id);
        let sealed_ct = match sealing::seal(keyring, secret.as_slice()) {
            Ok(c) => c,
            Err(e) => { return Err(e) },
        };
        let sealed_str = emoji::encode(sealed_ct.as_slice());
        let exp = now + self.expiry_duration_millis;
        match sign_csrf_raw(
            self.secrets.key_pem_data.as_slice(),
            self.issuer.as_str(),
            exp,
            sid.as_str(),
            sealed_str.as_str(),
        ) {
            Some(t) => {
                proof {
                    emoji::lemma_emoji_bytes_is_encoding(sealed_ct@);
                    emoji::lemma_emoji_decoded_of_encoded(sealed_ct@);
                    assert(csrf_claims_of(t@) == Some(
                        (self.issuer@, exp as int, sid@, sealed_str@),
                    ));
                }
                Ok(t)
            },
            None => Err(CryptoError::SigningError),
        }
    }

    /// Signs a CSRF token expiring one duration from the present moment.
    pub fn sign_csrf_token(&self, session_id: &str, keyring: &SharedKeyring) -> (r: Result<
        String,
        CryptoError,
    >)
        requires
            keyring.sealable(),
        ensures
            r matches Ok(t) ==> exists|sid: Seq<char>, sealed: Seq<char>, exp: int|
                #[trigger] csrf_claims_of(t@) == Some((self.issuer@, exp, sid, sealed)) && {
                    &&& vstd::utf8::encode_utf8(sid) == sealing::hashed_sid_bytes(session_id@)
                    &&& emoji::is_emoji_encoding(vstd::utf8::encode_utf8(sealed))
                    &&& aead_open_of(
                        sealing::session_secret_model(session_id@),
                        emoji::emoji_decoded(vstd::utf8::encode_utf8(sealed)),
                    ) == Some(
                        sealing::keyring_bytes(
                            keyring.user@,
                            keyring.key@,
                            keyring.static_key@,
                            keyring.static_salt@,
                        ),
                    )
                },
            r matches Ok(t) ==> forall|pub_pem: Seq<u8>|
                #[trigger] rsa_keypair_ok(self.secrets.key_pem_data@, pub_pem) ==> rsa_sig_ok(
                    pub_pem,
                    t@,
                ),
            r matches Err(e) ==> e == CryptoError::SigningError || e == CryptoError::UnsealError,
    {
        let now = crate::primitives::now_timestamp();
        let dur = self.expiry_duration_millis;
        if dur >= 0 {
            if now > i64::MAX - dur {
                return Err(CryptoError::SigningError);
            }
        } else {
            if now < i64::MIN - dur {
                return Err(CryptoError::SigningError);
            }
        }
        self.sign_csrf_token_at(session_id, keyring, now)
    }

    /// Verifies a CSRF header value at the present moment: decrypts it as a
    /// base64-carried envelope from this session, then verifies the token
    /// inside against the encoded hash of the given session id. The
    /// envelope's failure, its kind, and a non-text payload are each pinned;
    /// past them every rejection is a `VerificationError`, decided by the
    /// token's claims against the clock.
    pub fn verify_csrf_token(
        &self,
        csrf_header_string: &str,
        session_id: &str,
        keyring: &SharedKeyring,
    ) -> (r: Result<CsrfClaims, CryptoError>)
        requires
            keyring.wf(),
        ensures
            r matches Ok(c) ==> exists|t: Seq<char>|
                #[trigger] decrypt_base64_model(keyring.user@, csrf_header_string@, keyring.user@, keyring.key@)
                    == Ok::<Seq<u8>, CryptoError>(vstd::utf8::encode_utf8(t)) && {
                    &&& csrf_claims_of(t) == Some(
                        (c.issuer@, c.expiry as int, c.sid@, c.sealed_keyring@),
                    )
                    &&& rsa_sig_ok(self.secrets.pub_key_pem_data@, t)
                    &&& c.issuer@ == self.issuer@
                    &&& vstd::utf8::encode_utf8(c.sid@) == sealing::hashed_sid_bytes(session_id@)
                },
            decrypt_base64_model(keyring.user@, csrf_header_string@, keyring.user@, keyring.key@)
                matches Err(e0) ==> r == Err::<CsrfClaims, CryptoError>(e0),
            decrypt_base64_model(keyring.user@, csrf_header_string@, keyring.user@, keyring.key@)
                matches Ok(b) && !vstd::utf8::valid_utf8(b) ==> r == Err::<CsrfClaims, CryptoError>(
                CryptoError::DecodeError,
            ),
            decrypt_base64_model(keyring.user@, csrf_header_string@, keyring.user@, keyring.key@)
                matches Ok(b) && vstd::utf8::valid_utf8(b) ==> (r matches Err(e)
                ==> e matches CryptoError::VerificationError(_)),
            decrypt_base64_model(keyring.user@, csrf_header_string@, keyring.user@, keyring.key@)
                matches Ok(b) && vstd::utf8::valid_utf8(b) && csrf_claims_of(
                vstd::utf8::decode_utf8(b),
            ) is None ==> r == Err::<CsrfClaims, CryptoError>(
                CryptoError::VerificationError(VerifyFailure::MalformedToken),
            ),
            decrypt_base64_model(keyring.user@, csrf_header_string@, keyring.user@, keyring.key@)
                matches Ok(b) && vstd::utf8::valid_utf8(b) && csrf_claims_of(
                vstd::utf8::decode_utf8(b),
            ) is Some && !rsa_sig_ok(self.secrets.pub_key_pem_data@, vstd::utf8::decode_utf8(b))
                ==> r == Err::<CsrfClaims, CryptoError>(
                CryptoError::VerificationError(VerifyFailure::BadSignature),
            ),
            decrypt_base64_model(keyring.user@, csrf_header_string@, keyring.user@, keyring.key@)
                matches Ok(b) && vstd::utf8::valid_utf8(b) && (csrf_claims_of(
                vstd::utf8::decode_utf8(b),
            ) matches Some((iss, exp, sid, sealed)) && rsa_sig_ok(
                self.secrets.pub_key_pem_data@,
                vstd::utf8::decode_utf8(b),
            ) && iss != self.issuer@) ==> r == Err::<CsrfClaims, CryptoError>(
                CryptoError::VerificationError(VerifyFailure::IssuerMismatch),
            ),
            r matches Err(e) ==> e == CryptoError::DecodeError || e == CryptoError::DecryptionError
                || e matches CryptoError::VerificationError(_),
    {
        let envelope = EnvelopeMessage {
            sender: keyring.user.clone(),
            message: csrf_header_string.to_owned(),
        };
        let token_bytes = match envelope.decrypt_base64(keyring) {
            Ok(b) => b,
            Err(e) => { return Err(e) },
        };
        let token = match try_utf8_to_string(token_bytes) {
            None => { return Err(CryptoError::DecodeError) },
            Some(t) => t,
        };
        let (sid_expected, _secret) = sealing::session_binding(session_id);
        let now = crate::primitives::now_timestamp();
        let result = self.verify_csrf_token_at(token.as_str(), sid_expected.as_str(), now);
        proof {
            vstd::utf8::encode_utf8_decode_utf8(token@);
        }
        proof {
            let model = csrf_verify_model(
                self.secrets.pub_key_pem_data@,
                self.issuer@,
                sid_expected@,
                now as int,
                token@,
            );
            if result is Ok {
                assert(decrypt_base64_model(
                    keyring.user@,
                    csrf_header_string@,
                    keyring.user@,
                    keyring.key@,
                ) == Ok::<Seq<u8>, CryptoError>(vstd::utf8::encode_utf8(token@)));
            } else {
                assert(model == Err::<(Seq<char>, int, Seq<char>, Seq<char>), CryptoError>(
                    result->Err_0,
                ));
                assert(result->Err_0 matches CryptoError::VerificationError(_));
            }
        }
        result
    }

    /// The public key as emoji text, for clients that verify tokens on their
    /// own.
    pub fn encode_pubkey(&self) -> (r: String)
        ensures
            vstd::utf8::encode_utf8(r@) == emoji::emoji_bytes(self.secrets.pub_key_pem_data@),
    {
        emoji::encode(self.secrets.pub_key_pem_data.as_slice())
    }
}

/// Bound-claim rejection: an auth token whose claims carry email `e`, when
/// verified against a different expected email, fails with the
/// claim-mismatch kind even though signature, issuer and freshness all hold.
pub proof fn lemma_auth_email_mismatch_rejected(
    pub_pem: Seq<u8>,
    issuer: Seq<char>,
    expected_email: Seq<char>,
    now: int,
    token: Seq<char>,
    exp: int,
    email: Seq<char>,
)
    requires
        auth_claims_of(token) == Some((issuer, exp, email)),
        rsa_sig_ok(pub_pem, token),
        exp > now,
        email != expected_email,
    ensures
        auth_verify_model(pub_pem, issuer, expected_email, now, token) == Err::<
            (Seq<char>, int, Seq<char>),
            CryptoError,
        >(CryptoError::VerificationError(VerifyFailure::ClaimMismatch)),
{
}

/// Expiry rejection: an auth token whose expiry lies at or before the given
/// time is refused whatever its signature, issuer or bound email.
pub proof fn lemma_auth_expired_rejected(
    pub_pem: Seq<u8>,
    issuer: Seq<char>,
    expected_email: Seq<char>,
    now: int,
    token: Seq<char>,
    iss: Seq<char>,
    exp: int,
    email: Seq<char>,
)
    requires
        auth_claims_of(token) == Some((iss, exp, email)),
        exp <= now,
    ensures
        auth_verify_model(pub_pem, issuer, expected_email, now, token) is Err,
{
}

/// Bound-claim rejection for CSRF tokens: one whose `sid` claim carries the
/// hash of a different session id fails with the claim-mismatch kind even
/// though signature, issuer and freshness all hold.
pub proof fn lemma_csrf_sid_mismatch_rejected(
    pub_pem: Seq<u8>,
    issuer: Seq<char>,
    expected_sid: Seq<char>,
    now: int,
    token: Seq<char>,
    exp: int,
    sid: Seq<char>,
    sealed: Seq<char>,
)
    requires
        csrf_claims_of(token) == Some((issuer, exp, sid, sealed)),
        rsa_sig_ok(pub_pem, token),
        exp > now,
        sid != expected_sid,
    ensures
        csrf_verify_model(pub_pem, issuer, expected_sid, now, token) == Err::<
            (Seq<char>, int, Seq<char>, Seq<char>),
            CryptoError,
        >(CryptoError::VerificationError(VerifyFailure::ClaimMismatch)),
{
}

/// Sign-then-verify round trip for CSRF tokens: a token whose claims carry
/// the encoded hash of a session id — what signing for that session ensures —
/// is accepted before its expiry when verified against an expected value
/// derived from the same session id, with the claims returned as signed.
pub proof fn lemma_csrf_same_session_accepted(
    pub_pem: Seq<u8>,
    issuer: Seq<char>,
    session_id: Seq<char>,
    expected_sid: Seq<char>,
    now: int,
    token: Seq<char>,
    exp: int,
    sid: Seq<char>,
    sealed: Seq<char>,
)
    requires
        csrf_claims_of(token) == Some((issuer, exp, sid, sealed)),
        rsa_sig_ok(pub_pem, token),
        exp > now,
        vstd::utf8::encode_utf8(sid) == sealing::hashed_sid_bytes(session_id),
        vstd::utf8::encode_utf8(expected_sid) == sealing::hashed_sid_bytes(session_id),
    ensures
        csrf_verify_model(pub_pem, issuer, expected_sid, now, token) == Ok::<
            (Seq<char>, int, Seq<char>, Seq<char>),
            CryptoError,
        >((issuer, exp, sid, sealed)),
{
    vstd::utf8::encode_utf8_decode_utf8(sid);
    vstd::utf8::encode_utf8_decode_utf8(expected_sid);
    assert(sid == expected_sid);
}

/// A CSRF token bound to one session id is rejected, at every time, when
/// verified against another session id whose hash differs — the
/// overwhelming-probability step that no contract can discharge stands as
/// the hypothesis: the two wide hashes are unequal.
pub proof fn lemma_csrf_other_session_rejected(
    pub_pem: Seq<u8>,
    issuer: Seq<char>,
    session_id_signed: Seq<char>,
    session_id_checked: Seq<char>,
    expected_sid: Seq<char>,
    now: int,
    token: Seq<char>,
    exp: int,
    sid: Seq<char>,
    sealed: Seq<char>,
)
    requires
        csrf_claims_of(token) == Some((issuer, exp, sid, sealed)),
        vstd::utf8::encode_utf8(sid) == sealing::hashed_sid_bytes(session_id_signed),
        vstd::utf8::encode_utf8(expected_sid) == sealing::hashed_sid_bytes(session_id_checked),
        blake2b512_of(vstd::utf8::encode_utf8(session_id_signed)) != blake2b512_of(
            vstd::utf8::encode_utf8(session_id_checked),
        ),
    ensures
        csrf_verify_model(pub_pem, issuer, expected_sid, now, token) is Err,
{
    let h1 = blake2b512_of(vstd::utf8::encode_utf8(session_id_signed));
    let h2 = blake2b512_of(vstd::utf8::encode_utf8(session_id_checked));
    if sid == expected_sid {
        assert(emoji::emoji_bytes(h1) == emoji::emoji_bytes(h2));
        emoji::lemma_emoji_decoded_of_encoded(h1);
        emoji::lemma_emoji_decoded_of_encoded(h2);
        assert(false);
    }
}

/// Expiry rejection for CSRF tokens: one past its expiry is refused whatever
/// its signature, issuer or bound session hash.
pub proof fn lemma_csrf_expired_rejected(
    pub_pem: Seq<u8>,
    issuer: Seq<char>,
    expected_sid: Seq<char>,
    now: int,
    token: Seq<char>,
    iss: Seq<char>,
    exp: int,
    sid: Seq<char>,
    sealed: Seq<char>,
)
    requires
        csrf_claims_of(token) == Some((iss, exp, sid, sealed)),
        exp <= now,
    ensures
        csrf_verify_model(pub_pem, issuer, expected_sid, now, token) is Err,
{
}

} // verus!

use envelope_auth::envelope::SharedKeyring;
use envelope_auth::errors::CryptoError;
use envelope_auth::sealing::{seal, session_binding, unseal};

fn test_keyring() -> SharedKeyring {
    SharedKeyring {
        user: "session-user-1".to_string(),
        key: vec![9u8; 32],
        static_key: b"static-key".to_vec(),
        static_salt: b"static-salt".to_vec(),
    }
}

#[test]
fn seal_then_unseal_returns_the_original_keyring() {
    let keyring = test_keyring();
    let (_sid, secret) = session_binding("abc123");
    let sealed = seal(&keyring, &secret).unwrap();
    let back = unseal(&sealed, &secret).unwrap();
    assert_eq!(back.user, keyring.user);
    assert_eq!(back.key, keyring.key);
    assert_eq!(back.static_key, keyring.static_key);
    assert_eq!(back.static_salt, keyring.static_salt);
}

#[test]
fn distinct_session_ids_derive_distinct_secrets() {
    let (sid1, secret1) = session_binding("abc123");
    let (sid2, secret2) = session_binding("xyz789");
    assert_ne!(secret1, secret2);
    assert_ne!(sid1, sid2);
}

#[test]
fn derivation_is_stable_across_calls() {
    let (sid1, secret1) = session_binding("abc123");
    let (sid2, secret2) = session_binding("abc123");
    assert_eq!(sid1, sid2);
    assert_eq!(secret1, secret2);
}

#[test]
fn unseal_under_the_wrong_secret_fails() {
    let keyring = test_keyring();
    let (_sid, secret) = session_binding("abc123");
    let (_sid2, wrong) = session_binding("xyz789");
    let sealed = seal(&keyring, &secret).unwrap();
    assert!(matches!(unseal(&sealed, &wrong), Err(CryptoError::UnsealError)));
}

#[test]
fn unseal_of_garbage_fails() {
    let (_sid, secret) = session_binding("abc123");
    assert!(matches!(
        unseal(b"not a sealed keyring at all, far too short or wrong", &secret),
        Err(CryptoError::UnsealError)
    ));
}

#[test]
fn sealed_bytes_hide_the_key_material() {
    let keyring = test_keyring();
    let (_sid, secret) = session_binding("abc123");
    let sealed = seal(&keyring, &secret).unwrap();
    let key = keyring.key.as_slice();
    assert!(!sealed.windows(key.len()).any(|w| w == key));
}

#[test]
fn derived_values_are_not_the_session_id_itself() {
    let (sid, secret) = session_binding("abc123");
    assert_ne!(sid.as_bytes(), b"abc123");
    assert_ne!(secret.as_slice(), b"abc123");
    assert_eq!(secret.len(), 32);
}

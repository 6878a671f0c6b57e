use envelope_auth::envelope::{encrypt, encrypt_broadcast, EnvelopeMessage, SharedKeyring};
use envelope_auth::errors::CryptoError;

fn test_keyring() -> SharedKeyring {
    SharedKeyring {
        user: "session-user-1".to_string(),
        key: vec![7u8; 32],
        static_key: b"static-key".to_vec(),
        static_salt: b"static-salt".to_vec(),
    }
}

#[test]
fn round_trips_with_matching_sender() {
    let keyring = test_keyring();
    let plaintext = b"user@example.com".to_vec();
    let env = encrypt(&keyring, keyring.user.clone(), &plaintext).unwrap();
    assert_eq!(env.sender, keyring.user);
    let back = env.decrypt(&keyring).unwrap();
    assert_eq!(back, plaintext);
}

#[test]
fn broadcast_round_trips_whole_body() {
    let keyring = test_keyring();
    let body = b"<html><body>login page</body></html>".to_vec();
    let env = encrypt_broadcast(&keyring, &body).unwrap();
    assert_eq!(env.sender, keyring.user);
    assert_eq!(env.decrypt(&keyring).unwrap(), body);
}

#[test]
fn fresh_randomness_gives_unequal_ciphertexts() {
    let keyring = test_keyring();
    let plaintext = b"same plaintext".to_vec();
    let a = encrypt_broadcast(&keyring, &plaintext).unwrap();
    let b = encrypt_broadcast(&keyring, &plaintext).unwrap();
    assert_ne!(a.message, b.message);
}

#[test]
fn mismatched_sender_is_rejected_outright() {
    let keyring = test_keyring();
    let env = encrypt(&keyring, "someone-else".to_string(), b"payload".as_slice()).unwrap();
    assert_eq!(env.decrypt(&keyring), Err(CryptoError::SenderMismatch));
}

#[test]
fn mismatched_sender_wins_even_over_garbage_text() {
    let keyring = test_keyring();
    let env = EnvelopeMessage {
        sender: "someone-else".to_string(),
        message: "not even emoji".to_string(),
    };
    assert_eq!(env.decrypt(&keyring), Err(CryptoError::SenderMismatch));
}

#[test]
fn malformed_message_text_is_a_decode_error() {
    let keyring = test_keyring();
    let env = EnvelopeMessage {
        sender: keyring.user.clone(),
        message: "not emoji at all".to_string(),
    };
    assert_eq!(env.decrypt(&keyring), Err(CryptoError::DecodeError));
}

#[test]
fn wrong_key_fails_authentication() {
    let keyring = test_keyring();
    let env = encrypt_broadcast(&keyring, b"payload".as_slice()).unwrap();
    let other = SharedKeyring {
        key: vec![8u8; 32],
        ..test_keyring()
    };
    assert_eq!(env.decrypt(&other), Err(CryptoError::DecryptionError));
}

#[test]
fn ciphertext_differs_from_plaintext() {
    let keyring = test_keyring();
    let plaintext = b"visible text".to_vec();
    let env = encrypt_broadcast(&keyring, &plaintext).unwrap();
    assert!(!env.message.as_bytes().windows(plaintext.len()).any(|w| w == plaintext.as_slice()));
}

#[test]
fn base64_envelope_round_trips() {
    let keyring = test_keyring();
    let plaintext = b"csrf token text".to_vec();
    let env = envelope_auth::envelope::encrypt_broadcast_base64(&keyring, &plaintext).unwrap();
    assert_eq!(env.decrypt_base64(&keyring).unwrap(), plaintext);
    for c in env.message.chars() {
        assert!(c.is_ascii());
    }
}

#[test]
fn base64_envelope_rejects_a_mismatched_sender() {
    let keyring = test_keyring();
    let mut env =
        envelope_auth::envelope::encrypt_broadcast_base64(&keyring, b"payload".as_slice()).unwrap();
    env.sender = "someone-else".to_string();
    assert_eq!(env.decrypt_base64(&keyring), Err(CryptoError::SenderMismatch));
}

use envelope_auth::emoji;
use envelope_auth::envelope::{encrypt, SharedKeyring};
use envelope_auth::login::{authenticate, decrypt_credentials, UserRecord};

fn test_keyring() -> SharedKeyring {
    SharedKeyring {
        user: "session-user-1".to_string(),
        key: vec![3u8; 32],
        static_key: b"config-static-key".to_vec(),
        static_salt: b"config-static-salt".to_vec(),
    }
}

fn stored_record(email: &str, password: &str, keyring: &SharedKeyring) -> UserRecord {
    let email_hash = envelope_auth::deterministic::deterministic_encrypt(
        &keyring.static_key,
        &keyring.static_salt,
        email.as_bytes(),
    )
    .unwrap();
    let pw = orion::pwhash::Password::try_from(password.as_bytes()).unwrap();
    let hash = orion::pwhash::hash_password(&pw, &orion::pwhash::OWASP_ARGON2ID_2ND).unwrap();
    let hash_text: &str = hash.unprotected_as_ref();
    UserRecord {
        email_hash,
        password: emoji::encode(hash_text.as_bytes()),
    }
}

#[test]
fn matching_email_and_password_authenticate() {
    let keyring = test_keyring();
    let record = stored_record("user@example.com", "correct", &keyring);
    let session_user = authenticate(
        Some(&record),
        &"user@example.com".to_string(),
        &"correct".to_string(),
        &keyring.static_key,
        &keyring.static_salt,
        &"root@example.com".to_string(),
    )
    .unwrap();
    assert_eq!(session_user.email, "user@example.com");
    assert!(!session_user.is_admin);
}

#[test]
fn wrong_password_is_rejected() {
    let keyring = test_keyring();
    let record = stored_record("user@example.com", "correct", &keyring);
    let res = authenticate(
        Some(&record),
        &"user@example.com".to_string(),
        &"wrong".to_string(),
        &keyring.static_key,
        &keyring.static_salt,
        &"root@example.com".to_string(),
    );
    assert!(res.is_none());
}

#[test]
fn unknown_email_is_rejected_the_same_way() {
    let keyring = test_keyring();
    let wrong_password = authenticate(
        Some(&stored_record("user@example.com", "correct", &keyring)),
        &"user@example.com".to_string(),
        &"wrong".to_string(),
        &keyring.static_key,
        &keyring.static_salt,
        &"root@example.com".to_string(),
    );
    let no_record = authenticate(
        None,
        &"user@example.com".to_string(),
        &"correct".to_string(),
        &keyring.static_key,
        &keyring.static_salt,
        &"root@example.com".to_string(),
    );
    assert!(wrong_password.is_none());
    assert!(no_record.is_none());
    assert_eq!(wrong_password.is_none(), no_record.is_none());
}

#[test]
fn mismatched_email_index_is_rejected() {
    let keyring = test_keyring();
    let record = stored_record("user@example.com", "correct", &keyring);
    let res = authenticate(
        Some(&record),
        &"other@example.com".to_string(),
        &"correct".to_string(),
        &keyring.static_key,
        &keyring.static_salt,
        &"root@example.com".to_string(),
    );
    assert!(res.is_none());
}

#[test]
fn super_user_email_gets_the_admin_flag() {
    let keyring = test_keyring();
    let record = stored_record("root@example.com", "correct", &keyring);
    let session_user = authenticate(
        Some(&record),
        &"root@example.com".to_string(),
        &"correct".to_string(),
        &keyring.static_key,
        &keyring.static_salt,
        &"root@example.com".to_string(),
    )
    .unwrap();
    assert!(session_user.is_admin);
}

#[test]
fn full_login_pipeline_decrypts_and_authenticates() {
    let keyring = test_keyring();
    let record = stored_record("user@example.com", "correct", &keyring);

    // The client submits envelope-encrypted form fields.
    let email_env = encrypt(&keyring, keyring.user.clone(), b"user@example.com").unwrap();
    let password_env = encrypt(&keyring, keyring.user.clone(), b"correct").unwrap();

    let (email, password) =
        decrypt_credentials(&keyring, &email_env.message, &password_env.message).unwrap();
    assert_eq!(email, "user@example.com");
    assert_eq!(password, "correct");

    let session_user = authenticate(
        Some(&record),
        &email,
        &password,
        &keyring.static_key,
        &keyring.static_salt,
        &"root@example.com".to_string(),
    )
    .unwrap();
    assert_eq!(session_user.email, "user@example.com");
    assert!(!session_user.is_admin);
}

#[test]
fn tampered_credential_envelope_is_rejected() {
    let keyring = test_keyring();
    let email_env = encrypt(&keyring, keyring.user.clone(), b"user@example.com").unwrap();
    let res = decrypt_credentials(&keyring, &email_env.message, "not emoji");
    assert!(res.is_err());
}

use envelope_auth::deterministic::deterministic_encrypt;
use envelope_auth::errors::CryptoError;

#[test]
fn equal_inputs_give_equal_ciphertext_across_calls() {
    let a = deterministic_encrypt(b"key", b"salt", b"user@example.com").unwrap();
    let b = deterministic_encrypt(b"key", b"salt", b"user@example.com").unwrap();
    assert_eq!(a, b);
}

#[test]
fn different_plaintexts_give_different_ciphertext() {
    let a = deterministic_encrypt(b"key", b"salt", b"user@example.com").unwrap();
    let b = deterministic_encrypt(b"key", b"salt", b"other@example.com").unwrap();
    assert_ne!(a, b);
}

#[test]
fn different_key_material_gives_different_ciphertext() {
    let a = deterministic_encrypt(b"key", b"salt", b"user@example.com").unwrap();
    let b = deterministic_encrypt(b"key2", b"salt", b"user@example.com").unwrap();
    let c = deterministic_encrypt(b"key", b"salt2", b"user@example.com").unwrap();
    assert_ne!(a, b);
    assert_ne!(a, c);
}

#[test]
fn empty_key_is_invalid_key_material() {
    assert_eq!(
        deterministic_encrypt(b"", b"salt", b"p"),
        Err(CryptoError::InvalidKeyMaterial)
    );
}

#[test]
fn empty_salt_is_invalid_key_material() {
    assert_eq!(
        deterministic_encrypt(b"key", b"", b"p"),
        Err(CryptoError::InvalidKeyMaterial)
    );
}

#[test]
fn matches_the_wide_hash_of_key_salt_and_plaintext() {
    // Key, salt and plaintext run together spell "abc"; the result is the
    // published BLAKE2b-512 digest of "abc".
    let expected_hex = "ba80a53f981c4d0d6a2797b69f12f6e9\
                        4c212f14685ac4b74b12bb6fdbffa2d1\
                        7d87c5392aab792dc252d5de4533cc95\
                        18d38aa8dbf1925ab92386edd4009923";
    let out = deterministic_encrypt(b"a", b"b", b"c").unwrap();
    let hex: String = out.iter().map(|b| format!("{:02x}", b)).collect();
    assert_eq!(hex, expected_hex);
}

#[test]
fn ciphertext_is_not_the_plaintext() {
    let plaintext = b"user@example.com";
    let out = deterministic_encrypt(b"key", b"salt", plaintext).unwrap();
    assert_eq!(out.len(), 64);
    assert_ne!(out.as_slice(), plaintext.as_slice());
}

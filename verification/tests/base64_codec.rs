use envelope_auth::base64;
use envelope_auth::errors::CryptoError;

#[test]
fn round_trips_each_remainder_length() {
    for payload in [
        b"".to_vec(),
        b"f".to_vec(),
        b"fo".to_vec(),
        b"foo".to_vec(),
        b"foob".to_vec(),
        b"fooba".to_vec(),
        b"foobar".to_vec(),
    ] {
        let text = base64::encode(&payload);
        let back = base64::decode(&text).unwrap();
        assert_eq!(back, payload);
    }
}

#[test]
fn encodes_the_published_vectors() {
    assert_eq!(base64::encode(b""), "");
    assert_eq!(base64::encode(b"f"), "Zg==");
    assert_eq!(base64::encode(b"fo"), "Zm8=");
    assert_eq!(base64::encode(b"foo"), "Zm9v");
    assert_eq!(base64::encode(b"foob"), "Zm9vYg==");
    assert_eq!(base64::encode(b"fooba"), "Zm9vYmE=");
    assert_eq!(base64::encode(b"foobar"), "Zm9vYmFy");
}

#[test]
fn round_trips_every_byte_value_in_base64() {
    let payload: Vec<u8> = (0u8..=255u8).collect();
    let text = base64::encode(&payload);
    let back = base64::decode(&text).unwrap();
    assert_eq!(back, payload);
}

#[test]
fn decode_rejects_ragged_length() {
    assert_eq!(base64::decode("Zm9"), Err(CryptoError::DecodeError));
}

#[test]
fn decode_rejects_symbols_outside_the_alphabet() {
    assert_eq!(base64::decode("Zm9%"), Err(CryptoError::DecodeError));
}

#[test]
fn decode_rejects_padding_in_the_middle() {
    assert_eq!(base64::decode("Zg==Zm9v"), Err(CryptoError::DecodeError));
}

#[test]
fn decode_rejects_noncanonical_padding_bits() {
    // 'h' carries spare bits under the padding that a canonical encoder
    // would have zeroed.
    assert_eq!(base64::decode("Zh=="), Err(CryptoError::DecodeError));
}

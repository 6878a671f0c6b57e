use envelope_auth::emoji;
use envelope_auth::errors::CryptoError;

#[test]
fn round_trips_simple_payload() {
    let payload: Vec<u8> = b"hello, envelope".to_vec();
    let text = emoji::encode(&payload);
    let back = emoji::decode(&text).unwrap();
    assert_eq!(back, payload);
}

#[test]
fn round_trips_every_byte_value() {
    let payload: Vec<u8> = (0u8..=255u8).collect();
    let text = emoji::encode(&payload);
    assert_eq!(text.chars().count(), 256);
    let back = emoji::decode(&text).unwrap();
    assert_eq!(back, payload);
}

#[test]
fn round_trips_empty_payload() {
    let text = emoji::encode(&[]);
    assert_eq!(text, "");
    let back = emoji::decode(&text).unwrap();
    assert!(back.is_empty());
}

#[test]
fn encoding_is_emoji_text_not_the_input() {
    let payload: Vec<u8> = b"abc".to_vec();
    let text = emoji::encode(&payload);
    assert_ne!(text.as_bytes(), payload.as_slice());
    assert_eq!(text.as_bytes().len(), 4 * payload.len());
    for c in text.chars() {
        let cp = c as u32;
        assert!((0x1F400..=0x1F4FF).contains(&cp));
    }
}

#[test]
fn decode_rejects_plain_text() {
    assert_eq!(emoji::decode("not emoji"), Err(CryptoError::DecodeError));
}

#[test]
fn decode_rejects_emoji_outside_the_alphabet() {
    // One scalar outside U+1F400..U+1F4FF, still four UTF-8 bytes long.
    assert_eq!(emoji::decode("\u{1F600}"), Err(CryptoError::DecodeError));
}

#[test]
fn decode_rejects_truncated_block() {
    let payload: Vec<u8> = b"xy".to_vec();
    let text = emoji::encode(&payload);
    let truncated: String = text.chars().take(1).collect::<String>() + "a";
    assert_eq!(emoji::decode(&truncated), Err(CryptoError::DecodeError));
}

#[test]
fn distinct_payloads_encode_differently() {
    let a = emoji::encode(&[0, 1, 2]);
    let b = emoji::encode(&[0, 1, 3]);
    assert_ne!(a, b);
}

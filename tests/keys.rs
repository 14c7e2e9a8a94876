use boringtun::keys::{KeyBytes, KeyBytesError};

fn seq_key() -> Vec<u8> {
    (0u8..32).collect()
}

#[test]
fn hex_key_reads_both_cases() {
    let text = "000102030405060708090a0b0c0d0e0f101112131415161718191A1B1C1D1E1F";
    let k = KeyBytes::from_string(text).unwrap();
    assert_eq!(k.raw_bytes(), seq_key());
}

#[test]
fn lower_hex_renders_two_digits_per_byte() {
    let k = KeyBytes::from_bytes(&seq_key()).unwrap();
    assert_eq!(
        k.to_lower_hex(),
        "000102030405060708090a0b0c0d0e0f101112131415161718191a1b1c1d1e1f"
    );
    let k = KeyBytes::from_bytes(&[0xffu8; 32]).unwrap();
    assert_eq!(k.to_lower_hex(), "f".repeat(64));
}

#[test]
fn base64_round_trip() {
    let k = KeyBytes::from_bytes(&[0u8; 32]).unwrap();
    assert_eq!(k.to_base64(), "AAAAAAAAAAAAAAAAAAAAAAAAAAAAAAAAAAAAAAAAAAA=");
    let k2 = KeyBytes::from_bytes(&seq_key()).unwrap();
    let text = k2.to_base64();
    assert_eq!(text, "AAECAwQFBgcICQoLDA0ODxAREhMUFRYXGBkaGxwdHh8=");
    assert_eq!(KeyBytes::from_string(&text).unwrap().raw_bytes(), seq_key());
}

#[test]
fn hex_with_bad_character_is_refused() {
    let mut text = "00".repeat(32);
    text.replace_range(10..11, "g");
    assert!(matches!(KeyBytes::from_string(&text), Err(KeyBytesError::IllegalCharacter)));
}

#[test]
fn base64_of_wrong_length_or_garbage_is_refused() {
    assert!(matches!(
        KeyBytes::from_string("!!!!!!!!!!!!!!!!!!!!!!!!!!!!!!!!!!!!!!!!!!!="),
        Err(KeyBytesError::IllegalCharacter)
    ));
}

#[test]
fn wrong_length_text_is_refused() {
    assert!(matches!(KeyBytes::from_string("abc"), Err(KeyBytesError::IllegalSize)));
    assert!(matches!(KeyBytes::from_string(""), Err(KeyBytesError::IllegalSize)));
}

#[test]
fn from_bytes_needs_thirty_two() {
    assert!(matches!(KeyBytes::from_bytes(&[1u8; 31]), Err(KeyBytesError::IllegalSize)));
    assert_eq!(KeyBytes::from_bytes(&[1u8; 32]).unwrap().raw_bytes(), vec![1u8; 32]);
}

#[test]
fn secret_is_random_and_sized() {
    let a = KeyBytes::secret().unwrap().raw_bytes();
    let b = KeyBytes::secret().unwrap().raw_bytes();
    assert_eq!(a.len(), 32);
    assert_ne!(a, b);
}

#[test]
fn error_messages() {
    assert_eq!(KeyBytesError::IllegalCharacter.message(), "Illegal character in key");
    assert_eq!(KeyBytesError::IllegalSize.message(), "Illegal key size");
}

#[test]
fn base64_must_be_padded_and_thirty_two_bytes() {
    let k = KeyBytes::from_bytes(&seq_key()).unwrap().to_base64();
    assert!(matches!(KeyBytes::from_string(&k[..43]), Err(KeyBytesError::IllegalCharacter)));
    // 44 characters that decode to 31 bytes
    let short = format!("{}AA==", "A".repeat(40));
    assert!(matches!(KeyBytes::from_string(&short), Err(KeyBytesError::IllegalCharacter)));
}

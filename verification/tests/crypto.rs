use base64::Engine;
use chacha20poly1305::aead::Aead;
use chacha20poly1305::KeyInit;
use risu::crypto::{
    decrypt, derive_key, derive_key_from_salt, encode_salt, encrypt, encrypt_with_nonce,
    generate_salt, key_from_hash, open_payload, payload_from_sealed, plaintext_from_opened,
    CryptoError, SecretKey, ARGON2_M_COST, ARGON2_P_COST, ARGON2_T_COST,
};

const ZERO_SALT: &str = "AAAAAAAAAAAAAAAAAAAAAA==";

fn key_of(fill: u8) -> [u8; 32] {
    [fill; 32]
}

fn b64(bytes: &[u8]) -> String {
    base64::engine::general_purpose::STANDARD.encode(bytes)
}

fn unb64(text: &str) -> Vec<u8> {
    base64::engine::general_purpose::STANDARD.decode(text).unwrap()
}

fn seal(key: &[u8; 32], nonce: &[u8; 12], plaintext: &[u8]) -> Vec<u8> {
    let cipher = chacha20poly1305::ChaCha20Poly1305::new(key.into());
    cipher.encrypt(chacha20poly1305::Nonce::from_slice(nonce), plaintext).unwrap()
}

#[test]
fn derive_key_matches_argon2id_with_the_documented_parameters() {
    let key = derive_key("correct horse", ZERO_SALT).ok().unwrap();
    let params = argon2::Params::new(65536, 3, 4, Some(32)).unwrap();
    let ctx = argon2::Argon2::new(argon2::Algorithm::Argon2id, argon2::Version::V0x13, params);
    let mut expected = [0u8; 32];
    ctx.hash_password_into(b"correct horse", &[0u8; 16], &mut expected).unwrap();
    assert_eq!(key.as_bytes(), &expected);
    assert_ne!(key.as_bytes(), &[0u8; 32]);
}

#[test]
fn argon2_parameters_are_the_documented_ones() {
    assert_eq!(ARGON2_M_COST, 65536);
    assert_eq!(ARGON2_T_COST, 3);
    assert_eq!(ARGON2_P_COST, 4);
}

#[test]
fn derive_key_uses_the_decoded_salt() {
    let from_text = derive_key("pw", ZERO_SALT).ok().unwrap();
    let from_bytes = derive_key_from_salt("pw", &[0u8; 16]).ok().unwrap();
    assert_eq!(from_text.as_bytes(), from_bytes.as_bytes());
}

#[test]
fn derive_key_rejects_a_salt_that_is_not_base64() {
    assert_eq!(derive_key("pw", "not base64!").err(), Some(CryptoError::InvalidInput));
}

#[test]
fn derive_key_rejects_a_salt_that_is_too_short() {
    let short = b64(&[1, 2, 3, 4]);
    assert_eq!(derive_key("pw", &short).err(), Some(CryptoError::KeyDerivation));
    assert_eq!(derive_key_from_salt("pw", &[1, 2, 3]).err(), Some(CryptoError::KeyDerivation));
}

#[test]
fn key_from_hash_wraps_bytes_and_maps_refusals() {
    let key = key_from_hash(Ok([7u8; 32])).ok().unwrap();
    assert_eq!(key.as_bytes(), &[7u8; 32]);
    assert_eq!(
        key_from_hash(Err(argon2::Error::SaltTooShort)).err(),
        Some(CryptoError::KeyDerivation)
    );
}

#[test]
fn secret_key_keeps_and_duplicates_its_bytes() {
    let mut bytes = [0u8; 32];
    for (i, b) in bytes.iter_mut().enumerate() {
        *b = i as u8;
    }
    let key = SecretKey::new(bytes);
    assert_eq!(key.as_bytes(), &bytes);
    let copy = key.duplicate();
    drop(key);
    assert_eq!(copy.as_bytes(), &bytes);
}

#[test]
fn encrypt_then_decrypt_gives_the_text_back() {
    let key = key_of(0x11);
    for text in ["", "a", "hello world", "日本語のノート\nsecond line", "RISU-VALID"] {
        let payload = encrypt(text, &key).unwrap();
        assert_eq!(decrypt(&payload, &key), Ok(text.to_string()));
    }
}

#[test]
fn encrypt_draws_a_fresh_nonce_for_every_call() {
    let key = key_of(0x22);
    let first = encrypt("same text", &key).unwrap();
    let second = encrypt("same text", &key).unwrap();
    assert_ne!(first, second);
    assert_ne!(unb64(&first)[..12], unb64(&second)[..12]);
}

#[test]
fn payload_is_nonce_then_sealed_message_in_base64() {
    let key = key_of(0x33);
    let nonce = [9u8; 12];
    let payload = encrypt_with_nonce("note body", &key, &nonce).unwrap();
    let mut expected = nonce.to_vec();
    expected.extend_from_slice(&seal(&key, &nonce, b"note body"));
    assert_eq!(payload, b64(&expected));
    let decoded = unb64(&payload);
    assert_eq!(decoded.len(), 12 + 9 + 16);
    assert_eq!(&decoded[..12], &nonce);
}

#[test]
fn encrypted_text_is_longer_than_the_plaintext_and_differs_from_it() {
    let key = key_of(0x34);
    let text = "a fairly ordinary note";
    let payload = encrypt(text, &key).unwrap();
    assert!(payload.len() > text.len());
    assert_ne!(payload, text);
    assert_eq!(payload.len(), (12 + text.len() + 16 + 2) / 3 * 4);
}

#[test]
fn payload_from_sealed_frames_and_maps_refusals() {
    let nonce = [1u8; 12];
    let framed = payload_from_sealed(&nonce, Ok(vec![2u8; 20])).unwrap();
    let mut expected = vec![1u8; 12];
    expected.extend_from_slice(&[2u8; 20]);
    assert_eq!(unb64(&framed), expected);
    assert_eq!(
        payload_from_sealed(&nonce, Err(chacha20poly1305::Error)),
        Err(CryptoError::Encryption)
    );
}

#[test]
fn decrypt_with_another_key_is_an_integrity_failure() {
    let payload = encrypt("secret", &key_of(0x44)).unwrap();
    assert_eq!(decrypt(&payload, &key_of(0x45)), Err(CryptoError::IntegrityFailure));
}

#[test]
fn decrypt_of_a_tampered_payload_is_an_integrity_failure() {
    let key = key_of(0x46);
    let payload = encrypt("secret", &key).unwrap();
    let mut bytes = unb64(&payload);
    let last = bytes.len() - 1;
    bytes[last] ^= 0x01;
    assert_eq!(decrypt(&b64(&bytes), &key), Err(CryptoError::IntegrityFailure));
    let mut bytes = unb64(&payload);
    bytes[0] ^= 0x80;
    assert_eq!(decrypt(&b64(&bytes), &key), Err(CryptoError::IntegrityFailure));
}

#[test]
fn decrypt_rejects_a_payload_shorter_than_a_nonce() {
    let key = key_of(0x55);
    assert_eq!(decrypt(&b64(&[0u8; 11]), &key), Err(CryptoError::PayloadTooShort));
    assert_eq!(decrypt("", &key), Err(CryptoError::PayloadTooShort));
    assert_eq!(open_payload(&[0u8; 11], &key), Err(CryptoError::PayloadTooShort));
}

#[test]
fn decrypt_of_a_bare_nonce_is_an_integrity_failure() {
    let key = key_of(0x56);
    assert_eq!(decrypt(&b64(&[0u8; 12]), &key), Err(CryptoError::IntegrityFailure));
    assert_eq!(open_payload(&[0u8; 27], &key), Err(CryptoError::IntegrityFailure));
}

#[test]
fn decrypt_rejects_a_payload_that_is_not_base64() {
    assert_eq!(decrypt("***not base64***", &key_of(0x66)), Err(CryptoError::Encoding));
}

#[test]
fn decrypt_rejects_plaintext_that_is_not_utf8() {
    let key = key_of(0x77);
    let nonce = [3u8; 12];
    let mut payload = nonce.to_vec();
    payload.extend_from_slice(&seal(&key, &nonce, &[0xff, 0xfe, 0x80]));
    assert_eq!(decrypt(&b64(&payload), &key), Err(CryptoError::Encoding));
    assert_eq!(open_payload(&payload, &key), Err(CryptoError::Encoding));
}

#[test]
fn open_payload_reads_what_the_cipher_sealed() {
    let key = key_of(0x78);
    let nonce = [4u8; 12];
    let mut payload = nonce.to_vec();
    payload.extend_from_slice(&seal(&key, &nonce, "héllo".as_bytes()));
    assert_eq!(open_payload(&payload, &key), Ok("héllo".to_string()));
}

#[test]
fn plaintext_from_opened_maps_each_outcome() {
    assert_eq!(plaintext_from_opened(Ok(b"plain".to_vec())), Ok("plain".to_string()));
    assert_eq!(plaintext_from_opened(Ok(vec![0xc3])), Err(CryptoError::Encoding));
    assert_eq!(
        plaintext_from_opened(Err(chacha20poly1305::Error)),
        Err(CryptoError::IntegrityFailure)
    );
}

#[test]
fn generated_salt_is_base64_of_sixteen_bytes() {
    let first = generate_salt();
    let second = generate_salt();
    assert_eq!(unb64(&first).len(), 16);
    assert_eq!(unb64(&second).len(), 16);
    assert_ne!(first, second);
}

#[test]
fn encode_salt_is_standard_padded_base64() {
    assert_eq!(encode_salt(&[0u8; 16]), ZERO_SALT);
    assert_eq!(encode_salt(&[0xffu8; 16]), "/////////////////////w==");
}

#[test]
fn every_error_has_its_message() {
    assert_eq!(CryptoError::InvalidInput.message(), "Failed to decode salt from Base64");
    assert_eq!(CryptoError::KeyDerivation.message(), "Failed to hash password");
    assert_eq!(CryptoError::Encryption.message(), "Encryption failed");
    assert_eq!(CryptoError::PayloadTooShort.message(), "Payload too short (missing nonce)");
    assert_eq!(
        CryptoError::IntegrityFailure.message(),
        "Decryption failed (invalid key or corrupted data)"
    );
    assert_eq!(CryptoError::Encoding.message(), "Payload is not valid Base64 or UTF-8");
}

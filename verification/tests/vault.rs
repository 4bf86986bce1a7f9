use myssh::crypto::{decrypt_field, encrypt_field, open_backup, random_bytes, seal_backup};
use myssh::errors::CoreError;

fn key() -> Vec<u8> {
    random_bytes(32)
}

#[test]
fn encrypt_then_decrypt_returns_original() {
    let k = key();
    let plain = "a secret password";
    let stored = encrypt_field(&k, plain).expect("encrypt");
    let back = decrypt_field(&k, stored.as_str()).expect("decrypt");
    assert_eq!(back, plain);
}

#[test]
fn encrypt_twice_gives_distinct_ciphertexts() {
    let k = key();
    let a = encrypt_field(&k, "same").expect("encrypt");
    let b = encrypt_field(&k, "same").expect("encrypt");
    // each sealing draws its own random nonce
    assert_ne!(a, b);
    assert_eq!(decrypt_field(&k, a.as_str()).expect("decrypt"), "same");
    assert_eq!(decrypt_field(&k, b.as_str()).expect("decrypt"), "same");
}

#[test]
fn empty_string_round_trips() {
    let k = key();
    let stored = encrypt_field(&k, "").expect("encrypt");
    assert_eq!(decrypt_field(&k, stored.as_str()).expect("decrypt"), "");
}

#[test]
fn unicode_round_trips() {
    let k = key();
    let plain = "p\u{e4}ss\u{2603}w\u{f6}rd";
    let stored = encrypt_field(&k, plain).expect("encrypt");
    assert_eq!(decrypt_field(&k, stored.as_str()).expect("decrypt"), plain);
}

#[test]
fn mutating_one_byte_makes_decryption_fail() {
    let k = key();
    let stored = encrypt_field(&k, "tamper with me").expect("encrypt");
    let mut raw = base64::Engine::decode(&base64::engine::general_purpose::STANDARD, &stored)
        .expect("stored field is base64");
    let target = raw.len() - 1;
    raw[target] ^= 0x01;
    let tampered = base64::Engine::encode(&base64::engine::general_purpose::STANDARD, &raw);
    assert!(matches!(
        decrypt_field(&k, tampered.as_str()),
        Err(CoreError::Crypto)
    ));
}

#[test]
fn mutating_the_nonce_makes_decryption_fail() {
    let k = key();
    let stored = encrypt_field(&k, "nonce matters").expect("encrypt");
    let mut raw = base64::Engine::decode(&base64::engine::general_purpose::STANDARD, &stored)
        .expect("stored field is base64");
    raw[0] ^= 0x80;
    let tampered = base64::Engine::encode(&base64::engine::general_purpose::STANDARD, &raw);
    assert!(matches!(
        decrypt_field(&k, tampered.as_str()),
        Err(CoreError::Crypto)
    ));
}

#[test]
fn truncated_field_fails_closed() {
    let k = key();
    assert!(decrypt_field(&k, "AAAA").is_err());
    assert!(decrypt_field(&k, "").is_err());
    assert!(decrypt_field(&k, "not base64 at all!!!").is_err());
}

#[test]
fn wrong_key_fails() {
    let k1 = key();
    let k2 = key();
    let stored = encrypt_field(&k1, "for key one").expect("encrypt");
    assert!(matches!(
        decrypt_field(&k2, stored.as_str()),
        Err(CoreError::Crypto)
    ));
}

#[test]
fn backup_round_trips_with_correct_password() {
    let payload: Vec<u8> = b"[{\"name\":\"alpha\"}]".to_vec();
    let doc = seal_backup(&payload, "correct horse").expect("seal");
    let back = open_backup(doc.as_str(), "correct horse").expect("open");
    assert_eq!(back, payload);
}

#[test]
fn backup_with_wrong_password_fails() {
    let payload: Vec<u8> = b"profiles".to_vec();
    let doc = seal_backup(&payload, "right").expect("seal");
    assert!(matches!(
        open_backup(doc.as_str(), "wrong"),
        Err(CoreError::Crypto)
    ));
}

#[test]
fn backup_with_unknown_version_is_rejected() {
    let payload: Vec<u8> = b"data".to_vec();
    let doc = seal_backup(&payload, "pw").expect("seal");
    let mut raw = base64::Engine::decode(&base64::engine::general_purpose::STANDARD, &doc)
        .expect("envelope is base64");
    assert_eq!(raw[0], 1);
    raw[0] = 2;
    let altered = base64::Engine::encode(&base64::engine::general_purpose::STANDARD, &raw);
    assert!(matches!(
        open_backup(altered.as_str(), "pw"),
        Err(CoreError::Format)
    ));
}

#[test]
fn backup_that_is_not_base64_is_rejected() {
    assert!(matches!(
        open_backup("@@not base64@@", "pw"),
        Err(CoreError::Format)
    ));
}

#[test]
fn tampered_backup_fails() {
    let payload: Vec<u8> = b"important profiles".to_vec();
    let doc = seal_backup(&payload, "pw").expect("seal");
    let mut raw = base64::Engine::decode(&base64::engine::general_purpose::STANDARD, &doc)
        .expect("envelope is base64");
    let last = raw.len() - 1;
    raw[last] ^= 0x10;
    let altered = base64::Engine::encode(&base64::engine::general_purpose::STANDARD, &raw);
    assert!(matches!(
        open_backup(altered.as_str(), "pw"),
        Err(CoreError::Crypto)
    ));
}

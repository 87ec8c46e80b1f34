use kestrel::crypto::{decrypt, encrypt, CryptoError};

#[test]
fn roundtrip() {
    let msg = "hello kestrel config";
    let encrypted = encrypt(msg, "hunter2").unwrap();
    let decrypted = decrypt(&encrypted, "hunter2").unwrap();
    assert_eq!(decrypted, msg);
}

#[test]
fn wrong_password_fails() {
    let encrypted = encrypt("secret", "correct").unwrap();
    assert!(decrypt(&encrypted, "wrong").is_err());
}

#[test]
fn truncated_data_fails() {
    assert!(decrypt(&[0u8; 10], "pw").is_err());
    assert!(matches!(decrypt(&[0u8; 28], "pw"), Err(CryptoError::TooShort)));
}

#[test]
fn encrypted_layout_has_salt_nonce_and_tag() {
    let encrypted = encrypt("abc", "pw").unwrap();
    assert_eq!(encrypted.len(), 16 + 12 + 3 + 16);
    let again = encrypt("abc", "pw").unwrap();
    assert_ne!(encrypted, again);
}

#[test]
fn empty_and_unicode_roundtrip() {
    for msg in ["", "配置 ✓", "line1\nline2"] {
        let e = encrypt(msg, "pässword").unwrap();
        assert_eq!(decrypt(&e, "pässword").unwrap(), msg);
    }
}

#[test]
fn tampered_data_fails() {
    let mut e = encrypt("payload", "pw").unwrap();
    let last = e.len() - 1;
    e[last] ^= 1;
    assert!(matches!(decrypt(&e, "pw"), Err(CryptoError::DecryptionFailed)));
}

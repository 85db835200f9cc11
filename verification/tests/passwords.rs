//! Tests for the password digest and its validation against a stored
//! reference.

use sutorio_axum_utils_crypto::{
    encrypt_password, validate_password, constant_time_str_eq, EncryptedEnvelope, Error,
};

const KEY: &[u8] = b"key";

fn envelope(content: &str, salt: &str) -> EncryptedEnvelope {
    EncryptedEnvelope { content: content.to_string(), salt: salt.to_string() }
}

#[test]
fn test_encrypt_password_starts_with_version_tag() {
    let digest = encrypt_password(&envelope("hunter2", "pepper"), KEY).unwrap();
    assert!(digest.starts_with("#01#"));
    // Tag plus the url-safe base64 encoding of a 64-byte HMAC-SHA-512 tag.
    assert_eq!(digest.len(), 4 + 88);
}

#[test]
fn test_encrypt_password_is_deterministic() {
    let first = encrypt_password(&envelope("hunter2", "pepper"), KEY).unwrap();
    let second = encrypt_password(&envelope("hunter2", "pepper"), KEY).unwrap();
    assert_eq!(first, second);
}

#[test]
fn test_encrypt_password_depends_on_every_input() {
    let base = encrypt_password(&envelope("hunter2", "pepper"), KEY).unwrap();
    let other_content = encrypt_password(&envelope("hunter3", "pepper"), KEY).unwrap();
    let other_salt = encrypt_password(&envelope("hunter2", "pfeffer"), KEY).unwrap();
    let other_key = encrypt_password(&envelope("hunter2", "pepper"), b"kez").unwrap();
    assert_ne!(base, other_content);
    assert_ne!(base, other_salt);
    assert_ne!(base, other_key);
}

#[test]
fn test_validate_password_accepts_matching_reference() {
    let input = envelope("hunter2", "pepper");
    let stored = encrypt_password(&input, KEY).unwrap();
    validate_password(&input, &stored, KEY).unwrap();
}

#[test]
fn test_validate_password_rejects_wrong_password() {
    let stored = encrypt_password(&envelope("hunter2", "pepper"), KEY).unwrap();
    let attempt = envelope("hunter3", "pepper");
    assert_eq!(
        validate_password(&attempt, &stored, KEY).unwrap_err(),
        Error::PasswordMismatch
    );
}

#[test]
fn test_validate_password_rejects_untagged_reference() {
    let input = envelope("hunter2", "pepper");
    let stored = encrypt_password(&input, KEY).unwrap();
    // Strip the version tag: the remaining digest text must not validate.
    let untagged = &stored[4..];
    assert_eq!(
        validate_password(&input, untagged, KEY).unwrap_err(),
        Error::PasswordMismatch
    );
    assert_eq!(
        validate_password(&input, "", KEY).unwrap_err(),
        Error::PasswordMismatch
    );
}

#[test]
fn test_constant_time_str_eq() {
    assert!(constant_time_str_eq("", ""));
    assert!(constant_time_str_eq("abc", "abc"));
    assert!(!constant_time_str_eq("abc", "abd"));
    assert!(!constant_time_str_eq("abc", "abcd"));
    assert!(constant_time_str_eq("päss", "päss"));
    assert!(!constant_time_str_eq("päss", "pass"));
}

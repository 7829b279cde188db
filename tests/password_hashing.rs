use backend::errors::ErrorMessage;
use backend::password::{compare, hash, hash_with_salt, MAX_PASSWORD_LENGTH};

#[test]
fn hash_then_compare_accepts_the_same_password() {
    for p in ["a", "password1", "Ünïcødé pässwörd"] {
        let h = hash(p).unwrap();
        assert_eq!(compare(p, &h), Ok(true));
    }
}

#[test]
fn hash_of_longest_password_is_accepted() {
    let p = "x".repeat(MAX_PASSWORD_LENGTH);
    let h = hash(&p).unwrap();
    assert_eq!(compare(&p, &h), Ok(true));
}

#[test]
fn compare_rejects_another_password() {
    let h = hash("password1").unwrap();
    assert_eq!(compare("password2", &h), Ok(false));
    assert_eq!(compare("Password1", &h), Ok(false));
}

#[test]
fn hash_rejects_empty_and_too_long() {
    assert_eq!(hash(""), Err(ErrorMessage::EmptyPassword));
    let long = "y".repeat(129);
    assert_eq!(hash(&long), Err(ErrorMessage::ExceededMaxPasswordLength(128)));
    // the limit counts bytes: 65 two-byte characters are 130 bytes
    let wide = "é".repeat(65);
    assert_eq!(hash(&wide), Err(ErrorMessage::ExceededMaxPasswordLength(128)));
}

#[test]
fn compare_rejects_empty_and_too_long() {
    let h = hash("password1").unwrap();
    assert_eq!(compare("", &h), Err(ErrorMessage::EmptyPassword));
    assert_eq!(compare(&"z".repeat(200), &h), Err(ErrorMessage::ExceededMaxPasswordLength(128)));
}

#[test]
fn compare_with_malformed_hash_fails() {
    assert_eq!(compare("password1", "not-a-valid-hash"), Err(ErrorMessage::InvalidHashFormat));
    assert_eq!(compare("password1", ""), Err(ErrorMessage::InvalidHashFormat));
    assert_eq!(compare("password1", "$"), Err(ErrorMessage::InvalidHashFormat));
}

#[test]
fn hash_with_salt_is_deterministic_and_self_describing() {
    let salt = "0123456789abcdef";
    let a = hash_with_salt("password1", salt).unwrap();
    let b = hash_with_salt("password1", salt).unwrap();
    assert_eq!(a, b);
    assert!(a.starts_with("$argon2id$v=19$"));
    assert!(a.contains(salt));
    assert_ne!(a, "password1");
    assert_eq!(compare("password1", &a), Ok(true));
}

#[test]
fn hash_with_refused_salt_is_a_hashing_error() {
    assert_eq!(hash_with_salt("password1", "not a b64 salt!"), Err(ErrorMessage::HashingError));
    assert_eq!(hash_with_salt("password1", "ab"), Err(ErrorMessage::HashingError));
}

#[test]
fn random_salts_give_different_hashes() {
    let a = hash("password1").unwrap();
    let b = hash("password1").unwrap();
    assert_ne!(a, b);
}

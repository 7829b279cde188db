use backend::errors::ErrorMessage;
use backend::token::{issue, issue_at, validate, validate_at};

#[test]
fn token_round_trip() {
    let t = issue("user-42", "secret", 60);
    assert_eq!(validate(&t, "secret"), Ok("user-42".to_string()));
}

#[test]
fn token_round_trip_at_fixed_times() {
    let t = issue_at("8b6f0e8e-1d2c-4d7e-9a55-0c3b1f6a2e10", "s3cr3t", 60, 1_700_000_000);
    assert_eq!(
        validate_at(&t, "s3cr3t", 1_700_000_000),
        Ok("8b6f0e8e-1d2c-4d7e-9a55-0c3b1f6a2e10".to_string())
    );
    assert_eq!(
        validate_at(&t, "s3cr3t", 1_700_003_600),
        Ok("8b6f0e8e-1d2c-4d7e-9a55-0c3b1f6a2e10".to_string())
    );
    assert_eq!(validate_at(&t, "s3cr3t", 1_700_003_601), Err(ErrorMessage::TokenExpired));
}

#[test]
fn token_layout_is_exact() {
    let t = issue_at("ab", "k", 1, 16);
    // the expiry 16 + 60 is written shifted by 2^63
    let expected_prefix = "800000000000004c.0000000000000010.0000000000000002.ab.";
    assert!(t.starts_with(expected_prefix));
    assert_eq!(t.len(), expected_prefix.len() + 64);
    assert!(t[expected_prefix.len()..].chars().all(|c| c.is_ascii_hexdigit() && !c.is_ascii_uppercase()));
}

#[test]
fn subject_with_dots_and_unicode_round_trips() {
    let subject = "a.b.c.ünï";
    let t = issue_at(subject, "key", 5, 100);
    assert_eq!(validate_at(&t, "key", 100), Ok(subject.to_string()));
    let empty = issue_at("", "key", 5, 100);
    assert_eq!(validate_at(&empty, "key", 100), Ok(String::new()));
}

#[test]
fn token_with_negative_ttl_is_expired() {
    let t = issue("user-1", "secret", -1);
    assert_eq!(validate(&t, "secret"), Err(ErrorMessage::TokenExpired));
    let t = issue_at("user-1", "secret", -1, 1_000);
    assert_eq!(validate_at(&t, "secret", 1_000), Err(ErrorMessage::TokenExpired));
    let t = issue_at("user-1", "secret", -1, 0);
    assert_eq!(validate_at(&t, "secret", 0), Err(ErrorMessage::TokenExpired));
    let t = issue_at("user-1", "secret", i64::MIN, 5);
    assert_eq!(validate_at(&t, "secret", 5), Err(ErrorMessage::TokenExpired));
    let t = issue_at("user-1", "secret", i64::MAX, u64::MAX);
    assert_eq!(validate_at(&t, "secret", 0), Ok("user-1".to_string()));
}

#[test]
fn token_under_other_secret_is_refused() {
    let t = issue("user-1", "secret-a", 60);
    assert_eq!(validate(&t, "secret-b"), Err(ErrorMessage::InvalidSignature));
    let t = issue_at("user-1", "secret-a", -1, 1_000);
    assert_eq!(validate_at(&t, "secret-b", 5_000), Err(ErrorMessage::InvalidSignature));
}

#[test]
fn tampered_token_is_refused() {
    let t = issue_at("user-1", "secret", 60, 1_000);
    // change the subject
    let forged = t.replacen("user-1", "user-2", 1);
    assert_eq!(validate_at(&forged, "secret", 1_000), Err(ErrorMessage::InvalidSignature));
    // extend the expiry
    let forged = format!("f{}", &t[1..]);
    assert_eq!(validate_at(&forged, "secret", 1_000), Err(ErrorMessage::InvalidSignature));
    // change one digit of the tag
    let mut chars: Vec<char> = t.chars().collect();
    let last = chars.len() - 1;
    chars[last] = if chars[last] == '0' { '1' } else { '0' };
    let forged: String = chars.into_iter().collect();
    assert_eq!(validate_at(&forged, "secret", 1_000), Err(ErrorMessage::InvalidSignature));
}

#[test]
fn malformed_tokens_are_refused() {
    assert_eq!(validate_at("", "secret", 0), Err(ErrorMessage::InvalidSignature));
    assert_eq!(validate_at("not.a.token", "secret", 0), Err(ErrorMessage::InvalidSignature));
    let long = "x".repeat(200);
    assert_eq!(validate_at(&long, "secret", 0), Err(ErrorMessage::InvalidSignature));
}

#[test]
fn tokens_issued_at_different_times_differ() {
    let a = issue_at("user-1", "secret", 60, 1_000);
    let b = issue_at("user-1", "secret", 60, 1_001);
    assert_ne!(a, b);
    let c = issue_at("user-1", "other", 60, 1_000);
    assert_ne!(a, c);
}

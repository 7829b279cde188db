use backend::auth::{
    forgot_password_with, login, login_with, register, register_with, reset_password_with,
    verify_email, verify_email_with, EMAIL_TOKEN_TTL_SECONDS,
};
use backend::dtos::{ForgotPasswordRequestDto, LoginUserDto, RegisterUserDto, ResetPasswordRequestDto};
use backend::errors::ErrorMessage;
use backend::store::{Purpose, UserRole, UserStore};
use backend::token::{validate, validate_at};

const SALT: &str = "c2FsdHNhbHRzYWx0";

fn alice() -> RegisterUserDto {
    RegisterUserDto {
        name: "Alice".to_string(),
        email: "a@x.com".to_string(),
        password: "password1".to_string(),
        confirm_password: "password1".to_string(),
    }
}

fn store_with_alice(now: u64) -> (UserStore, String) {
    let mut store = UserStore::new();
    let token = register_with(&mut store, &alice(), "id-alice".to_string(), "tok-1".to_string(), SALT, now)
        .unwrap();
    (store, token)
}

#[test]
fn register_verify_login_end_to_end() {
    let (mut store, token) = store_with_alice(1_000);
    assert_eq!(token, "tok-1");
    assert_eq!(store.count_users(), 1);
    let u = &store.users[0];
    assert_eq!(u.name, "Alice");
    assert_eq!(u.email, "a@x.com");
    assert!(!u.verified);
    assert_eq!(u.role, UserRole::User);
    let pending = u.verification_token.as_ref().unwrap();
    assert_eq!(pending.value, "tok-1");
    assert_eq!(pending.expires_at, 1_000 + EMAIL_TOKEN_TTL_SECONDS);

    assert_eq!(verify_email_with(&mut store, "tok-1", 2_000), Ok("id-alice".to_string()));
    assert!(store.users[0].verified);
    assert!(store.users[0].verification_token.is_none());

    let body = LoginUserDto { email: "a@x.com".to_string(), password: "password1".to_string() };
    let session = login_with(&store, &body, "jwt-secret", 60, 3_000).unwrap();
    assert_eq!(validate_at(&session, "jwt-secret", 3_000), Ok("id-alice".to_string()));
}

#[test]
fn register_verify_login_now() {
    let mut store = UserStore::new();
    let token = register(&mut store, &alice()).unwrap();
    assert_eq!(token.len(), 36);
    let id = store.users[0].id.clone();
    assert_eq!(verify_email(&mut store, &token), Ok(id.clone()));
    let body = LoginUserDto { email: "a@x.com".to_string(), password: "password1".to_string() };
    let session = login(&store, &body, "jwt-secret", 60).unwrap();
    assert_eq!(validate(&session, "jwt-secret"), Ok(id));
}

#[test]
fn wrong_password_and_unknown_email_fail_alike() {
    let (store, _) = store_with_alice(1_000);
    let wrong = LoginUserDto { email: "a@x.com".to_string(), password: "password2".to_string() };
    let unknown = LoginUserDto { email: "b@x.com".to_string(), password: "password1".to_string() };
    let e1 = login_with(&store, &wrong, "s", 60, 1_000).unwrap_err();
    let e2 = login_with(&store, &unknown, "s", 60, 1_000).unwrap_err();
    assert_eq!(e1, ErrorMessage::WrongCredentials);
    assert_eq!(e1, e2);
    assert_eq!(e1.to_str(), e2.to_str());
}

#[test]
fn login_checks_the_request() {
    let (store, _) = store_with_alice(1_000);
    let bad_email = LoginUserDto { email: "not-an-email".to_string(), password: "password1".to_string() };
    assert_eq!(login_with(&store, &bad_email, "s", 60, 0), Err(ErrorMessage::InvalidEmail));
    let short = LoginUserDto { email: "a@x.com".to_string(), password: "short".to_string() };
    assert_eq!(login_with(&store, &short, "s", 60, 0), Err(ErrorMessage::PasswordTooShort));
}

#[test]
fn duplicate_email_is_refused() {
    let (mut store, _) = store_with_alice(1_000);
    let again = register_with(&mut store, &alice(), "id-2".to_string(), "tok-2".to_string(), SALT, 1_000);
    assert_eq!(again, Err(ErrorMessage::EmailExists));
    assert_eq!(store.count_users(), 1);
}

#[test]
fn register_checks_the_request() {
    let mut store = UserStore::new();
    let mut body = alice();
    body.confirm_password = "password2".to_string();
    assert_eq!(register_with(&mut store, &body, "i".to_string(), "t".to_string(), SALT, 0), Err(ErrorMessage::PasswordMismatch));
    let mut body = alice();
    body.name = String::new();
    assert_eq!(register_with(&mut store, &body, "i".to_string(), "t".to_string(), SALT, 0), Err(ErrorMessage::NameRequired));
    let mut body = alice();
    body.email = "alice".to_string();
    assert_eq!(register_with(&mut store, &body, "i".to_string(), "t".to_string(), SALT, 0), Err(ErrorMessage::InvalidEmail));
    let mut body = alice();
    body.password = "pass".to_string();
    body.confirm_password = "pass".to_string();
    assert_eq!(register_with(&mut store, &body, "i".to_string(), "t".to_string(), SALT, 0), Err(ErrorMessage::PasswordTooShort));
    let mut body = alice();
    body.password = "p".repeat(129);
    body.confirm_password = body.password.clone();
    assert_eq!(register_with(&mut store, &body, "i".to_string(), "t".to_string(), SALT, 0), Err(ErrorMessage::ExceededMaxPasswordLength(128)));
    assert_eq!(store.count_users(), 0);
}

#[test]
fn verification_token_is_single_use() {
    let (mut store, token) = store_with_alice(1_000);
    assert_eq!(store.consume(&token, Purpose::EmailVerification, 1_500), Ok("id-alice".to_string()));
    assert_eq!(store.consume(&token, Purpose::EmailVerification, 1_500), Err(ErrorMessage::InvalidToken));
}

#[test]
fn verification_token_is_superseded() {
    let (mut store, first) = store_with_alice(1_000);
    store.generate_at("id-alice", Purpose::EmailVerification, "tok-2".to_string(), 9_000).unwrap();
    assert_eq!(store.consume(&first, Purpose::EmailVerification, 1_500), Err(ErrorMessage::InvalidToken));
    assert_eq!(store.consume("tok-2", Purpose::EmailVerification, 1_500), Ok("id-alice".to_string()));
}

#[test]
fn generate_twice_keeps_only_the_second() {
    let (mut store, _) = store_with_alice(1_000);
    let a = store.generate("id-alice", Purpose::PasswordReset, 600).unwrap();
    let b = store.generate("id-alice", Purpose::PasswordReset, 600).unwrap();
    assert_ne!(a, b);
    assert_eq!(store.consume(&a, Purpose::PasswordReset, 0), Err(ErrorMessage::InvalidToken));
    assert_eq!(store.consume(&b, Purpose::PasswordReset, 0), Ok("id-alice".to_string()));
}

#[test]
fn expired_verification_token_is_refused_then_gone() {
    let (mut store, token) = store_with_alice(1_000);
    let late = 1_000 + EMAIL_TOKEN_TTL_SECONDS + 1;
    assert_eq!(store.consume(&token, Purpose::EmailVerification, late), Err(ErrorMessage::TokenExpired));
    assert!(!store.users[0].verified);
    assert_eq!(store.consume(&token, Purpose::EmailVerification, 1_000), Err(ErrorMessage::InvalidToken));
}

#[test]
fn token_of_one_purpose_does_not_serve_another() {
    let (mut store, token) = store_with_alice(1_000);
    assert_eq!(store.consume(&token, Purpose::PasswordReset, 1_000), Err(ErrorMessage::InvalidToken));
    assert_eq!(verify_email_with(&mut store, "", 1_000), Err(ErrorMessage::TokenNotProvided));
    assert_eq!(verify_email_with(&mut store, "nope", 1_000), Err(ErrorMessage::InvalidToken));
}

#[test]
fn generate_for_unknown_user_or_taken_token_fails() {
    let (mut store, token) = store_with_alice(1_000);
    assert_eq!(store.generate_at("nobody", Purpose::PasswordReset, "t".to_string(), 5), Err(ErrorMessage::UserNoLongerExist));
    assert_eq!(store.generate_at("id-alice", Purpose::EmailVerification, token, 5), Err(ErrorMessage::ServerError));
}

#[test]
fn password_reset_end_to_end() {
    let (mut store, _) = store_with_alice(1_000);
    let forgot = ForgotPasswordRequestDto { email: "a@x.com".to_string() };
    assert_eq!(forgot_password_with(&mut store, &forgot, "reset-1".to_string(), 1_000), Ok("reset-1".to_string()));
    let unknown = ForgotPasswordRequestDto { email: "z@x.com".to_string() };
    assert_eq!(forgot_password_with(&mut store, &unknown, "reset-2".to_string(), 1_000), Err(ErrorMessage::UserNoLongerExist));
    let reset = ResetPasswordRequestDto {
        token: "reset-1".to_string(),
        password: "new-password".to_string(),
        confirm_password: "new-password".to_string(),
    };
    assert_eq!(reset_password_with(&mut store, &reset, SALT, 1_100), Ok("id-alice".to_string()));
    assert_eq!(reset_password_with(&mut store, &reset, SALT, 1_100), Err(ErrorMessage::InvalidToken));
    let old = LoginUserDto { email: "a@x.com".to_string(), password: "password1".to_string() };
    assert_eq!(login_with(&store, &old, "s", 60, 1_200), Err(ErrorMessage::WrongCredentials));
    let new = LoginUserDto { email: "a@x.com".to_string(), password: "new-password".to_string() };
    assert!(login_with(&store, &new, "s", 60, 1_200).is_ok());
    assert_eq!(store.users[0].updated_at, 1_100);
}

#[test]
fn list_users_pages_newest_first() {
    let mut store = UserStore::new();
    for (i, email) in ["a@x.com", "b@x.com", "c@x.com", "d@x.com", "e@x.com"].iter().enumerate() {
        store.insert_user(format!("id-{}", i), format!("N{}", i % 2), email.to_string(), "h".to_string(), format!("t-{}", i), 0, 100 + i as u64).unwrap();
    }
    assert_eq!(store.count_users(), 5);
    assert_eq!(store.list_users(1, 2), vec![4, 3]);
    assert_eq!(store.list_users(2, 2), vec![2, 1]);
    assert_eq!(store.list_users(3, 2), vec![0]);
    assert_eq!(store.list_users(4, 2), Vec::<usize>::new());
    assert_eq!(store.list_users(1, 0), Vec::<usize>::new());
    assert_eq!(store.find_by_email("c@x.com"), Some(2));
    assert_eq!(store.find_by_id("id-4"), Some(4));
    assert_eq!(store.find_by_token("t-1", Purpose::EmailVerification), Some(1));
    assert_eq!(store.find_by_email("q@x.com"), None);
    assert_eq!(store.users[3].created_at, 103);
    assert_eq!(store.find_user(None, Some("N1"), None, None), Some(1));
    assert_eq!(store.find_user(None, Some("N1"), Some("d@x.com"), None), Some(3));
    assert_eq!(store.find_user(None, Some("N0"), Some("d@x.com"), None), None);
    assert_eq!(store.find_user(Some("id-2"), None, None, Some("t-2")), Some(2));
    assert_eq!(store.find_user(Some("id-2"), None, None, Some("t-3")), None);
    assert_eq!(store.find_user(None, None, None, None), Some(0));
}

#[test]
fn insert_refuses_a_taken_id() {
    let (mut store, _) = store_with_alice(1_000);
    let r = store.insert_user("id-alice".to_string(), "B".to_string(), "b@x.com".to_string(), "h".to_string(), "tok-9".to_string(), 5, 5);
    assert_eq!(r, Err(ErrorMessage::ServerError));
    let r = store.insert_user("id-b".to_string(), "B".to_string(), "b@x.com".to_string(), "h".to_string(), "tok-1".to_string(), 5, 5);
    assert_eq!(r, Err(ErrorMessage::ServerError));
    assert_eq!(store.count_users(), 1);
}

#[test]
fn login_passes_a_malformed_stored_hash_through() {
    let (mut store, _) = store_with_alice(1_000);
    store.update_password(0, "not-a-valid-hash".to_string(), 1_100);
    let body = LoginUserDto { email: "a@x.com".to_string(), password: "password1".to_string() };
    let e = login_with(&store, &body, "s", 60, 1_200).unwrap_err();
    assert_eq!(e, ErrorMessage::InvalidHashFormat);
    assert_eq!(e.to_http_error().status, 500);
}

#[test]
fn overlong_password_does_not_reveal_the_account() {
    let (store, _) = store_with_alice(1_000);
    let unknown = LoginUserDto { email: "z@x.com".to_string(), password: "p".repeat(129) };
    let known = LoginUserDto { email: "a@x.com".to_string(), password: "p".repeat(129) };
    let wrong = LoginUserDto { email: "a@x.com".to_string(), password: "password2".to_string() };
    assert_eq!(login_with(&store, &unknown, "s", 60, 1_200), Err(ErrorMessage::WrongCredentials));
    assert_eq!(login_with(&store, &known, "s", 60, 1_200), Err(ErrorMessage::WrongCredentials));
    assert_eq!(login_with(&store, &wrong, "s", 60, 1_200), Err(ErrorMessage::WrongCredentials));
}

#[test]
fn creation_times_never_go_backwards() {
    let mut store = UserStore::new();
    store.insert_user("i1".to_string(), "A".to_string(), "a@x.com".to_string(), "h".to_string(), "t1".to_string(), 0, 500).unwrap();
    store.insert_user("i2".to_string(), "B".to_string(), "b@x.com".to_string(), "h".to_string(), "t2".to_string(), 0, 400).unwrap();
    store.insert_user("i3".to_string(), "C".to_string(), "c@x.com".to_string(), "h".to_string(), "t3".to_string(), 0, 900).unwrap();
    assert_eq!(store.users[1].created_at, 500);
    assert_eq!(store.users[2].created_at, 900);
    assert_eq!(store.list_users(1, 3), vec![2, 1, 0]);
}

#[test]
fn registered_hash_is_accepted_by_compare() {
    let (store, _) = store_with_alice(1_000);
    let u = &store.users[0];
    assert_ne!(u.password, "password1");
    assert_eq!(backend::password::compare("password1", &u.password), Ok(true));
    assert_eq!(u.created_at, 1_000);
    assert_eq!(u.updated_at, 1_000);
}

#[test]
fn updates_change_one_field() {
    let (mut store, _) = store_with_alice(1_000);
    store.update_user_name(0, "Alicia".to_string(), 2_000);
    store.update_user_role(0, UserRole::Admin, 2_001);
    store.update_password(0, "h2".to_string(), 2_002);
    let u = &store.users[0];
    assert_eq!(u.name, "Alicia");
    assert_eq!(u.role, UserRole::Admin);
    assert_eq!(u.role.to_str(), "admin");
    assert_eq!(UserRole::User.to_str(), "user");
    assert_eq!(u.password, "h2");
    assert_eq!(u.email, "a@x.com");
    assert_eq!(u.created_at, 1_000);
    assert_eq!(u.updated_at, 2_002);
}

use backend::dtos::{
    validate_user_role, ForgotPasswordRequestDto, NameUpdateDto, UserPasswordUpdateDto,
    VerifyEmailQueryDto, FilterUserDto, RegisterUserDto, RequestQueryDto, ResetPasswordRequestDto,
};
use backend::store::{PendingToken, UserRecord, UserRole};
use backend::encoding::{hex_encode, str_eq};
use backend::errors::{ErrorMessage, HttpError};

#[test]
fn error_messages_are_exact() {
    assert_eq!(ErrorMessage::EmptyPassword.to_str(), "Password is required");
    assert_eq!(ErrorMessage::ExceededMaxPasswordLength(128).to_str(), "Max password length is 128");
    assert_eq!(ErrorMessage::ExceededMaxPasswordLength(0).to_str(), "Max password length is 0");
    assert_eq!(ErrorMessage::WrongCredentials.to_string(), "Wrong credentials provided");
    assert_eq!(ErrorMessage::EmailExists.to_str(), "Email already exists");
    assert_eq!(ErrorMessage::InvalidHashFormat.to_str(), "Invalid hash format");
    assert_eq!(ErrorMessage::UserNotAuthenticated.to_str(), "User not authenticated");
}

#[test]
fn http_errors_carry_their_status() {
    assert_eq!(HttpError::server_error("x".to_string()).status, 500);
    assert_eq!(HttpError::bad_request("x".to_string()).status, 400);
    assert_eq!(HttpError::unique_constraint_violation("x".to_string()).status, 409);
    assert_eq!(HttpError::unauthorized("x".to_string()).status, 401);
    assert_eq!(HttpError::new("m".to_string(), 418).status, 418);
    let e = ErrorMessage::EmailExists.to_http_error();
    assert_eq!(e.status, 409);
    assert_eq!(e.message, "Email already exists");
    assert_eq!(ErrorMessage::WrongCredentials.to_http_error().status, 400);
    assert_eq!(ErrorMessage::HashingError.to_http_error().status, 500);
    assert_eq!(ErrorMessage::ExceededMaxPasswordLength(128).to_http_error().status, 400);
    let body = ErrorMessage::InvalidToken.to_response();
    assert_eq!(body.status, "fail");
    assert_eq!(body.message, "Invalid token");
}

#[test]
fn request_validation() {
    let ok = RegisterUserDto {
        name: "Bob".to_string(),
        email: "bob@example.org".to_string(),
        password: "12345678".to_string(),
        confirm_password: "12345678".to_string(),
    };
    assert_eq!(ok.validate(), Ok(()));
    let no_at = RegisterUserDto { email: "bob.example.org".to_string(), ..ok };
    assert_eq!(no_at.validate(), Err(ErrorMessage::InvalidEmail));
    let reset = ResetPasswordRequestDto {
        token: String::new(),
        password: "12345678".to_string(),
        confirm_password: "12345678".to_string(),
    };
    assert_eq!(reset.validate(), Err(ErrorMessage::TokenNotProvided));
    assert!(RequestQueryDto { page: Some(1), limit: Some(50) }.validate());
    assert!(RequestQueryDto { page: None, limit: None }.validate());
    assert!(!RequestQueryDto { page: Some(0), limit: None }.validate());
    assert!(!RequestQueryDto { page: None, limit: Some(51) }.validate());
}

#[test]
fn hex_and_text_helpers() {
    assert_eq!(hex_encode(&vec![0x00, 0x0f, 0xa5, 0xff]).into_iter().collect::<String>(), "000fa5ff");
    assert!(hex_encode(&vec![]).is_empty());
    assert!(str_eq("abc", "abc"));
    assert!(!str_eq("abc", "abd"));
    assert!(!str_eq("abc", "ab"));
}

fn record(id: &str, role: UserRole, verified: bool) -> UserRecord {
    UserRecord {
        id: id.to_string(),
        name: format!("name-{}", id),
        email: format!("{}@x.com", id),
        password: "$argon2id$secret".to_string(),
        verified,
        role,
        verification_token: Some(PendingToken { value: "t".to_string(), expires_at: 9 }),
        reset_token: None,
        created_at: 7,
        updated_at: 8,
    }
}

#[test]
fn filter_user_shows_public_fields_only() {
    let d = FilterUserDto::filter_user(&record("u1", UserRole::Admin, true));
    assert_eq!(d.id, "u1");
    assert_eq!(d.name, "name-u1");
    assert_eq!(d.email, "u1@x.com");
    assert_eq!(d.role, "admin");
    assert!(d.verified);
    assert_eq!(d.created_at, 7);
    assert_eq!(d.updated_at, 8);
    let all = FilterUserDto::filter_users(&[record("a", UserRole::User, false), record("b", UserRole::Admin, true)]);
    assert_eq!(all.len(), 2);
    assert_eq!(all[0].id, "a");
    assert_eq!(all[0].role, "user");
    assert!(!all[0].verified);
    assert_eq!(all[1].id, "b");
    assert!(FilterUserDto::filter_users(&[]).is_empty());
    assert_eq!(validate_user_role(&UserRole::Admin), Ok(()));
}

#[test]
fn other_request_validation() {
    assert_eq!(NameUpdateDto { name: String::new() }.validate(), Err(ErrorMessage::NameRequired));
    assert_eq!(NameUpdateDto { name: "N".to_string() }.validate(), Ok(()));
    assert_eq!(VerifyEmailQueryDto { token: String::new() }.validate(), Err(ErrorMessage::TokenNotProvided));
    assert_eq!(VerifyEmailQueryDto { token: "t".to_string() }.validate(), Ok(()));
    assert_eq!(ForgotPasswordRequestDto { email: "x".to_string() }.validate(), Err(ErrorMessage::InvalidEmail));
    assert_eq!(ForgotPasswordRequestDto { email: "x@y.org".to_string() }.validate(), Ok(()));
    let upd = UserPasswordUpdateDto {
        password: "abcdefgh".to_string(),
        confirm_password: "abcdefgi".to_string(),
        old_password: "12345678".to_string(),
    };
    assert_eq!(upd.validate(), Err(ErrorMessage::PasswordMismatch));
    let upd = UserPasswordUpdateDto { old_password: "short".to_string(), ..upd };
    assert_eq!(upd.validate(), Err(ErrorMessage::PasswordTooShort));
    let upd = UserPasswordUpdateDto {
        password: "abcdefgh".to_string(),
        confirm_password: "abcdefgh".to_string(),
        old_password: "12345678".to_string(),
    };
    assert_eq!(upd.validate(), Ok(()));
}

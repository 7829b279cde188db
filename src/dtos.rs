use vstd::prelude::*;
use crate::encoding::str_eq;
use crate::errors::ErrorMessage;
use crate::store::{UserRecord, UserRole};
use validator::ValidateEmail;

verus! {

/// Whether a string is an acceptable email address.
pub uninterp spec fn email_valid_of(s: Seq<char>) -> bool;

/// Relies on `validator::ValidateEmail::validate_email` for `&str`: an empty string,
/// or one without `@`, is refused.
#[verifier::external_body]
pub(crate) fn email_is_valid(s: &str) -> (r: bool)
    ensures
        r == email_valid_of(s@),
        (s@.len() == 0 || !s@.contains('@')) ==> !r,
{
    s.validate_email()
}

/// The shortest password accepted, in characters.
pub const MIN_PASSWORD_LENGTH: usize = 8;

pub struct RegisterUserDto {
    pub name: String,
    pub email: String,
    pub password: String,
    pub confirm_password: String,
}

pub struct LoginUserDto {
    pub email: String,
    pub password: String,
}

pub struct RequestQueryDto {
    pub page: Option<usize>,
    pub limit: Option<usize>,
}

/// What a client is shown of a user: never the password hash or pending tokens.
pub struct FilterUserDto {
    pub id: String,
    pub name: String,
    pub email: String,
    pub role: String,
    pub verified: bool,
    pub created_at: u64,
    pub updated_at: u64,
}

/// The role's name as stored.
pub open spec fn role_name(r: UserRole) -> Seq<char> {
    match r {
        UserRole::Admin => "admin"@,
        UserRole::User => "user"@,
    }
}

/// Whether `d` shows exactly the public fields of `u`.
pub open spec fn shows(d: FilterUserDto, u: UserRecord) -> bool {
    &&& d.id@ == u.id@
    &&& d.name@ == u.name@
    &&& d.email@ == u.email@
    &&& d.role@ == role_name(u.role)
    &&& d.verified == u.verified
    &&& d.created_at == u.created_at
    &&& d.updated_at == u.updated_at
}

impl FilterUserDto {
    /// The public view of `user`.
    pub fn filter_user(user: &UserRecord) -> (r: FilterUserDto)
        ensures
            shows(r, *user),
    {
        FilterUserDto {
            id: user.id.clone(),
            name: user.name.clone(),
            email: user.email.clone(),
            role: String::from_str(user.role.to_str()),
            verified: user.verified,
            created_at: user.created_at,
            updated_at: user.updated_at,
        }
    }

    /// The public views of `users`, in order.
    pub fn filter_users(users: &[UserRecord]) -> (r: Vec<FilterUserDto>)
        ensures
            r@.len() == users@.len(),
            forall|i: int| 0 <= i < users@.len() ==> shows(#[trigger] r@[i], users@[i]),
    {
        let mut out: Vec<FilterUserDto> = Vec::new();
        let mut i: usize = 0;
        while i < users.len()
            invariant
                i <= users@.len(),
                out@.len() == i,
                forall|j: int| 0 <= j < i ==> shows(#[trigger] out@[j], users@[j]),
            decreases users@.len() - i,
        {
            out.push(FilterUserDto::filter_user(&users[i]));
            i = i + 1;
        }
        out
    }
}

pub struct UserData {
    pub user: FilterUserDto,
}

pub struct UserResponseDto {
    pub status: String,
    pub data: UserData,
}

pub struct UserListResponseDto {
    pub status: String,
    pub users: Vec<FilterUserDto>,
    pub results: i64,
}

/// A request to change a user's role.
pub struct RoleUpdateDto {
    pub role: UserRole,
}

/// Checks a requested role: each role that can be named is a valid target.
pub fn validate_user_role(role: &UserRole) -> (r: Result<(), ErrorMessage>)
    ensures
        r is Ok,
{
    match role {
        UserRole::Admin | UserRole::User => Ok(()),
    }
}

pub struct UserLoginResponseDto {
    pub status: String,
    pub token: String,
}

pub struct Response {
    pub status: &'static str,
    pub message: String,
}

pub struct NameUpdateDto {
    pub name: String,
}

pub struct UserPasswordUpdateDto {
    pub password: String,
    pub confirm_password: String,
    pub old_password: String,
}

pub struct VerifyEmailQueryDto {
    pub token: String,
}

pub struct ForgotPasswordRequestDto {
    pub email: String,
}

pub struct ResetPasswordRequestDto {
    pub token: String,
    pub password: String,
    pub confirm_password: String,
}

/// The first rule that a registration breaks, if any.
pub open spec fn register_error(
    name: Seq<char>,
    email: Seq<char>,
    password: Seq<char>,
    confirm: Seq<char>,
) -> Option<ErrorMessage> {
    if name.len() == 0 {
        Some(ErrorMessage::NameRequired)
    } else if !email_valid_of(email) {
        Some(ErrorMessage::InvalidEmail)
    } else if password.len() < MIN_PASSWORD_LENGTH || confirm.len() < MIN_PASSWORD_LENGTH {
        Some(ErrorMessage::PasswordTooShort)
    } else if password != confirm {
        Some(ErrorMessage::PasswordMismatch)
    } else {
        None
    }
}

/// The first rule that a login request breaks, if any.
pub open spec fn login_error(email: Seq<char>, password: Seq<char>) -> Option<ErrorMessage> {
    if !email_valid_of(email) {
        Some(ErrorMessage::InvalidEmail)
    } else if password.len() < MIN_PASSWORD_LENGTH {
        Some(ErrorMessage::PasswordTooShort)
    } else {
        None
    }
}

/// The first rule that a new password and its confirmation break, if any.
pub open spec fn new_password_error(password: Seq<char>, confirm: Seq<char>) -> Option<
    ErrorMessage,
> {
    if password.len() < MIN_PASSWORD_LENGTH || confirm.len() < MIN_PASSWORD_LENGTH {
        Some(ErrorMessage::PasswordTooShort)
    } else if password != confirm {
        Some(ErrorMessage::PasswordMismatch)
    } else {
        None
    }
}

/// The first rule that a password reset breaks, if any.
pub open spec fn reset_error(token: Seq<char>, password: Seq<char>, confirm: Seq<char>) -> Option<
    ErrorMessage,
> {
    if token.len() == 0 {
        Some(ErrorMessage::TokenNotProvided)
    } else if password.len() < MIN_PASSWORD_LENGTH || confirm.len() < MIN_PASSWORD_LENGTH {
        Some(ErrorMessage::PasswordTooShort)
    } else if password != confirm {
        Some(ErrorMessage::PasswordMismatch)
    } else {
        None
    }
}

fn char_count(s: &str) -> (r: usize)
    ensures
        r == s@.len(),
{
    crate::encoding::chars_of(s).len()
}

fn passwords_error(password: &str, confirm: &str) -> (r: Option<ErrorMessage>)
    ensures
        r == new_password_error(password@, confirm@),
{
    if char_count(password) < MIN_PASSWORD_LENGTH || char_count(confirm) < MIN_PASSWORD_LENGTH {
        Some(ErrorMessage::PasswordTooShort)
    } else if !str_eq(password, confirm) {
        Some(ErrorMessage::PasswordMismatch)
    } else {
        None
    }
}

impl RegisterUserDto {
    /// Checks the request: a name, a valid email, a password of at least eight
    /// characters, and a confirmation equal to it.
    pub fn validate(&self) -> (r: Result<(), ErrorMessage>)
        ensures
            match register_error(
                self.name@,
                self.email@,
                self.password@,
                self.confirm_password@,
            ) {
                Some(e) => r == Err::<(), ErrorMessage>(e),
                None => r is Ok,
            },
    {
        if char_count(self.name.as_str()) == 0 {
            return Err(ErrorMessage::NameRequired);
        }
        if !email_is_valid(self.email.as_str()) {
            return Err(ErrorMessage::InvalidEmail);
        }
        match passwords_error(self.password.as_str(), self.confirm_password.as_str()) {
            Some(e) => Err(e),
            None => Ok(()),
        }
    }
}

impl LoginUserDto {
    /// Checks the request: a valid email and a password of at least eight characters.
    pub fn validate(&self) -> (r: Result<(), ErrorMessage>)
        ensures
            match login_error(self.email@, self.password@) {
                Some(e) => r == Err::<(), ErrorMessage>(e),
                None => r is Ok,
            },
    {
        if !email_is_valid(self.email.as_str()) {
            return Err(ErrorMessage::InvalidEmail);
        }
        if char_count(self.password.as_str()) < MIN_PASSWORD_LENGTH {
            return Err(ErrorMessage::PasswordTooShort);
        }
        Ok(())
    }
}

impl ResetPasswordRequestDto {
    /// Checks the request: a token, a password of at least eight characters, and a
    /// confirmation equal to it.
    pub fn validate(&self) -> (r: Result<(), ErrorMessage>)
        ensures
            match reset_error(self.token@, self.password@, self.confirm_password@) {
                Some(e) => r == Err::<(), ErrorMessage>(e),
                None => r is Ok,
            },
    {
        if char_count(self.token.as_str()) == 0 {
            return Err(ErrorMessage::TokenNotProvided);
        }
        match passwords_error(self.password.as_str(), self.confirm_password.as_str()) {
            Some(e) => Err(e),
            None => Ok(()),
        }
    }
}

impl NameUpdateDto {
    /// Checks the request: a name.
    pub fn validate(&self) -> (r: Result<(), ErrorMessage>)
        ensures
            self.name@.len() == 0 ==> r == Err::<(), ErrorMessage>(ErrorMessage::NameRequired),
            self.name@.len() > 0 ==> r is Ok,
    {
        if char_count(self.name.as_str()) == 0 {
            Err(ErrorMessage::NameRequired)
        } else {
            Ok(())
        }
    }
}

impl UserPasswordUpdateDto {
    /// Checks the request: the new password, its confirmation and the old password
    /// each of at least eight characters, and the confirmation equal to the new one.
    pub fn validate(&self) -> (r: Result<(), ErrorMessage>)
        ensures
            self.old_password@.len() < MIN_PASSWORD_LENGTH ==> r == Err::<(), ErrorMessage>(
                ErrorMessage::PasswordTooShort,
            ),
            self.old_password@.len() >= MIN_PASSWORD_LENGTH ==> match new_password_error(
                self.password@,
                self.confirm_password@,
            ) {
                Some(e) => r == Err::<(), ErrorMessage>(e),
                None => r is Ok,
            },
    {
        if char_count(self.old_password.as_str()) < MIN_PASSWORD_LENGTH {
            return Err(ErrorMessage::PasswordTooShort);
        }
        match passwords_error(self.password.as_str(), self.confirm_password.as_str()) {
            Some(e) => Err(e),
            None => Ok(()),
        }
    }
}

impl VerifyEmailQueryDto {
    /// Checks the request: a token.
    pub fn validate(&self) -> (r: Result<(), ErrorMessage>)
        ensures
            self.token@.len() == 0 ==> r == Err::<(), ErrorMessage>(ErrorMessage::TokenNotProvided),
            self.token@.len() > 0 ==> r is Ok,
    {
        if char_count(self.token.as_str()) == 0 {
            Err(ErrorMessage::TokenNotProvided)
        } else {
            Ok(())
        }
    }
}

impl ForgotPasswordRequestDto {
    /// Checks the request: a valid email.
    pub fn validate(&self) -> (r: Result<(), ErrorMessage>)
        ensures
            !email_valid_of(self.email@) ==> r == Err::<(), ErrorMessage>(ErrorMessage::InvalidEmail),
            email_valid_of(self.email@) ==> r is Ok,
    {
        if email_is_valid(self.email.as_str()) {
            Ok(())
        } else {
            Err(ErrorMessage::InvalidEmail)
        }
    }
}

impl RequestQueryDto {
    /// Checks the paging request: a page of at least 1 and a limit from 1 to 50,
    /// where given.
    pub fn validate(&self) -> (r: bool)
        ensures
            r == ((self.page matches Some(p) ==> p >= 1) && (self.limit matches Some(l) ==> 1
                <= l <= 50)),
    {
        let page_ok = match self.page {
            Some(p) => p >= 1,
            None => true,
        };
        let limit_ok = match self.limit {
            Some(l) => 1 <= l && l <= 50,
            None => true,
        };
        page_ok && limit_ok
    }
}

} // verus!

use vstd::prelude::*;

verus! {

/// The body sent to a client when a request fails.
pub struct ErrorResponse {
    pub status: String,
    pub message: String,
}

/// A failed request: the message for the client and the HTTP status code.
pub struct HttpError {
    pub message: String,
    pub status: u16,
}

impl HttpError {
    pub fn new(message: String, status: u16) -> (r: HttpError)
        ensures
            r.message == message,
            r.status == status,
    {
        HttpError { message, status }
    }

    /// Status 500.
    pub fn server_error(message: String) -> (r: HttpError)
        ensures
            r.message == message,
            r.status == 500,
    {
        HttpError { message, status: 500 }
    }

    /// Status 400.
    pub fn bad_request(message: String) -> (r: HttpError)
        ensures
            r.message == message,
            r.status == 400,
    {
        HttpError { message, status: 400 }
    }

    /// Status 409.
    pub fn unique_constraint_violation(message: String) -> (r: HttpError)
        ensures
            r.message == message,
            r.status == 409,
    {
        HttpError { message, status: 409 }
    }

    /// Status 401.
    pub fn unauthorized(message: String) -> (r: HttpError)
        ensures
            r.message == message,
            r.status == 401,
    {
        HttpError { message, status: 401 }
    }

    /// The body sent to the client.
    pub fn to_response(&self) -> (r: ErrorResponse)
        ensures
            r.status@ == "fail"@,
            r.message == self.message,
    {
        ErrorResponse { status: String::from_str("fail"), message: self.message.clone() }
    }
}

/// The HTTP status code that goes with each error: 400 for the client's mistakes,
/// 409 for a taken email, 401 and 403 for access, 500 for faults of the server.
pub open spec fn status_of(e: ErrorMessage) -> u16 {
    match e {
        ErrorMessage::EmailExists => 409,
        ErrorMessage::UserNotAuthenticated | ErrorMessage::TokenNotProvided
        | ErrorMessage::UserNoLongerExist => 401,
        ErrorMessage::PermissionDenied => 403,
        ErrorMessage::HashingError | ErrorMessage::InvalidHashFormat | ErrorMessage::ServerError => 500,
        _ => 400,
    }
}

/// Every way in which an operation of this library can fail.
#[derive(Debug, Clone, Copy, PartialEq, Eq, Structural)]
pub enum ErrorMessage {
    EmptyPassword,
    ExceededMaxPasswordLength(usize),
    HashingError,
    InvalidHashFormat,
    InvalidToken,
    TokenExpired,
    InvalidSignature,
    ServerError,
    WrongCredentials,
    EmailExists,
    UserNoLongerExist,
    TokenNotProvided,
    PermissionDenied,
    UserNotAuthenticated,
    NameRequired,
    InvalidEmail,
    PasswordTooShort,
    PasswordMismatch,
}

/// The decimal digits of `n`, most significant first, with no leading zero.
pub open spec fn decimal_of(n: nat) -> Seq<char>
    decreases n,
{
    let d = seq!['0', '1', '2', '3', '4', '5', '6', '7', '8', '9'][(n % 10) as int];
    if n < 10 {
        seq![d]
    } else {
        decimal_of(n / 10).push(d)
    }
}

/// The text shown to a client for each error.
pub open spec fn error_text(e: ErrorMessage) -> Seq<char> {
    match e {
        ErrorMessage::EmptyPassword => "Password is required"@,
        ErrorMessage::ExceededMaxPasswordLength(n) => "Max password length is "@ + decimal_of(
            n as nat,
        ),
        ErrorMessage::HashingError => "Hashing error"@,
        ErrorMessage::InvalidHashFormat => "Invalid hash format"@,
        ErrorMessage::InvalidToken => "Invalid token"@,
        ErrorMessage::TokenExpired => "Token expired"@,
        ErrorMessage::InvalidSignature => "Invalid token signature"@,
        ErrorMessage::ServerError => "Server error"@,
        ErrorMessage::WrongCredentials => "Wrong credentials provided"@,
        ErrorMessage::EmailExists => "Email already exists"@,
        ErrorMessage::UserNoLongerExist => "User no longer exist"@,
        ErrorMessage::TokenNotProvided => "Token not provided"@,
        ErrorMessage::PermissionDenied => "Permission denied"@,
        ErrorMessage::UserNotAuthenticated => "User not authenticated"@,
        ErrorMessage::NameRequired => "Name is required"@,
        ErrorMessage::InvalidEmail => "Email is invalid"@,
        ErrorMessage::PasswordTooShort => "Password must contain 8 characters"@,
        ErrorMessage::PasswordMismatch => "Passwords do not match"@,
    }
}

/// The decimal digit of value `d`.
fn decimal_digit(d: usize) -> (c: char)
    requires
        d < 10,
    ensures
        c == seq!['0', '1', '2', '3', '4', '5', '6', '7', '8', '9'][d as int],
{
    match d {
        0 => '0',
        1 => '1',
        2 => '2',
        3 => '3',
        4 => '4',
        5 => '5',
        6 => '6',
        7 => '7',
        8 => '8',
        _ => '9',
    }
}

/// The decimal digits of `n`, most significant first.
fn decimal_chars(n: usize) -> (r: Vec<char>)
    ensures
        r@ == decimal_of(n as nat),
    decreases n,
{
    if n < 10 {
        let mut v: Vec<char> = Vec::new();
        v.push(decimal_digit(n));
        assert(v@ =~= decimal_of(n as nat));
        v
    } else {
        let mut v = decimal_chars(n / 10);
        v.push(decimal_digit(n % 10));
        v
    }
}

/// `n` in decimal.
fn decimal_string(n: usize) -> (r: String)
    ensures
        r@ == decimal_of(n as nat),
{
    crate::encoding::string_of(&decimal_chars(n))
}

impl ErrorMessage {
    /// The message shown to a client for this error.
    pub fn to_str(&self) -> (r: String)
        ensures
            r@ == error_text(*self),
    {
        match self {
            ErrorMessage::EmptyPassword => String::from_str("Password is required"),
            ErrorMessage::ExceededMaxPasswordLength(length) => {
                let digits = decimal_string(*length);
                String::from_str("Max password length is ").concat(digits.as_str())
            },
            ErrorMessage::HashingError => String::from_str("Hashing error"),
            ErrorMessage::InvalidHashFormat => String::from_str("Invalid hash format"),
            ErrorMessage::InvalidToken => String::from_str("Invalid token"),
            ErrorMessage::TokenExpired => String::from_str("Token expired"),
            ErrorMessage::InvalidSignature => String::from_str("Invalid token signature"),
            ErrorMessage::ServerError => String::from_str("Server error"),
            ErrorMessage::WrongCredentials => String::from_str("Wrong credentials provided"),
            ErrorMessage::EmailExists => String::from_str("Email already exists"),
            ErrorMessage::UserNoLongerExist => String::from_str("User no longer exist"),
            ErrorMessage::TokenNotProvided => String::from_str("Token not provided"),
            ErrorMessage::PermissionDenied => String::from_str("Permission denied"),
            ErrorMessage::UserNotAuthenticated => String::from_str("User not authenticated"),
            ErrorMessage::NameRequired => String::from_str("Name is required"),
            ErrorMessage::InvalidEmail => String::from_str("Email is invalid"),
            ErrorMessage::PasswordTooShort => String::from_str(
                "Password must contain 8 characters",
            ),
            ErrorMessage::PasswordMismatch => String::from_str("Passwords do not match"),
        }
    }

    /// The failed request for this error: its message, with the status that goes with it.
    pub fn to_http_error(&self) -> (r: HttpError)
        ensures
            r.message@ == error_text(*self),
            r.status == status_of(*self),
    {
        let status: u16 = match self {
            ErrorMessage::EmailExists => 409,
            ErrorMessage::UserNotAuthenticated | ErrorMessage::TokenNotProvided
            | ErrorMessage::UserNoLongerExist => 401,
            ErrorMessage::PermissionDenied => 403,
            ErrorMessage::HashingError | ErrorMessage::InvalidHashFormat
            | ErrorMessage::ServerError => 500,
            _ => 400,
        };
        HttpError { message: self.to_str(), status }
    }

    /// The same message as `to_str`.
    pub fn to_string(&self) -> (r: String)
        ensures
            r@ == error_text(*self),
    {
        self.to_str()
    }

    /// The body sent to a client for this error.
    pub fn to_response(&self) -> (r: ErrorResponse)
        ensures
            r.status@ == "fail"@,
            r.message@ == error_text(*self),
    {
        ErrorResponse { status: String::from_str("fail"), message: self.to_str() }
    }
}

} // verus!

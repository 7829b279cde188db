use vstd::prelude::*;
use vstd::string::StringSliceAdditionalSpecFns;
use vstd::utf8::encode_utf8;
use crate::encoding::all_hex;
use crate::errors::ErrorMessage;
use crate::sources::new_salt;
use argon2::password_hash::{PasswordHasher, PasswordVerifier};

verus! {

/// The longest password, in bytes, that is hashed or checked.
pub const MAX_PASSWORD_LENGTH: usize = 128;

/// The encoded Argon2 hash of a password under a salt, or `None` where Argon2
/// refuses the salt.
pub uninterp spec fn argon2_phc_of(password: Seq<char>, salt: Seq<char>) -> Option<Seq<char>>;

/// Whether a string parses as an encoded password hash.
pub uninterp spec fn phc_parses(phc: Seq<char>) -> bool;

/// Whether Argon2, run with the parameters and salt read from `phc`, reproduces its
/// digest from `password`.
pub uninterp spec fn argon2_accepts(password: Seq<char>, phc: Seq<char>) -> bool;

/// Relies on `argon2::password_hash::Salt::from_b64` (the salt text is taken as it
/// stands) and `PasswordHasher::hash_password` of `Argon2::default()`, encoded by its
/// `Display`; the outcome depends on the password and the salt alone. The encoding
/// carries algorithm, version, parameters and salt, so it parses again, and
/// `verify_password`, which recomputes the digest with those, accepts the password.
/// `Argon2::default()` is Argon2id, version 0x13, and `Display` writes `$argon2id$v=19$`
/// before the parameters, salt and digest. A salt of 32 lower-case hexadecimal digits is accepted by `from_b64` (4 to 64
/// characters of `[a-zA-Z0-9/+.-]`) and decodes to 24 bytes, within Argon2's salt
/// bounds; a password of at most `0xFFFF_FFFF` bytes is within its bound; so hashing
/// then succeeds.
#[verifier::external_body]
fn argon2_hash(password: &str, salt: &str) -> (r: Option<String>)
    ensures
        salt@.len() == 32 && all_hex(salt@) && password.spec_bytes().len() <= 0xFFFF_FFFF
            ==> r is Some,
        r is Some <==> argon2_phc_of(password@, salt@) is Some,
        r is Some ==> argon2_phc_of(password@, salt@) == Some(r->Some_0@),
        r is Some ==> phc_parses(r->Some_0@) && argon2_accepts(password@, r->Some_0@),
        r is Some ==> "$argon2id$v=19$"@.is_prefix_of(r->Some_0@),
{
    argon2::password_hash::Salt::from_b64(salt)
        .and_then(|s| argon2::Argon2::default().hash_password(password.as_bytes(), s))
        .ok()
        .map(|h| h.to_string())
}

/// Relies on `argon2::password_hash::PasswordHash::new`: an empty string, or one
/// whose first field before `$` is not empty, is refused.
#[verifier::external_body]
fn phc_is_well_formed(phc: &str) -> (r: bool)
    ensures
        r == phc_parses(phc@),
        (phc@.len() == 0 || phc@[0] != '$') ==> !r,
{
    argon2::password_hash::PasswordHash::new(phc).is_ok()
}

/// Relies on `PasswordVerifier::verify_password` of `Argon2::default()`, on the hash
/// parsed by `PasswordHash::new`; the digests are compared in constant time.
#[verifier::external_body]
fn argon2_verify(password: &str, phc: &str) -> (r: bool)
    requires
        phc_parses(phc@),
    ensures
        r == argon2_accepts(password@, phc@),
{
    argon2::password_hash::PasswordHash::new(phc).map_or(
        false,
        |parsed| argon2::Argon2::default().verify_password(password.as_bytes(), &parsed).is_ok(),
    )
}

/// The error owed for a password of `chars` characters and `bytes` bytes, if any.
pub open spec fn password_length_error(chars: nat, bytes: nat) -> Option<ErrorMessage> {
    if chars == 0 {
        Some(ErrorMessage::EmptyPassword)
    } else if bytes > MAX_PASSWORD_LENGTH {
        Some(ErrorMessage::ExceededMaxPasswordLength(MAX_PASSWORD_LENGTH))
    } else {
        None
    }
}

pub(crate) fn check_length(password: &str) -> (r: Option<ErrorMessage>)
    ensures
        r == password_length_error(password@.len(), password.spec_bytes().len()),
{
    if password.is_empty() {
        return Some(ErrorMessage::EmptyPassword);
    }
    if password.as_bytes().len() > MAX_PASSWORD_LENGTH {
        return Some(ErrorMessage::ExceededMaxPasswordLength(MAX_PASSWORD_LENGTH));
    }
    None
}

/// What checking `password` against the encoded hash `phc` gives.
pub open spec fn compare_outcome(password: Seq<char>, phc: Seq<char>) -> Result<bool, ErrorMessage> {
    match password_length_error(password.len(), encode_utf8(password).len()) {
        Some(e) => Err(e),
        None => if phc_parses(phc) {
            Ok(argon2_accepts(password, phc))
        } else {
            Err(ErrorMessage::InvalidHashFormat)
        },
    }
}

/// Hashes `password` with Argon2 under the given salt.
pub fn hash_with_salt(password: &str, salt: &str) -> (r: Result<String, ErrorMessage>)
    ensures
        password_length_error(password@.len(), password.spec_bytes().len()) matches Some(e)
            ==> r == Err::<String, ErrorMessage>(e),
        password_length_error(password@.len(), password.spec_bytes().len()) is None ==> (
        match argon2_phc_of(password@, salt@) {
            Some(h) => r is Ok && r->Ok_0@ == h,
            None => r == Err::<String, ErrorMessage>(ErrorMessage::HashingError),
        }),
        r is Ok ==> compare_outcome(password@, r->Ok_0@) == Ok::<bool, ErrorMessage>(true),
        r is Ok ==> "$argon2id$v=19$"@.is_prefix_of(r->Ok_0@),
        salt@.len() == 32 && all_hex(salt@) && password_length_error(
            password@.len(),
            password.spec_bytes().len(),
        ) is None ==> r is Ok,
{
    if let Some(e) = check_length(password) {
        return Err(e);
    }
    match argon2_hash(password, salt) {
        Some(h) => Ok(h),
        None => Err(ErrorMessage::HashingError),
    }
}

/// Hashes `password` with Argon2 under a fresh random salt; any password of 1 to 128
/// bytes is hashed.
pub fn hash(password: &str) -> (r: Result<String, ErrorMessage>)
    ensures
        password_length_error(password@.len(), password.spec_bytes().len()) matches Some(e)
            ==> r == Err::<String, ErrorMessage>(e),
        password_length_error(password@.len(), password.spec_bytes().len()) is None ==> (
        r is Ok && exists|salt: Seq<char>|
            salt.len() == 32 && all_hex(salt) && #[trigger] argon2_phc_of(password@, salt) == Some(
                r->Ok_0@,
            )),
        r is Ok ==> compare_outcome(password@, r->Ok_0@) == Ok::<bool, ErrorMessage>(true),
        r is Ok ==> "$argon2id$v=19$"@.is_prefix_of(r->Ok_0@),
{
    let salt = new_salt();
    hash_with_salt(password, salt.as_str())
}

/// Whether `password` matches the encoded hash `hashed_pwd`; a hash that does not
/// parse is `InvalidHashFormat`, never a mismatch.
pub fn compare(password: &str, hashed_pwd: &str) -> (r: Result<bool, ErrorMessage>)
    ensures
        r == compare_outcome(password@, hashed_pwd@),
        password_length_error(password@.len(), password.spec_bytes().len()) is None && (
        hashed_pwd@.len() == 0 || hashed_pwd@[0] != '$') ==> r == Err::<bool, ErrorMessage>(
            ErrorMessage::InvalidHashFormat,
        ),
{
    if let Some(e) = check_length(password) {
        return Err(e);
    }
    if !phc_is_well_formed(hashed_pwd) {
        return Err(ErrorMessage::InvalidHashFormat);
    }
    Ok(argon2_verify(password, hashed_pwd))
}

} // verus!

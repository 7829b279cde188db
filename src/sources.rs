use vstd::prelude::*;

verus! {

/// Seconds since the Unix epoch, now.
///
/// Relies on `chrono::Utc::now` and `DateTime::timestamp`: `now` measures the system
/// time from the epoch and stops (panics) on a clock set before it, so what it returns
/// is never negative. The value depends on the clock; nothing more is promised.
#[verifier::external_body]
pub(crate) fn now_unix() -> (r: i64)
    ensures
        r >= 0,
{
    chrono::Utc::now().timestamp()
}

/// A fresh random identifier in its hyphenated text form.
///
/// Relies on `uuid::Uuid::new_v4` and its `Display`: 122 random bits, written as
/// 32 lower-case hexadecimal digits in five hyphen-separated groups.
#[verifier::external_body]
pub(crate) fn new_uuid() -> (r: String)
    ensures
        r@.len() == 36,
{
    uuid::Uuid::new_v4().to_string()
}

/// A fresh random salt: 32 lower-case hexadecimal digits, which Argon2 reads as the
/// B64 encoding of 24 bytes.
///
/// Relies on `uuid::Uuid::new_v4` and the `Display` of `Uuid::simple`: 122 random
/// bits, written as 32 lower-case hexadecimal digits with no hyphen.
#[verifier::external_body]
pub(crate) fn new_salt() -> (r: String)
    ensures
        r@.len() == 32,
        crate::encoding::all_hex(r@),
{
    uuid::Uuid::new_v4().simple().to_string()
}

/// Seconds since the Unix epoch, now.
pub fn now_seconds() -> (r: u64) {
    now_unix() as u64
}

} // verus!

use vstd::prelude::*;
use crate::encoding::{
    chars_of, dec16, decode_hex16, hex16, hex_encode, hex_of, lemma_dec16_hex16,
    lemma_hex_of_injective, push_hex16,
    same_chars, slice_chars, string_of,
};
use crate::errors::ErrorMessage;
use crate::sources::now_seconds;
use hmac::Mac;

verus! {

/// The HMAC-SHA256 tag of the UTF-8 bytes of `msg` under the UTF-8 bytes of `key`.
pub uninterp spec fn hmac_sha256_of(key: Seq<char>, msg: Seq<char>) -> Seq<u8>;

/// Relies on `hmac::Hmac::<sha2::Sha256>`: `new_from_slice` accepts a key of any
/// length, and `finalize` yields the 32-byte tag of what `update` was given.
#[verifier::external_body]
fn hmac_sha256(key: &str, msg: &Vec<char>) -> (r: Vec<u8>)
    ensures
        r@ == hmac_sha256_of(key@, msg@),
{
    let text: String = msg.iter().collect();
    match hmac::Hmac::<sha2::Sha256>::new_from_slice(key.as_bytes()) {
        Ok(mut mac) => {
            mac.update(text.as_bytes());
            mac.finalize().into_bytes().to_vec()
        },
        Err(_) => Vec::new(),
    }
}

/// The expiry, in seconds since the epoch, of a token issued at `now` for
/// `ttl_minutes`, held within the range of `i64`; it lies before the epoch where
/// the lifetime is negative enough.
pub open spec fn expiry_of(now: u64, ttl_minutes: i64) -> i64 {
    let e = now + 60 * ttl_minutes;
    if e < i64::MIN {
        i64::MIN
    } else if e > i64::MAX {
        i64::MAX
    } else {
        e as i64
    }
}

/// How an expiry is written in a token: shifted by 2^63, so that every `i64` is a
/// `u64` and the order is kept.
pub open spec fn expiry_field(e: i64) -> u64 {
    (e + 0x8000_0000_0000_0000) as u64
}

/// The signed part of a token: expiry (shifted, see `expiry_field`), issue time and the subject's length, each as
/// sixteen hexadecimal digits, then the subject, all separated by dots.
pub open spec fn payload_text(subject: Seq<char>, issued_at: u64, expires_at: i64) -> Seq<char>
    recommends
        subject.len() <= u64::MAX,
{
    hex16(expiry_field(expires_at)) + seq!['.'] + hex16(issued_at) + seq!['.'] + hex16(subject.len() as u64)
        + seq!['.'] + subject
}

/// The payload, a dot, and the hexadecimal HMAC-SHA256 tag of the payload under `key`.
pub open spec fn signed_text(payload: Seq<char>, key: Seq<char>) -> Seq<char> {
    payload + seq!['.'] + hex_of(hmac_sha256_of(key, payload))
}

/// The token issued for `subject` under `key` at `now`, valid for `ttl_minutes`.
pub open spec fn issued_token(subject: Seq<char>, key: Seq<char>, ttl_minutes: i64, now: u64) -> Seq<
    char,
> {
    signed_text(payload_text(subject, now, expiry_of(now, ttl_minutes)), key)
}

/// What validating token text `t` under `key` at `now` gives: the subject, or why not.
pub open spec fn validation_of(t: Seq<char>, key: Seq<char>, now: u64) -> Result<
    Seq<char>,
    ErrorMessage,
> {
    if t.len() < 52 || t[16] != '.' || t[33] != '.' || t[50] != '.' {
        Err(ErrorMessage::InvalidSignature)
    } else {
        match (dec16(t.subrange(0, 16)), dec16(t.subrange(34, 50))) {
            (Some(field), Some(l)) => {
                if 52 + l > t.len() || t[51 + l] != '.' {
                    Err(ErrorMessage::InvalidSignature)
                } else if t.subrange(52 + l, t.len() as int) != hex_of(
                    hmac_sha256_of(key, t.subrange(0, 51 + l)),
                ) {
                    Err(ErrorMessage::InvalidSignature)
                } else if now > field - 0x8000_0000_0000_0000 {
                    Err(ErrorMessage::TokenExpired)
                } else {
                    Ok(t.subrange(51, 51 + l))
                }
            },
            _ => Err(ErrorMessage::InvalidSignature),
        }
    }
}

proof fn lemma_issued_token_parts(subject: Seq<char>, key: Seq<char>, ttl_minutes: i64, now: u64)
    requires
        subject.len() <= u64::MAX,
    ensures
        ({
            let t = issued_token(subject, key, ttl_minutes, now);
            let l = subject.len() as int;
            let p = payload_text(subject, now, expiry_of(now, ttl_minutes));
            &&& t.len() >= 52 + l
            &&& t[16] == '.' && t[33] == '.' && t[50] == '.' && t[51 + l] == '.'
            &&& dec16(t.subrange(0, 16)) == Some(expiry_field(expiry_of(now, ttl_minutes)))
            &&& dec16(t.subrange(34, 50)) == Some(l as u64)
            &&& t.subrange(0, 51 + l) == p
            &&& t.subrange(52 + l, t.len() as int) == hex_of(hmac_sha256_of(key, p))
            &&& t.subrange(51, 51 + l) == subject
        }),
{
    let t = issued_token(subject, key, ttl_minutes, now);
    let l = subject.len() as int;
    let exp = expiry_of(now, ttl_minutes);
    let p = payload_text(subject, now, exp);
    assert(p.len() == 51 + l);
    assert(t.subrange(0, 16) =~= hex16(expiry_field(exp)));
    assert(t.subrange(34, 50) =~= hex16(l as u64));
    assert(t.subrange(0, 51 + l) =~= p);
    assert(t.subrange(52 + l, t.len() as int) =~= hex_of(hmac_sha256_of(key, p)));
    assert(t.subrange(51, 51 + l) =~= subject);
    assert(t[16] == p[16]);
    assert(t[33] == p[33]);
    assert(t[50] == p[50]);
    lemma_dec16_hex16(expiry_field(exp));
    lemma_dec16_hex16(l as u64);
}

/// A token validated under the key it was signed with, no later than its expiry,
/// gives back the subject it was issued for.
pub proof fn lemma_token_round_trip(
    subject: Seq<char>,
    key: Seq<char>,
    ttl_minutes: i64,
    now: u64,
    later: u64,
)
    requires
        subject.len() <= u64::MAX,
        later <= expiry_of(now, ttl_minutes),
    ensures
        validation_of(issued_token(subject, key, ttl_minutes, now), key, later) == Ok::<
            Seq<char>,
            ErrorMessage,
        >(subject),
{
    lemma_issued_token_parts(subject, key, ttl_minutes, now);
}

/// Tokens issued at different times differ, since each carries its issue time.
pub proof fn lemma_tokens_differ_by_issue_time(
    subject: Seq<char>,
    key: Seq<char>,
    ttl_minutes: i64,
    first: u64,
    second: u64,
)
    requires
        subject.len() <= u64::MAX,
        first != second,
    ensures
        issued_token(subject, key, ttl_minutes, first) != issued_token(
            subject,
            key,
            ttl_minutes,
            second,
        ),
{
    let a = issued_token(subject, key, ttl_minutes, first);
    let b = issued_token(subject, key, ttl_minutes, second);
    let pa = payload_text(subject, first, expiry_of(first, ttl_minutes));
    let pb = payload_text(subject, second, expiry_of(second, ttl_minutes));
    assert(a.subrange(17, 33) =~= hex16(first)) by {
        assert(pa.len() >= 33);
        assert(a.subrange(0, pa.len() as int) =~= pa);
    }
    assert(b.subrange(17, 33) =~= hex16(second)) by {
        assert(pb.len() >= 33);
        assert(b.subrange(0, pb.len() as int) =~= pb);
    }
    lemma_dec16_hex16(first);
    lemma_dec16_hex16(second);
}

/// A token issued with a negative lifetime is already expired when it is validated
/// at or after the time of issue.
pub proof fn lemma_token_negative_ttl_expired(
    subject: Seq<char>,
    key: Seq<char>,
    ttl_minutes: i64,
    now: u64,
    later: u64,
)
    requires
        subject.len() <= u64::MAX,
        ttl_minutes < 0,
        now <= later,
    ensures
        validation_of(issued_token(subject, key, ttl_minutes, now), key, later) == Err::<
            Seq<char>,
            ErrorMessage,
        >(ErrorMessage::TokenExpired),
{
    lemma_issued_token_parts(subject, key, ttl_minutes, now);
}

/// A token signed with one key fails with `InvalidSignature` under another key,
/// wherever the two keys' tags of its payload differ.
pub proof fn lemma_token_other_key(
    subject: Seq<char>,
    key_a: Seq<char>,
    key_b: Seq<char>,
    ttl_minutes: i64,
    now: u64,
    later: u64,
)
    requires
        subject.len() <= u64::MAX,
        hmac_sha256_of(key_a, payload_text(subject, now, expiry_of(now, ttl_minutes)))
            != hmac_sha256_of(key_b, payload_text(subject, now, expiry_of(now, ttl_minutes))),
    ensures
        validation_of(issued_token(subject, key_a, ttl_minutes, now), key_b, later) == Err::<
            Seq<char>,
            ErrorMessage,
        >(ErrorMessage::InvalidSignature),
{
    lemma_issued_token_parts(subject, key_a, ttl_minutes, now);
    let p = payload_text(subject, now, expiry_of(now, ttl_minutes));
    if hex_of(hmac_sha256_of(key_a, p)) == hex_of(hmac_sha256_of(key_b, p)) {
        lemma_hex_of_injective(hmac_sha256_of(key_a, p), hmac_sha256_of(key_b, p));
    }
}

/// Issues a token for `subject`, signed with `secret`, at time `now` (seconds since
/// the epoch), expiring `ttl_minutes` later.
pub fn issue_at(subject: &str, secret: &str, ttl_minutes: i64, now: u64) -> (r: String)
    ensures
        r@ == issued_token(subject@, secret@, ttl_minutes, now),
{
    let subject_chars = chars_of(subject);
    let e: i128 = now as i128 + 60 * (ttl_minutes as i128);
    let expires_at: i64 = if e < i64::MIN as i128 {
        i64::MIN
    } else if e > i64::MAX as i128 {
        i64::MAX
    } else {
        e as i64
    };
    let field: u64 = (expires_at as i128 + 0x8000_0000_0000_0000) as u64;
    let mut text: Vec<char> = Vec::new();
    push_hex16(&mut text, field);
    text.push('.');
    push_hex16(&mut text, now);
    text.push('.');
    push_hex16(&mut text, subject_chars.len() as u64);
    text.push('.');
    let mut i: usize = 0;
    let ghost head = text@;
    while i < subject_chars.len()
        invariant
            i <= subject_chars@.len(),
            text@ == head + subject_chars@.subrange(0, i as int),
        decreases subject_chars@.len() - i,
    {
        text.push(subject_chars[i]);
        assert(subject_chars@.subrange(0, i + 1) =~= subject_chars@.subrange(0, i as int).push(
            subject_chars@[i as int],
        ));
        i = i + 1;
    }
    assert(subject_chars@.subrange(0, subject_chars@.len() as int) =~= subject_chars@);
    assert(text@ =~= payload_text(subject@, now, expiry_of(now, ttl_minutes)));
    let tag = hmac_sha256(secret, &text);
    let sig = hex_encode(&tag);
    let ghost payload = text@;
    text.push('.');
    let mut j: usize = 0;
    while j < sig.len()
        invariant
            j <= sig@.len(),
            text@ == payload + seq!['.'] + sig@.subrange(0, j as int),
        decreases sig@.len() - j,
    {
        text.push(sig[j]);
        assert(sig@.subrange(0, j + 1) =~= sig@.subrange(0, j as int).push(sig@[j as int]));
        j = j + 1;
    }
    assert(sig@.subrange(0, sig@.len() as int) =~= sig@);
    string_of(&text)
}

/// Checks `token` against `secret` at time `now`: the subject it was issued for, or
/// `InvalidSignature` where it was not signed with `secret` (or is no token at all),
/// or `TokenExpired` where `now` is past its expiry.
pub fn validate_at(token: &str, secret: &str, now: u64) -> (r: Result<String, ErrorMessage>)
    ensures
        match validation_of(token@, secret@, now) {
            Ok(s) => r is Ok && r->Ok_0@ == s,
            Err(e) => r == Err::<String, ErrorMessage>(e),
        },
{
    let t = chars_of(token);
    let n = t.len();
    if n < 52 || t[16] != '.' || t[33] != '.' || t[50] != '.' {
        return Err(ErrorMessage::InvalidSignature);
    }
    let exp = match decode_hex16(&t, 0) {
        Some(v) => v,
        None => return Err(ErrorMessage::InvalidSignature),
    };
    let l = match decode_hex16(&t, 34) {
        Some(v) => v,
        None => return Err(ErrorMessage::InvalidSignature),
    };
    if l > (n - 52) as u64 {
        return Err(ErrorMessage::InvalidSignature);
    }
    let l = l as usize;
    if t[51 + l] != '.' {
        return Err(ErrorMessage::InvalidSignature);
    }
    let payload = slice_chars(&t, 0, 51 + l);
    let tag = hmac_sha256(secret, &payload);
    let expected = hex_encode(&tag);
    let sig_len = n - (52 + l);
    if expected.len() != sig_len || !same_chars(&t, 52 + l, &expected, 0, sig_len) {
        proof {
            if expected.len() == sig_len {
                assert(expected@.subrange(0, sig_len as int) =~= expected@);
            }
        }
        return Err(ErrorMessage::InvalidSignature);
    }
    assert(expected@.subrange(0, sig_len as int) =~= expected@);
    if now as u128 + 0x8000_0000_0000_0000 > exp as u128 {
        return Err(ErrorMessage::TokenExpired);
    }
    let subject = slice_chars(&t, 51, 51 + l);
    Ok(string_of(&subject))
}

/// Issues a token for `subject`, signed with `secret`, valid for `ttl_minutes` from now.
pub fn issue(subject: &str, secret: &str, ttl_minutes: i64) -> (r: String)
    ensures
        exists|now: u64| r@ == issued_token(subject@, secret@, ttl_minutes, now),
{
    issue_at(subject, secret, ttl_minutes, now_seconds())
}

/// Checks `token` against `secret` now.
pub fn validate(token: &str, secret: &str) -> (r: Result<String, ErrorMessage>)
    ensures
        exists|now: u64|
            match #[trigger] validation_of(token@, secret@, now) {
                Ok(s) => r is Ok && r->Ok_0@ == s,
                Err(e) => r == Err::<String, ErrorMessage>(e),
            },
{
    validate_at(token, secret, now_seconds())
}

} // verus!

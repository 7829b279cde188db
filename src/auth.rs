use vstd::prelude::*;
use vstd::utf8::encode_utf8;
use crate::dtos::{
    email_valid_of, login_error, register_error, reset_error, ForgotPasswordRequestDto,
    LoginUserDto, RegisterUserDto, ResetPasswordRequestDto,
};
use crate::encoding::all_hex;
use crate::errors::ErrorMessage;
use crate::password::{
    argon2_phc_of, check_length, compare, compare_outcome, hash_with_salt, password_length_error,
};
use crate::sources::{new_salt, new_uuid, now_seconds};
use crate::store::{
    consume_outcome, email_from, generate_outcome, id_from, later_by, new_record, stamp_of,
    PendingToken,
    Purpose, UserRecord, UserRole, UserStore,
};
use crate::token::{issue_at, issued_token, validation_of};

verus! {

/// How long an email-verification token stays valid: 24 hours, in seconds.
pub const EMAIL_TOKEN_TTL_SECONDS: u64 = 86400;

/// How long a password-reset token stays valid: 30 minutes, in seconds.
pub const RESET_TOKEN_TTL_SECONDS: u64 = 1800;

/// What a login with `email` and `password` gives: the session token, or why not.
/// An unknown email and a password that is not accepted (a mismatch, or a length
/// that `compare` refuses) give the same `WrongCredentials`, so the error never tells
/// whether the account exists; a stored hash that does not parse is
/// `InvalidHashFormat`, a fault of the server.
pub open spec fn login_outcome(
    users: Seq<UserRecord>,
    email: Seq<char>,
    password: Seq<char>,
    secret: Seq<char>,
    ttl_minutes: i64,
    now: u64,
) -> Result<Seq<char>, ErrorMessage> {
    match login_error(email, password) {
        Some(e) => Err(e),
        None => match email_from(users, email, 0) {
            None => Err(ErrorMessage::WrongCredentials),
            Some(i) => match compare_outcome(password, users[i].password@) {
                Ok(true) => Ok(issued_token(users[i].id@, secret, ttl_minutes, now)),
                Err(ErrorMessage::InvalidHashFormat) => Err(ErrorMessage::InvalidHashFormat),
                _ => Err(ErrorMessage::WrongCredentials),
            },
        },
    }
}

/// A login with an unknown email and one whose password the stored hash does not
/// accept fail alike, whatever the password: with `WrongCredentials`, or both with the
/// same complaint about the request.
pub proof fn lemma_login_failures_alike(
    unknown: Seq<UserRecord>,
    known: Seq<UserRecord>,
    email: Seq<char>,
    password: Seq<char>,
    secret: Seq<char>,
    ttl_minutes: i64,
    now: u64,
)
    requires
        email_from(unknown, email, 0) is None,
        email_from(known, email, 0) matches Some(i) && compare_outcome(
            password,
            known[i].password@,
        ) != Ok::<bool, ErrorMessage>(true) && compare_outcome(password, known[i].password@)
            != Err::<bool, ErrorMessage>(ErrorMessage::InvalidHashFormat),
    ensures
        login_outcome(unknown, email, password, secret, ttl_minutes, now) == login_outcome(
            known,
            email,
            password,
            secret,
            ttl_minutes,
            now,
        ),
        login_error(email, password) is None ==> login_outcome(
            unknown,
            email,
            password,
            secret,
            ttl_minutes,
            now,
        ) == Err::<Seq<char>, ErrorMessage>(ErrorMessage::WrongCredentials),
{
}

/// Registering a user, consuming its email-verification token before it expires,
/// and then logging in with the same email and password gives a session token that
/// validates to the new user's id; the user is then verified.
pub proof fn lemma_register_verify_login(
    users: Seq<UserRecord>,
    id: String,
    name: String,
    email: String,
    hashed: String,
    token: String,
    password: Seq<char>,
    registered_at: u64,
    verified_at: u64,
    secret: Seq<char>,
    ttl_minutes: i64,
    login_at: u64,
)
    requires
        email_from(users, email@, 0) is None,
        crate::store::holder_from(users, token@, Purpose::EmailVerification, 0) is None,
        compare_outcome(password, hashed@) == Ok::<bool, ErrorMessage>(true),
        login_error(email@, password) is None,
        verified_at <= later_by(registered_at, EMAIL_TOKEN_TTL_SECONDS),
        0 <= ttl_minutes,
        login_at <= i64::MAX,
        id@.len() <= u64::MAX,
    ensures
        ({
            let registered = users.push(
                new_record(
                    id,
                    name,
                    email,
                    hashed,
                    token,
                    later_by(registered_at, EMAIL_TOKEN_TTL_SECONDS),
                    stamp_of(users, registered_at),
                ),
            );
            let (verified, outcome) = consume_outcome(
                registered,
                token@,
                Purpose::EmailVerification,
                verified_at,
            );
            let session = issued_token(id@, secret, ttl_minutes, login_at);
            &&& outcome == Ok::<int, ErrorMessage>(users.len() as int)
            &&& verified[users.len() as int].verified
            &&& login_outcome(verified, email@, password, secret, ttl_minutes, login_at) == Ok::<
                Seq<char>,
                ErrorMessage,
            >(session)
            &&& validation_of(session, secret, login_at) == Ok::<Seq<char>, ErrorMessage>(id@)
        }),
{
    let n = users.len() as int;
    let registered = users.push(
        new_record(
            id,
            name,
            email,
            hashed,
            token,
            later_by(registered_at, EMAIL_TOKEN_TTL_SECONDS),
            stamp_of(users, registered_at),
        ),
    );
    assert forall|j: int| 0 <= j < registered.len() && j != n implies !crate::store::holds(
        #[trigger] registered[j],
        token@,
        Purpose::EmailVerification,
    ) by {
        assert(registered[j] == users[j]);
        if crate::store::holds(users[j], token@, Purpose::EmailVerification) {
            crate::store::lemma_holder_none_contra(users, token@, Purpose::EmailVerification, j);
        }
    }
    crate::store::lemma_holder_is(registered, token@, Purpose::EmailVerification, n, 0);
    let verified = consume_outcome(registered, token@, Purpose::EmailVerification, verified_at).0;
    crate::store::lemma_email_none(users, email@, 0);
    assert forall|j: int| 0 <= j < n implies (#[trigger] verified[j]).email@ != email@ by {
        assert(verified[j] == users[j]);
    }
    crate::store::lemma_email_is(verified, email@, n, 0);
    crate::token::lemma_token_round_trip(id@, secret, ttl_minutes, login_at, login_at);
}

/// Logs in at time `now`: checks the request, finds the user by email, checks the
/// password against the stored hash, and issues a session
/// token for the user's id, signed with `secret` and valid for `ttl_minutes`.
pub fn login_with(
    store: &UserStore,
    body: &LoginUserDto,
    secret: &str,
    ttl_minutes: i64,
    now: u64,
) -> (r: Result<String, ErrorMessage>)
    ensures
        match login_outcome(store.users@, body.email@, body.password@, secret@, ttl_minutes, now) {
            Ok(t) => r is Ok && r->Ok_0@ == t,
            Err(e) => r == Err::<String, ErrorMessage>(e),
        },
{
    body.validate()?;
    let i = match store.find_by_email(body.email.as_str()) {
        Some(i) => i,
        None => return Err(ErrorMessage::WrongCredentials),
    };
    proof {
        crate::store::lemma_email_some(store.users@, body.email@, 0);
    }
    let user = &store.users[i];
    match compare(body.password.as_str(), user.password.as_str()) {
        Ok(true) => Ok(issue_at(user.id.as_str(), secret, ttl_minutes, now)),
        Err(ErrorMessage::InvalidHashFormat) => Err(ErrorMessage::InvalidHashFormat),
        _ => Err(ErrorMessage::WrongCredentials),
    }
}

/// Logs in now; see `login_with`.
pub fn login(store: &UserStore, body: &LoginUserDto, secret: &str, ttl_minutes: i64) -> (r: Result<
    String,
    ErrorMessage,
>)
    ensures
        exists|now: u64|
            match #[trigger] login_outcome(
                store.users@,
                body.email@,
                body.password@,
                secret@,
                ttl_minutes,
                now,
            ) {
                Ok(t) => r is Ok && r->Ok_0@ == t,
                Err(e) => r == Err::<String, ErrorMessage>(e),
            },
{
    login_with(store, body, secret, ttl_minutes, now_seconds())
}

/// Registers a user at time `now` under the id `id`, with the password hashed under
/// `salt` and the email-verification token `token`, valid for 24 hours; returns the
/// token. The store is left as it was on any failure.
pub fn register_with(
    store: &mut UserStore,
    body: &RegisterUserDto,
    id: String,
    token: String,
    salt: &str,
    now: u64,
) -> (r: Result<String, ErrorMessage>)
    ensures
        r is Err ==> final(store).users@ == old(store).users@,
        register_error(body.name@, body.email@, body.password@, body.confirm_password@) matches Some(
            e,
        ) ==> r == Err::<String, ErrorMessage>(e),
        register_error(body.name@, body.email@, body.password@, body.confirm_password@) is None
            ==> match password_length_error(
            body.password@.len(),
            encode_utf8(body.password@).len(),
        ) {
            Some(e) => r == Err::<String, ErrorMessage>(e),
            None => match argon2_phc_of(body.password@, salt@) {
                None => r == Err::<String, ErrorMessage>(ErrorMessage::HashingError),
                Some(h) => if email_from(old(store).users@, body.email@, 0) is Some {
                    r == Err::<String, ErrorMessage>(ErrorMessage::EmailExists)
                } else if id_from(old(store).users@, id@, 0) is Some || crate::store::holder_from(
                    old(store).users@,
                    token@,
                    Purpose::EmailVerification,
                    0,
                ) is Some {
                    r == Err::<String, ErrorMessage>(ErrorMessage::ServerError)
                } else {
                    r is Ok && r->Ok_0@ == token@ && exists|hashed: String|
                        hashed@ == h && compare_outcome(body.password@, hashed@) == Ok::<
                            bool,
                            ErrorMessage,
                        >(true) && final(store).users@ == old(store).users@.push(
                            #[trigger] new_record(
                                id,
                                body.name,
                                body.email,
                                hashed,
                                token,
                                later_by(now, EMAIL_TOKEN_TTL_SECONDS),
                                stamp_of(old(store).users@, now),
                            ),
                        )
                },
            },
        },
        (register_error(body.name@, body.email@, body.password@, body.confirm_password@) is None && password_length_error(body.password@.len(), encode_utf8(body.password@).len()) is None && salt@.len() == 32 && all_hex(salt@)) ==> argon2_phc_of(
            body.password@,
            salt@,
        ) is Some,
        old(store).wf() ==> final(store).wf(),
{
    body.validate()?;
    let hashed = hash_with_salt(body.password.as_str(), salt)?;
    let out = token.clone();
    let expires_at = crate::store::saturating_later(now, EMAIL_TOKEN_TTL_SECONDS);
    let ghost h = hashed;
    store.insert_user(id, body.name.clone(), body.email.clone(), hashed, token, expires_at, now)?;
    assert(final(store).users@ == old(store).users@.push(
        new_record(
            id,
            body.name,
            body.email,
            h,
            token,
            later_by(now, EMAIL_TOKEN_TTL_SECONDS),
            stamp_of(old(store).users@, now),
        ),
    ));
    Ok(out)
}

/// Registers a user now, with a fresh random id, salt and verification token; see
/// `register_with`.
pub fn register(store: &mut UserStore, body: &RegisterUserDto) -> (r: Result<String, ErrorMessage>)
    ensures
        r is Err ==> final(store).users@ == old(store).users@,
        register_error(body.name@, body.email@, body.password@, body.confirm_password@) matches Some(
            e,
        ) ==> r == Err::<String, ErrorMessage>(e),
        register_error(body.name@, body.email@, body.password@, body.confirm_password@) is None ==> match password_length_error(
            body.password@.len(),
            encode_utf8(body.password@).len(),
        ) {
            Some(e) => r == Err::<String, ErrorMessage>(e),
            None => true,
        },
        (register_error(body.name@, body.email@, body.password@, body.confirm_password@) is None
            && password_length_error(body.password@.len(), encode_utf8(body.password@).len())
            is None && r is Err) ==> (r->Err_0 == ErrorMessage::EmailExists || r->Err_0
            == ErrorMessage::ServerError),
        r is Ok ==> final(store).users@ == old(store).users@.push(final(store).users@.last()) && ({
            let u = final(store).users@.last();
            &&& u.email == body.email
            &&& u.name == body.name
            &&& !u.verified
            &&& u.role == UserRole::User
            &&& u.reset_token is None
            &&& u.created_at == u.updated_at
            &&& compare_outcome(body.password@, u.password@) == Ok::<bool, ErrorMessage>(true)
            &&& u.verification_token matches Some(pt) && pt.value@ == r->Ok_0@ && exists|now: u64|
                u.created_at == stamp_of(old(store).users@, now) && #[trigger] later_by(
                    now,
                    EMAIL_TOKEN_TTL_SECONDS,
                ) == pt.expires_at
        }),
        email_from(old(store).users@, body.email@, 0) is Some ==> r is Err,
        (register_error(body.name@, body.email@, body.password@, body.confirm_password@) is None && password_length_error(body.password@.len(), encode_utf8(body.password@).len()) is None && email_from(old(store).users@, body.email@, 0) is Some) ==> r
            == Err::<String, ErrorMessage>(ErrorMessage::EmailExists),
        (register_error(body.name@, body.email@, body.password@, body.confirm_password@) is None && password_length_error(body.password@.len(), encode_utf8(body.password@).len()) is None && old(store).users@.len() == 0) ==> r is Ok,
        old(store).wf() ==> final(store).wf(),
{
    let id = new_uuid();
    let token = new_uuid();
    let salt = new_salt();
    register_with(store, body, id, token, salt.as_str(), now_seconds())
}

/// Verifies an email at time `now` by consuming its verification token: the id of
/// the user now verified, `TokenNotProvided` for an empty token, or the error of
/// consuming it.
pub fn verify_email_with(store: &mut UserStore, token: &str, now: u64) -> (r: Result<
    String,
    ErrorMessage,
>)
    ensures
        token@.len() == 0 ==> r == Err::<String, ErrorMessage>(ErrorMessage::TokenNotProvided)
            && final(store).users@ == old(store).users@,
        token@.len() > 0 ==> final(store).users@ == consume_outcome(
            old(store).users@,
            token@,
            Purpose::EmailVerification,
            now,
        ).0 && match consume_outcome(
            old(store).users@,
            token@,
            Purpose::EmailVerification,
            now,
        ).1 {
            Ok(i) => r is Ok && r->Ok_0@ == old(store).users@[i].id@,
            Err(e) => r == Err::<String, ErrorMessage>(e),
        },
        old(store).wf() ==> final(store).wf(),
{
    if token.is_empty() {
        return Err(ErrorMessage::TokenNotProvided);
    }
    store.consume(token, Purpose::EmailVerification, now)
}

/// Verifies an email now; see `verify_email_with`.
pub fn verify_email(store: &mut UserStore, token: &str) -> (r: Result<String, ErrorMessage>)
    ensures
        token@.len() == 0 ==> r == Err::<String, ErrorMessage>(ErrorMessage::TokenNotProvided)
            && final(store).users@ == old(store).users@,
        token@.len() > 0 ==> exists|now: u64|
            final(store).users@ == (#[trigger] consume_outcome(
                old(store).users@,
                token@,
                Purpose::EmailVerification,
                now,
            )).0 && match consume_outcome(
                old(store).users@,
                token@,
                Purpose::EmailVerification,
                now,
            ).1 {
                Ok(i) => r is Ok && r->Ok_0@ == old(store).users@[i].id@,
                Err(e) => r == Err::<String, ErrorMessage>(e),
            },
        old(store).wf() ==> final(store).wf(),
{
    verify_email_with(store, token, now_seconds())
}

/// Starts a password reset at time `now`: the user with the given email gets the
/// pending reset token `token`, valid for 30 minutes, which is returned.
pub fn forgot_password_with(
    store: &mut UserStore,
    body: &ForgotPasswordRequestDto,
    token: String,
    now: u64,
) -> (r: Result<String, ErrorMessage>)
    ensures
        !email_valid_of(body.email@) ==> r == Err::<String, ErrorMessage>(
            ErrorMessage::InvalidEmail,
        ) && final(store).users@ == old(store).users@,
        email_valid_of(body.email@) ==> match email_from(old(store).users@, body.email@, 0) {
            None => r == Err::<String, ErrorMessage>(ErrorMessage::UserNoLongerExist)
                && final(store).users@ == old(store).users@,
            Some(i) => match generate_outcome(
                old(store).users@,
                old(store).users@[i].id@,
                Purpose::PasswordReset,
                token,
                later_by(now, RESET_TOKEN_TTL_SECONDS),
            ) {
                Ok(users) => r is Ok && r->Ok_0@ == token@ && final(store).users@ == users,
                Err(e) => r == Err::<String, ErrorMessage>(e) && final(store).users@ == old(store).users@,
            },
        },
        old(store).wf() ==> final(store).wf(),
{
    if !crate::dtos::email_is_valid(body.email.as_str()) {
        return Err(ErrorMessage::InvalidEmail);
    }
    let i = match store.find_by_email(body.email.as_str()) {
        Some(i) => i,
        None => return Err(ErrorMessage::UserNoLongerExist),
    };
    proof {
        crate::store::lemma_email_some(store.users@, body.email@, 0);
    }
    let id = store.users[i].id.clone();
    let out = token.clone();
    let expires_at = crate::store::saturating_later(now, RESET_TOKEN_TTL_SECONDS);
    store.generate_at(id.as_str(), Purpose::PasswordReset, token, expires_at)?;
    Ok(out)
}

/// Completes a password reset at time `now`: checks the request, hashes the new
/// password under `salt`, consumes the reset token, and stores the new hash for its
/// user, whose id is returned.
pub fn reset_password_with(
    store: &mut UserStore,
    body: &ResetPasswordRequestDto,
    salt: &str,
    now: u64,
) -> (r: Result<String, ErrorMessage>)
    ensures
        reset_error(body.token@, body.password@, body.confirm_password@) matches Some(e) ==> r
            == Err::<String, ErrorMessage>(e) && final(store).users@ == old(store).users@,
        reset_error(body.token@, body.password@, body.confirm_password@) is None ==> match password_length_error(
            body.password@.len(),
            encode_utf8(body.password@).len(),
        ) {
            Some(e) => r == Err::<String, ErrorMessage>(e) && final(store).users@ == old(store).users@,
            None => true,
        },
        (reset_error(body.token@, body.password@, body.confirm_password@) is None
            && password_length_error(body.password@.len(), encode_utf8(body.password@).len())
            is None) ==> match argon2_phc_of(body.password@, salt@) {
            None => r == Err::<String, ErrorMessage>(ErrorMessage::HashingError) && final(store).users@
                == old(store).users@,
            Some(h) => reset_done(old(store).users@, final(store).users@, body.token@, body.password@, now, r)
                && (r is Ok ==> final(store).users@[consume_outcome(
                old(store).users@,
                body.token@,
                Purpose::PasswordReset,
                now,
            ).1->Ok_0].password@ == h),
        },
        (reset_error(body.token@, body.password@, body.confirm_password@) is None && password_length_error(body.password@.len(), encode_utf8(body.password@).len()) is None && salt@.len() == 32 && all_hex(salt@)) ==> argon2_phc_of(
            body.password@,
            salt@,
        ) is Some,
        old(store).wf() ==> final(store).wf(),
{
    body.validate()?;
    if let Some(e) = check_length(body.password.as_str()) {
        return Err(e);
    }
    let hashed = hash_with_salt(body.password.as_str(), salt)?;
    let ghost before = store.users@;
    let i = store.take_token(body.token.as_str(), Purpose::PasswordReset, now)?;
    proof {
        crate::store::lemma_holder_some(before, body.token@, Purpose::PasswordReset, 0);
    }
    let id = store.users[i].id.clone();
    store.update_password(i, hashed, now);
    Ok(id)
}

/// What a reset whose new password was hashed leaves: on success, the user `i` that
/// held the reset token has it consumed and its password replaced, at `now`, by a hash
/// that `compare` accepts for the new password, and its id is returned; on failure,
/// the store as consuming the token left it.
pub open spec fn reset_done(
    before: Seq<UserRecord>,
    after: Seq<UserRecord>,
    token: Seq<char>,
    password: Seq<char>,
    now: u64,
    r: Result<String, ErrorMessage>,
) -> bool {
    let (consumed, outcome) = consume_outcome(before, token, Purpose::PasswordReset, now);
    match outcome {
        Ok(i) => r is Ok && r->Ok_0@ == before[i].id@ && 0 <= i < after.len() && after
            == consumed.update(
            i,
            UserRecord { password: after[i].password, updated_at: now, ..consumed[i] },
        ) && compare_outcome(password, after[i].password@) == Ok::<bool, ErrorMessage>(true),
        Err(e) => r == Err::<String, ErrorMessage>(e) && after == consumed,
    }
}

/// Completes a password reset now, with a fresh random salt; see
/// `reset_password_with`.
pub fn reset_password(store: &mut UserStore, body: &ResetPasswordRequestDto) -> (r: Result<
    String,
    ErrorMessage,
>)
    ensures
        reset_error(body.token@, body.password@, body.confirm_password@) matches Some(e) ==> r
            == Err::<String, ErrorMessage>(e) && final(store).users@ == old(store).users@,
        reset_error(body.token@, body.password@, body.confirm_password@) is None ==> match password_length_error(
            body.password@.len(),
            encode_utf8(body.password@).len(),
        ) {
            Some(e) => r == Err::<String, ErrorMessage>(e) && final(store).users@ == old(store).users@,
            None => true,
        },
        r is Ok ==> exists|now: u64|
            #[trigger] reset_done(
                old(store).users@,
                final(store).users@,
                body.token@,
                body.password@,
                now,
                r,
            ),
        r is Err ==> final(store).users@ == old(store).users@ || exists|now: u64|
            #[trigger] reset_done(
                old(store).users@,
                final(store).users@,
                body.token@,
                body.password@,
                now,
                r,
            ),
        (reset_error(body.token@, body.password@, body.confirm_password@) is None && password_length_error(body.password@.len(), encode_utf8(body.password@).len()) is None) ==> exists|now: u64|
            #[trigger] reset_done(
                old(store).users@,
                final(store).users@,
                body.token@,
                body.password@,
                now,
                r,
            ),
        old(store).wf() ==> final(store).wf(),
{
    let salt = new_salt();
    reset_password_with(store, body, salt.as_str(), now_seconds())
}

} // verus!

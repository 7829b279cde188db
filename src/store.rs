use vstd::prelude::*;
use crate::encoding::str_eq;
use crate::errors::ErrorMessage;
use crate::sources::{new_uuid, now_seconds};

verus! {

/// What a single-use token is for.
#[derive(Debug, Clone, Copy, PartialEq, Eq, Structural)]
pub enum Purpose {
    EmailVerification,
    PasswordReset,
}

/// A user's role.
#[derive(Debug, Clone, Copy, PartialEq, Eq, Structural)]
pub enum UserRole {
    Admin,
    User,
}

impl UserRole {
    /// The role's name as stored.
    pub fn to_str(&self) -> (r: &'static str)
        ensures
            *self == UserRole::Admin ==> r@ == "admin"@,
            *self == UserRole::User ==> r@ == "user"@,
    {
        match self {
            UserRole::Admin => "admin",
            UserRole::User => "user",
        }
    }
}

/// An issued, unconsumed single-use token and its expiry (seconds since the epoch).
pub struct PendingToken {
    pub value: String,
    pub expires_at: u64,
}

/// What the store holds of one user.
pub struct UserRecord {
    pub id: String,
    pub name: String,
    pub email: String,
    pub password: String,
    pub verified: bool,
    pub role: UserRole,
    pub verification_token: Option<PendingToken>,
    pub reset_token: Option<PendingToken>,
    /// When the user was stored, in seconds since the epoch.
    pub created_at: u64,
    /// When the user's name, role or password last changed, in seconds since the epoch.
    pub updated_at: u64,
}

/// The users, oldest first.
pub struct UserStore {
    pub users: Vec<UserRecord>,
}

/// The token slot of `u` for `p`.
pub open spec fn slot(u: UserRecord, p: Purpose) -> Option<PendingToken> {
    match p {
        Purpose::EmailVerification => u.verification_token,
        Purpose::PasswordReset => u.reset_token,
    }
}

/// `u` with its token slot for `p` set to `t`.
pub open spec fn with_slot(u: UserRecord, p: Purpose, t: Option<PendingToken>) -> UserRecord {
    match p {
        Purpose::EmailVerification => UserRecord { verification_token: t, ..u },
        Purpose::PasswordReset => UserRecord { reset_token: t, ..u },
    }
}

/// Whether `u` holds the pending token `t` for `p`.
pub open spec fn holds(u: UserRecord, t: Seq<char>, p: Purpose) -> bool {
    slot(u, p) matches Some(pt) && pt.value@ == t
}

/// The first user from index `i` on who holds the pending token `t` for `p`.
pub open spec fn holder_from(users: Seq<UserRecord>, t: Seq<char>, p: Purpose, i: int) -> Option<
    int,
>
    decreases users.len() - i,
{
    if i < 0 || i >= users.len() {
        None
    } else if holds(users[i], t, p) {
        Some(i)
    } else {
        holder_from(users, t, p, i + 1)
    }
}

/// The first user from index `i` on with email `e`.
pub open spec fn email_from(users: Seq<UserRecord>, e: Seq<char>, i: int) -> Option<int>
    decreases users.len() - i,
{
    if i < 0 || i >= users.len() {
        None
    } else if users[i].email@ == e {
        Some(i)
    } else {
        email_from(users, e, i + 1)
    }
}

/// `Some` of the text of `o`, where `o` is given.
pub open spec fn given(o: Option<&str>) -> Option<Seq<char>> {
    match o {
        Some(s) => Some(s@),
        None => None,
    }
}

/// Whether `u` meets every filter that is given: its id, name and email equal to
/// the given ones, and the given email-verification token pending for it.
pub open spec fn meets(
    u: UserRecord,
    id: Option<Seq<char>>,
    name: Option<Seq<char>>,
    email: Option<Seq<char>>,
    token: Option<Seq<char>>,
) -> bool {
    &&& (id matches Some(x) ==> u.id@ == x)
    &&& (name matches Some(x) ==> u.name@ == x)
    &&& (email matches Some(x) ==> u.email@ == x)
    &&& (token matches Some(x) ==> holds(u, x, Purpose::EmailVerification))
}

/// The first user from index `i` on who meets every given filter.
pub open spec fn meets_from(
    users: Seq<UserRecord>,
    id: Option<Seq<char>>,
    name: Option<Seq<char>>,
    email: Option<Seq<char>>,
    token: Option<Seq<char>>,
    i: int,
) -> Option<int>
    decreases users.len() - i,
{
    if i < 0 || i >= users.len() {
        None
    } else if meets(users[i], id, name, email, token) {
        Some(i)
    } else {
        meets_from(users, id, name, email, token, i + 1)
    }
}

/// The first user from index `i` on with id `id`.
pub open spec fn id_from(users: Seq<UserRecord>, id: Seq<char>, i: int) -> Option<int>
    decreases users.len() - i,
{
    if i < 0 || i >= users.len() {
        None
    } else if users[i].id@ == id {
        Some(i)
    } else {
        id_from(users, id, i + 1)
    }
}

/// No two users hold the same pending token for the same purpose.
pub open spec fn tokens_unique(users: Seq<UserRecord>) -> bool {
    forall|i: int, j: int, p: Purpose|
        0 <= i < users.len() && 0 <= j < users.len() && i != j && (#[trigger] slot(users[i], p))
            is Some && (#[trigger] slot(users[j], p)) is Some ==> slot(users[i], p)->Some_0.value@
            != slot(users[j], p)->Some_0.value@
}

/// `u` after its token for `p` was used: the slot is emptied, and an email
/// verification marks the account verified.
pub open spec fn after_use(u: UserRecord, p: Purpose) -> UserRecord {
    match p {
        Purpose::EmailVerification => UserRecord { verified: true, ..with_slot(u, p, None) },
        Purpose::PasswordReset => with_slot(u, p, None),
    }
}

/// The users after consuming `t` for `p` at `now`, and the index of the user it
/// belonged to, or why it was refused.
pub open spec fn consume_outcome(users: Seq<UserRecord>, t: Seq<char>, p: Purpose, now: u64) -> (
    Seq<UserRecord>,
    Result<int, ErrorMessage>,
) {
    match holder_from(users, t, p, 0) {
        None => (users, Err(ErrorMessage::InvalidToken)),
        Some(i) => if now > slot(users[i], p)->Some_0.expires_at {
            (users.update(i, with_slot(users[i], p, None)), Err(ErrorMessage::TokenExpired))
        } else {
            (users.update(i, after_use(users[i], p)), Ok(i))
        },
    }
}

/// The users after a new token `value` for `p`, expiring at `expires_at`, was
/// given to the user with id `id`, or why not.
pub open spec fn generate_outcome(
    users: Seq<UserRecord>,
    id: Seq<char>,
    p: Purpose,
    value: String,
    expires_at: u64,
) -> Result<Seq<UserRecord>, ErrorMessage> {
    match id_from(users, id, 0) {
        None => Err(ErrorMessage::UserNoLongerExist),
        Some(i) => if holder_from(users, value@, p, 0) is Some {
            Err(ErrorMessage::ServerError)
        } else {
            Ok(
                users.update(
                    i,
                    with_slot(users[i], p, Some(PendingToken { value, expires_at })),
                ),
            )
        },
    }
}

/// No two users share an email.
pub open spec fn emails_unique(users: Seq<UserRecord>) -> bool {
    forall|i: int, j: int|
        0 <= i < users.len() && 0 <= j < users.len() && i != j ==> (#[trigger] users[i]).email@
            != (#[trigger] users[j]).email@
}

/// Users stand in order of creation time, oldest first.
pub open spec fn created_ordered(users: Seq<UserRecord>) -> bool {
    forall|i: int, j: int|
        0 <= i <= j < users.len() ==> (#[trigger] users[i]).created_at <= (#[trigger] users[j]).created_at
}

/// The creation time given to a user stored at `now` after `users`: `now`, or the
/// newest user's creation time where the clock reads earlier.
pub open spec fn stamp_of(users: Seq<UserRecord>, now: u64) -> u64 {
    if users.len() > 0 && users.last().created_at > now {
        users.last().created_at
    } else {
        now
    }
}

/// Changes that keep every email and creation time keep those two parts of the
/// invariant.
proof fn lemma_kept_fields(before: Seq<UserRecord>, after: Seq<UserRecord>)
    requires
        after.len() == before.len(),
        forall|j: int|
            0 <= j < after.len() ==> (#[trigger] after[j]).email == before[j].email
                && after[j].created_at == before[j].created_at,
    ensures
        emails_unique(before) ==> emails_unique(after),
        created_ordered(before) ==> created_ordered(after),
{
    if emails_unique(before) {
        assert forall|i: int, j: int|
            0 <= i < after.len() && 0 <= j < after.len() && i != j implies (#[trigger] after[i]).email@
            != (#[trigger] after[j]).email@ by {
            assert(before[i].email@ != before[j].email@);
        }
    }
    if created_ordered(before) {
        assert forall|i: int, j: int|
            0 <= i <= j < after.len() implies (#[trigger] after[i]).created_at <= (
            #[trigger] after[j]).created_at by {
            assert(before[i].created_at <= before[j].created_at);
        }
    }
}

pub proof fn lemma_email_none(users: Seq<UserRecord>, e: Seq<char>, i: int)
    requires
        0 <= i,
        email_from(users, e, i) is None,
    ensures
        forall|j: int| i <= j < users.len() ==> (#[trigger] users[j]).email@ != e,
    decreases users.len() - i,
{
    if i < users.len() {
        lemma_email_none(users, e, i + 1);
    }
}

pub proof fn lemma_email_is(users: Seq<UserRecord>, e: Seq<char>, k: int, i: int)
    requires
        0 <= i <= k < users.len(),
        users[k].email@ == e,
        forall|j: int| 0 <= j < k ==> (#[trigger] users[j]).email@ != e,
    ensures
        email_from(users, e, i) == Some(k),
    decreases k - i,
{
    if i < k {
        lemma_email_is(users, e, k, i + 1);
    }
}

/// Changing one user without adding a pending token keeps pending tokens unique.
proof fn lemma_unique_after_update(before: Seq<UserRecord>, after: Seq<UserRecord>, i: int)
    requires
        tokens_unique(before),
        0 <= i < before.len(),
        after.len() == before.len(),
        forall|j: int| 0 <= j < before.len() && j != i ==> #[trigger] after[j] == before[j],
        forall|p: Purpose| (#[trigger] slot(after[i], p)) is Some ==> slot(after[i], p) == slot(
            before[i],
            p,
        ),
    ensures
        tokens_unique(after),
{
    assert forall|a: int, b: int, p: Purpose|
        0 <= a < after.len() && 0 <= b < after.len() && a != b && (#[trigger] slot(after[a], p))
            is Some && (#[trigger] slot(after[b], p)) is Some implies slot(after[a], p)->Some_0.value@
        != slot(after[b], p)->Some_0.value@ by {
        if a != i {
            assert(after[a] == before[a]);
        }
        if b != i {
            assert(after[b] == before[b]);
        }
    }
}

proof fn lemma_holder_none(users: Seq<UserRecord>, t: Seq<char>, p: Purpose, i: int)
    requires
        0 <= i,
        forall|j: int| i <= j < users.len() ==> !holds(#[trigger] users[j], t, p),
    ensures
        holder_from(users, t, p, i) is None,
    decreases users.len() - i,
{
    if i < users.len() {
        lemma_holder_none(users, t, p, i + 1);
    }
}

pub proof fn lemma_holder_some(users: Seq<UserRecord>, t: Seq<char>, p: Purpose, i: int)
    requires
        0 <= i,
        holder_from(users, t, p, i) is Some,
    ensures
        ({
            let k = holder_from(users, t, p, i)->Some_0;
            i <= k < users.len() && holds(users[k], t, p)
        }),
    decreases users.len() - i,
{
    if i < users.len() && !holds(users[i], t, p) {
        lemma_holder_some(users, t, p, i + 1);
    }
}

proof fn lemma_id_some(users: Seq<UserRecord>, id: Seq<char>, i: int)
    requires
        0 <= i,
        id_from(users, id, i) is Some,
    ensures
        ({
            let k = id_from(users, id, i)->Some_0;
            i <= k < users.len() && users[k].id@ == id
        }),
    decreases users.len() - i,
{
    if i < users.len() && users[i].id@ != id {
        lemma_id_some(users, id, i + 1);
    }
}

pub proof fn lemma_email_some(users: Seq<UserRecord>, e: Seq<char>, i: int)
    requires
        0 <= i,
        email_from(users, e, i) is Some,
    ensures
        ({
            let k = email_from(users, e, i)->Some_0;
            i <= k < users.len() && users[k].email@ == e
        }),
    decreases users.len() - i,
{
    if i < users.len() && users[i].email@ != e {
        lemma_email_some(users, e, i + 1);
    }
}

/// Once a token has been consumed, consuming it again fails with `InvalidToken`.
pub proof fn lemma_consume_single_use(
    users: Seq<UserRecord>,
    t: Seq<char>,
    p: Purpose,
    now: u64,
    later: u64,
)
    requires
        tokens_unique(users),
        consume_outcome(users, t, p, now).1 is Ok,
    ensures
        consume_outcome(consume_outcome(users, t, p, now).0, t, p, later).1 == Err::<
            int,
            ErrorMessage,
        >(ErrorMessage::InvalidToken),
{
    lemma_holder_some(users, t, p, 0);
    let i = holder_from(users, t, p, 0)->Some_0;
    let after = consume_outcome(users, t, p, now).0;
    assert forall|j: int| 0 <= j < after.len() implies !holds(#[trigger] after[j], t, p) by {
        if j != i {
            assert(after[j] == users[j]);
            if holds(users[j], t, p) {
                assert(slot(users[i], p) is Some && slot(users[j], p) is Some);
            }
        }
    }
    lemma_holder_none(after, t, p, 0);
}

/// A second token generated for the same user and purpose makes the first one
/// unusable: consuming the first then fails with `InvalidToken`.
pub proof fn lemma_generate_supersedes(
    users: Seq<UserRecord>,
    id: Seq<char>,
    p: Purpose,
    first: String,
    first_expiry: u64,
    second: String,
    second_expiry: u64,
    now: u64,
)
    requires
        generate_outcome(users, id, p, first, first_expiry) is Ok,
        generate_outcome(
            generate_outcome(users, id, p, first, first_expiry)->Ok_0,
            id,
            p,
            second,
            second_expiry,
        ) is Ok,
    ensures
        ({
            let once = generate_outcome(users, id, p, first, first_expiry)->Ok_0;
            let twice = generate_outcome(once, id, p, second, second_expiry)->Ok_0;
            &&& consume_outcome(twice, first@, p, now).1 == Err::<int, ErrorMessage>(
                ErrorMessage::InvalidToken,
            )
            &&& now <= second_expiry ==> consume_outcome(twice, second@, p, now).1 == Ok::<
                int,
                ErrorMessage,
            >(id_from(users, id, 0)->Some_0)
        }),
{
    let once = generate_outcome(users, id, p, first, first_expiry)->Ok_0;
    let twice = generate_outcome(once, id, p, second, second_expiry)->Ok_0;
    lemma_id_some(users, id, 0);
    let i = id_from(users, id, 0)->Some_0;
    assert(once[i].id@ == id);
    assert forall|j: int| 0 <= j < once.len() && j != i implies once[j] == users[j] by {}
    if id_from(once, id, 0) != Some(i) {
        lemma_id_first(users, once, id, i, 0);
    }
    assert(holds(once[i], first@, p));
    if second@ == first@ {
        lemma_holder_none_contra(once, first@, p, i);
    }
    assert forall|j: int| 0 <= j < twice.len() implies !holds(#[trigger] twice[j], first@, p) by {
        if j != i {
            assert(twice[j] == users[j]);
            if holds(users[j], first@, p) {
                lemma_holder_none_contra(users, first@, p, j);
            }
        }
    }
    lemma_holder_none(twice, first@, p, 0);
    assert forall|j: int| 0 <= j < twice.len() && j != i implies !holds(
        #[trigger] twice[j],
        second@,
        p,
    ) by {
        assert(twice[j] == once[j]);
        if holds(once[j], second@, p) {
            lemma_holder_none_contra(once, second@, p, j);
        }
    }
    assert(holds(twice[i], second@, p));
    lemma_holder_is(twice, second@, p, i, 0);
}

pub proof fn lemma_holder_is(users: Seq<UserRecord>, t: Seq<char>, p: Purpose, k: int, i: int)
    requires
        0 <= i <= k < users.len(),
        holds(users[k], t, p),
        forall|j: int| 0 <= j < users.len() && j != k ==> !holds(#[trigger] users[j], t, p),
    ensures
        holder_from(users, t, p, i) == Some(k),
    decreases k - i,
{
    if i < k {
        lemma_holder_is(users, t, p, k, i + 1);
    }
}

pub proof fn lemma_holder_none_contra(users: Seq<UserRecord>, t: Seq<char>, p: Purpose, k: int)
    requires
        0 <= k < users.len(),
        holds(users[k], t, p),
    ensures
        holder_from(users, t, p, 0) is Some,
{
    lemma_holder_some_from(users, t, p, k, 0);
}

proof fn lemma_holder_some_from(users: Seq<UserRecord>, t: Seq<char>, p: Purpose, k: int, i: int)
    requires
        0 <= i <= k < users.len(),
        holds(users[k], t, p),
    ensures
        holder_from(users, t, p, i) is Some,
    decreases k - i,
{
    if i < k && !holds(users[i], t, p) {
        lemma_holder_some_from(users, t, p, k, i + 1);
    }
}

proof fn lemma_id_first(old_users: Seq<UserRecord>, new_users: Seq<UserRecord>, id: Seq<char>, k: int, i: int)
    requires
        0 <= i <= k < old_users.len(),
        old_users.len() == new_users.len(),
        id_from(old_users, id, i) == Some(k),
        forall|j: int| 0 <= j < old_users.len() ==> (#[trigger] new_users[j]).id == old_users[j].id,
    ensures
        id_from(new_users, id, i) == Some(k),
    decreases k - i,
{
    assert(new_users[i].id == old_users[i].id);
    assert(new_users[i].id@ == old_users[i].id@);
    if i < k {
        assert(old_users[i].id@ != id);
        assert(id_from(old_users, id, i + 1) == Some(k));
        lemma_id_first(old_users, new_users, id, k, i + 1);
        assert(id_from(new_users, id, i + 1) == Some(k));
    } else if old_users[i].id@ != id {
        lemma_id_some(old_users, id, i + 1);
    }
}

/// The new user record that registration stores.
pub open spec fn new_record(
    id: String,
    name: String,
    email: String,
    password: String,
    token: String,
    expires_at: u64,
    now: u64,
) -> UserRecord {
    UserRecord {
        id,
        name,
        email,
        password,
        verified: false,
        role: UserRole::User,
        verification_token: Some(PendingToken { value: token, expires_at }),
        reset_token: None,
        created_at: now,
        updated_at: now,
    }
}

/// How many users page `page` of `limit` users each shows, out of `n`.
pub open spec fn page_len(n: int, page: int, limit: int) -> int {
    let offset = (page - 1) * limit;
    if offset >= n {
        0
    } else if n - offset < limit {
        n - offset
    } else {
        limit
    }
}

/// `now + seconds`, held within the range of `u64`.
pub open spec fn later_by(now: u64, seconds: u64) -> u64 {
    if now + seconds > u64::MAX {
        u64::MAX
    } else {
        (now + seconds) as u64
    }
}

impl UserStore {
    /// The store's invariant: no pending token is held twice for one purpose, no two
    /// users share an email, and users are kept in order of creation time.
    pub open spec fn wf(&self) -> bool {
        &&& tokens_unique(self.users@)
        &&& emails_unique(self.users@)
        &&& created_ordered(self.users@)
    }

    /// An empty store.
    pub fn new() -> (r: Self)
        ensures
            r.users@.len() == 0,
            r.wf(),
    {
        UserStore { users: Vec::new() }
    }

    /// How many users there are.
    pub fn count_users(&self) -> (r: usize)
        ensures
            r == self.users@.len(),
    {
        self.users.len()
    }

    /// The index of the first user who meets every filter that is given (id, name,
    /// email, pending email-verification token); with no filter, the first user.
    pub fn find_user(
        &self,
        user_id: Option<&str>,
        name: Option<&str>,
        email: Option<&str>,
        token: Option<&str>,
    ) -> (r: Option<usize>)
        ensures
            match r {
                Some(i) => meets_from(
                    self.users@,
                    given(user_id),
                    given(name),
                    given(email),
                    given(token),
                    0,
                ) == Some(i as int),
                None => meets_from(
                    self.users@,
                    given(user_id),
                    given(name),
                    given(email),
                    given(token),
                    0,
                ) is None,
            },
    {
        let mut i: usize = 0;
        while i < self.users.len()
            invariant
                i <= self.users@.len(),
                meets_from(self.users@, given(user_id), given(name), given(email), given(token), 0)
                    == meets_from(
                    self.users@,
                    given(user_id),
                    given(name),
                    given(email),
                    given(token),
                    i as int,
                ),
            decreases self.users@.len() - i,
        {
            if record_meets(&self.users[i], user_id, name, email, token) {
                return Some(i);
            }
            i = i + 1;
        }
        None
    }

    /// The index of the first user with email `email`.
    pub fn find_by_email(&self, email: &str) -> (r: Option<usize>)
        ensures
            match r {
                Some(i) => email_from(self.users@, email@, 0) == Some(i as int),
                None => email_from(self.users@, email@, 0) is None,
            },
    {
        let mut i: usize = 0;
        while i < self.users.len()
            invariant
                i <= self.users@.len(),
                email_from(self.users@, email@, 0) == email_from(self.users@, email@, i as int),
            decreases self.users@.len() - i,
        {
            if str_eq(self.users[i].email.as_str(), email) {
                return Some(i);
            }
            i = i + 1;
        }
        None
    }

    /// The index of the first user with id `id`.
    pub fn find_by_id(&self, id: &str) -> (r: Option<usize>)
        ensures
            match r {
                Some(i) => id_from(self.users@, id@, 0) == Some(i as int),
                None => id_from(self.users@, id@, 0) is None,
            },
    {
        let mut i: usize = 0;
        while i < self.users.len()
            invariant
                i <= self.users@.len(),
                id_from(self.users@, id@, 0) == id_from(self.users@, id@, i as int),
            decreases self.users@.len() - i,
        {
            if str_eq(self.users[i].id.as_str(), id) {
                return Some(i);
            }
            i = i + 1;
        }
        None
    }

    /// The index of the first user holding the pending token `token` for `purpose`.
    pub fn find_by_token(&self, token: &str, purpose: Purpose) -> (r: Option<usize>)
        ensures
            match r {
                Some(i) => holder_from(self.users@, token@, purpose, 0) == Some(i as int),
                None => holder_from(self.users@, token@, purpose, 0) is None,
            },
    {
        let mut i: usize = 0;
        while i < self.users.len()
            invariant
                i <= self.users@.len(),
                holder_from(self.users@, token@, purpose, 0) == holder_from(
                    self.users@,
                    token@,
                    purpose,
                    i as int,
                ),
            decreases self.users@.len() - i,
        {
            let held = match purpose {
                Purpose::EmailVerification => &self.users[i].verification_token,
                Purpose::PasswordReset => &self.users[i].reset_token,
            };
            if let Some(pt) = held {
                if str_eq(pt.value.as_str(), token) {
                    return Some(i);
                }
            }
            i = i + 1;
        }
        None
    }

    /// Stores a new, unverified user whose email-verification token is `token`.
    /// Fails with `EmailExists` where a user has that email, and with `ServerError`
    /// where `token` is already pending for another user.
    pub fn insert_user(
        &mut self,
        id: String,
        name: String,
        email: String,
        password: String,
        token: String,
        expires_at: u64,
        now: u64,
    ) -> (r: Result<(), ErrorMessage>)
        ensures
            email_from(old(self).users@, email@, 0) is Some ==> r == Err::<(), ErrorMessage>(
                ErrorMessage::EmailExists,
            ) && final(self).users@ == old(self).users@,
            email_from(old(self).users@, email@, 0) is None && (id_from(old(self).users@, id@, 0) is Some
                || holder_from(old(self).users@, token@, Purpose::EmailVerification, 0) is Some)
                ==> r == Err::<(), ErrorMessage>(ErrorMessage::ServerError) && final(self).users@
                == old(self).users@,
            email_from(old(self).users@, email@, 0) is None && id_from(old(self).users@, id@, 0) is None
                && holder_from(old(self).users@, token@, Purpose::EmailVerification, 0) is None
                ==> r is Ok && final(self).users@ == old(self).users@.push(
                new_record(id, name, email, password, token, expires_at, stamp_of(old(self).users@, now)),
            ),
            old(self).wf() ==> final(self).wf(),
    {
        if self.find_by_email(email.as_str()).is_some() {
            return Err(ErrorMessage::EmailExists);
        }
        if self.find_by_id(id.as_str()).is_some() {
            return Err(ErrorMessage::ServerError);
        }
        if self.find_by_token(token.as_str(), Purpose::EmailVerification).is_some() {
            return Err(ErrorMessage::ServerError);
        }
        let ghost before = self.users@;
        let n = self.users.len();
        let stamp = if n > 0 && self.users[n - 1].created_at > now {
            self.users[n - 1].created_at
        } else {
            now
        };
        let record = UserRecord {
            id,
            name,
            email,
            password,
            verified: false,
            role: UserRole::User,
            verification_token: Some(PendingToken { value: token, expires_at }),
            reset_token: None,
            created_at: stamp,
            updated_at: stamp,
        };
        self.users.push(record);
        proof {
            let after = self.users@;
            let n = before.len() as int;
            lemma_email_none(before, email@, 0);
            if emails_unique(before) {
                assert forall|a: int, b: int|
                    0 <= a < after.len() && 0 <= b < after.len() && a != b implies (
                    #[trigger] after[a]).email@ != (#[trigger] after[b]).email@ by {
                    if a != n && b != n {
                        assert(before[a].email@ != before[b].email@);
                    }
                }
            }
            if created_ordered(before) {
                assert forall|a: int, b: int|
                    0 <= a <= b < after.len() implies (#[trigger] after[a]).created_at <= (
                    #[trigger] after[b]).created_at by {
                    if b == n && a < n {
                        assert(before[a].created_at <= before[n - 1].created_at);
                    } else if b < n {
                        assert(before[a].created_at <= before[b].created_at);
                    }
                }
            }
            assert forall|j: int| 0 <= j < n implies !holds(
                #[trigger] before[j],
                token@,
                Purpose::EmailVerification,
            ) by {
                if holds(before[j], token@, Purpose::EmailVerification) {
                    lemma_holder_none_contra(before, token@, Purpose::EmailVerification, j);
                }
            }
            if tokens_unique(before) {
                assert forall|i: int, j: int, p: Purpose|
                    0 <= i < after.len() && 0 <= j < after.len() && i != j && (#[trigger] slot(
                        after[i],
                        p,
                    )) is Some && (#[trigger] slot(after[j], p)) is Some implies slot(
                    after[i],
                    p,
                )->Some_0.value@ != slot(after[j], p)->Some_0.value@ by {
                    if i == n {
                        assert(!holds(before[j], token@, Purpose::EmailVerification));
                    } else if j == n {
                        assert(!holds(before[i], token@, Purpose::EmailVerification));
                    } else {
                        assert(after[i] == before[i] && after[j] == before[j]);
                    }
                }
            }
        }
        Ok(())
    }

    /// Gives the user with id `user_id` the pending token `value` for `purpose`,
    /// expiring at `expires_at`; any earlier pending token of that user for that
    /// purpose is dropped.
    pub fn generate_at(&mut self, user_id: &str, purpose: Purpose, value: String, expires_at: u64) -> (r:
        Result<(), ErrorMessage>)
        ensures
            match generate_outcome(old(self).users@, user_id@, purpose, value, expires_at) {
                Ok(users) => r is Ok && final(self).users@ == users,
                Err(e) => r == Err::<(), ErrorMessage>(e) && final(self).users@ == old(self).users@,
            },
            old(self).wf() ==> final(self).wf(),
    {
        let i = match self.find_by_id(user_id) {
            Some(i) => i,
            None => return Err(ErrorMessage::UserNoLongerExist),
        };
        proof {
            lemma_id_some(self.users@, user_id@, 0);
        }
        if self.find_by_token(value.as_str(), purpose).is_some() {
            return Err(ErrorMessage::ServerError);
        }
        let ghost before = self.users@;
        let ghost v = value@;
        let mut u = self.users.remove(i);
        match purpose {
            Purpose::EmailVerification => {
                u.verification_token = Some(PendingToken { value, expires_at });
            },
            Purpose::PasswordReset => {
                u.reset_token = Some(PendingToken { value, expires_at });
            },
        }
        self.users.insert(i, u);
        proof {
            let after = self.users@;
            assert(after =~= before.update(
                i as int,
                with_slot(before[i as int], purpose, Some(PendingToken { value, expires_at })),
            ));
            assert forall|j: int| 0 <= j < before.len() implies !holds(
                #[trigger] before[j],
                v,
                purpose,
            ) by {
                if holds(before[j], v, purpose) {
                    lemma_holder_none_contra(before, v, purpose, j);
                }
            }
            assert forall|j: int| 0 <= j < after.len() implies (#[trigger] after[j]).email
                == before[j].email && after[j].created_at == before[j].created_at by {}
            lemma_kept_fields(before, after);
            if tokens_unique(before) {
                assert forall|a: int, b: int, p: Purpose|
                    0 <= a < after.len() && 0 <= b < after.len() && a != b && (#[trigger] slot(
                        after[a],
                        p,
                    )) is Some && (#[trigger] slot(after[b], p)) is Some implies slot(
                    after[a],
                    p,
                )->Some_0.value@ != slot(after[b], p)->Some_0.value@ by {
                    if a == i && p == purpose {
                        assert(!holds(before[b], v, purpose));
                    } else if b == i && p == purpose {
                        assert(!holds(before[a], v, purpose));
                    } else {
                        assert(slot(after[a], p) == slot(before[a], p));
                        assert(slot(after[b], p) == slot(before[b], p));
                    }
                }
            }
        }
        Ok(())
    }

    /// Gives the user with id `user_id` a fresh random pending token for `purpose`,
    /// valid for `ttl_seconds` from now, and returns it.
    pub fn generate(&mut self, user_id: &str, purpose: Purpose, ttl_seconds: u64) -> (r: Result<
        String,
        ErrorMessage,
    >)
        ensures
            match r {
                Ok(t) => exists|value: String, expires_at: u64|
                    value@ == t@ && #[trigger] generate_outcome(
                        old(self).users@,
                        user_id@,
                        purpose,
                        value,
                        expires_at,
                    ) == Ok::<Seq<UserRecord>, ErrorMessage>(final(self).users@),
                Err(e) => final(self).users@ == old(self).users@ && exists|
                    value: String,
                    expires_at: u64,
                | #[trigger] generate_outcome(
                    old(self).users@,
                    user_id@,
                    purpose,
                    value,
                    expires_at,
                ) == Err::<Seq<UserRecord>, ErrorMessage>(e),
            },
            id_from(old(self).users@, user_id@, 0) is None ==> r == Err::<String, ErrorMessage>(
                ErrorMessage::UserNoLongerExist,
            ),
            old(self).wf() ==> final(self).wf(),
    {
        let value = new_uuid();
        let expires_at = saturating_later(now_seconds(), ttl_seconds);
        let out = value.clone();
        match self.generate_at(user_id, purpose, value, expires_at) {
            Ok(()) => Ok(out),
            Err(e) => Err(e),
        }
    }

    /// Consumes the pending token `token` for `purpose` at time `now`: the id of the
    /// user it belonged to, `InvalidToken` where no user holds it, or `TokenExpired`
    /// where it is past its expiry (it is then dropped). A used email-verification
    /// token marks its user verified.
    pub fn consume(&mut self, token: &str, purpose: Purpose, now: u64) -> (r: Result<
        String,
        ErrorMessage,
    >)
        ensures
            final(self).users@ == consume_outcome(old(self).users@, token@, purpose, now).0,
            match consume_outcome(old(self).users@, token@, purpose, now).1 {
                Ok(i) => r is Ok && r->Ok_0@ == old(self).users@[i].id@,
                Err(e) => r == Err::<String, ErrorMessage>(e),
            },
            old(self).wf() ==> final(self).wf(),
    {
        let ghost before = self.users@;
        match self.take_token(token, purpose, now) {
            Ok(i) => {
                proof {
                    lemma_holder_some(before, token@, purpose, 0);
                }
                assert(self.users@[i as int].id == before[i as int].id);
                Ok(self.users[i].id.clone())
            },
            Err(e) => Err(e),
        }
    }

    /// As `consume`, giving the index of the user instead of the id.
    pub fn take_token(&mut self, token: &str, purpose: Purpose, now: u64) -> (r: Result<
        usize,
        ErrorMessage,
    >)
        ensures
            final(self).users@ == consume_outcome(old(self).users@, token@, purpose, now).0,
            match r {
                Ok(i) => consume_outcome(old(self).users@, token@, purpose, now).1 == Ok::<
                    int,
                    ErrorMessage,
                >(i as int),
                Err(e) => consume_outcome(old(self).users@, token@, purpose, now).1 == Err::<
                    int,
                    ErrorMessage,
                >(e),
            },
            r is Ok ==> r->Ok_0 < final(self).users@.len(),
            old(self).wf() ==> final(self).wf(),
    {
        let i = match self.find_by_token(token, purpose) {
            Some(i) => i,
            None => return Err(ErrorMessage::InvalidToken),
        };
        proof {
            lemma_holder_some(self.users@, token@, purpose, 0);
            assert(slot(self.users@[i as int], purpose) is Some);
        }
        let ghost before = self.users@;
        let mut u = self.users.remove(i);
        let expires_at = match purpose {
            Purpose::EmailVerification => u.verification_token.as_ref().unwrap().expires_at,
            Purpose::PasswordReset => u.reset_token.as_ref().unwrap().expires_at,
        };
        let expired = now > expires_at;
        match purpose {
            Purpose::EmailVerification => {
                u.verification_token = None;
                if !expired {
                    u.verified = true;
                }
            },
            Purpose::PasswordReset => {
                u.reset_token = None;
            },
        }
        self.users.insert(i, u);
        proof {
            let after = self.users@;
            if expired {
                assert(after =~= before.update(i as int, with_slot(before[i as int], purpose, None)));
            } else {
                assert(after =~= before.update(i as int, after_use(before[i as int], purpose)));
            }
            assert forall|j: int| 0 <= j < after.len() implies (#[trigger] after[j]).email
                == before[j].email && after[j].created_at == before[j].created_at by {}
            lemma_kept_fields(before, after);
            if tokens_unique(before) {
                lemma_unique_after_update(before, after, i as int);
            }
        }
        if expired {
            Err(ErrorMessage::TokenExpired)
        } else {
            Ok(i)
        }
    }

    /// Replaces the name of the user at `index`, changed at time `now`.
    pub fn update_user_name(&mut self, index: usize, name: String, now: u64)
        requires
            index < old(self).users@.len(),
        ensures
            final(self).users@ == old(self).users@.update(
                index as int,
                UserRecord { name, updated_at: now, ..old(self).users@[index as int] },
            ),
            old(self).wf() ==> final(self).wf(),
    {
        let ghost before = self.users@;
        let mut u = self.users.remove(index);
        u.name = name;
        u.updated_at = now;
        self.users.insert(index, u);
        proof {
            let after = self.users@;
            assert(after =~= before.update(index as int, UserRecord { name, updated_at: now, ..before[index as int] }));
            assert forall|j: int| 0 <= j < after.len() implies (#[trigger] after[j]).email
                == before[j].email && after[j].created_at == before[j].created_at by {}
            lemma_kept_fields(before, after);
            if tokens_unique(before) {
                lemma_unique_after_update(before, after, index as int);
            }
        }
    }

    /// Replaces the role of the user at `index`, changed at time `now`.
    pub fn update_user_role(&mut self, index: usize, role: UserRole, now: u64)
        requires
            index < old(self).users@.len(),
        ensures
            final(self).users@ == old(self).users@.update(
                index as int,
                UserRecord { role, updated_at: now, ..old(self).users@[index as int] },
            ),
            old(self).wf() ==> final(self).wf(),
    {
        let ghost before = self.users@;
        let mut u = self.users.remove(index);
        u.role = role;
        u.updated_at = now;
        self.users.insert(index, u);
        proof {
            let after = self.users@;
            assert(after =~= before.update(index as int, UserRecord { role, updated_at: now, ..before[index as int] }));
            assert forall|j: int| 0 <= j < after.len() implies (#[trigger] after[j]).email
                == before[j].email && after[j].created_at == before[j].created_at by {}
            lemma_kept_fields(before, after);
            if tokens_unique(before) {
                lemma_unique_after_update(before, after, index as int);
            }
        }
    }

    /// The indices of the users on page `page` (counted from 1) of `limit` users
    /// each, newest first: by position, which the invariant keeps in order of
    /// creation time.
    pub fn list_users(&self, page: usize, limit: usize) -> (r: Vec<usize>)
        requires
            page >= 1,
        ensures
            r@.len() == page_len(self.users@.len() as int, page as int, limit as int),
            forall|k: int|
                0 <= k < r@.len() ==> #[trigger] r@[k] == self.users@.len() - 1 - (page - 1)
                    * limit - k,
            self.wf() ==> forall|k: int, l: int|
                0 <= k < l < r@.len() ==> self.users@[#[trigger] r@[k] as int].created_at
                    >= self.users@[#[trigger] r@[l] as int].created_at,
    {
        let n = self.users.len();
        let before_page: u128 = page as u128 - 1;
        assert(before_page * (limit as u128) <= 0xffff_ffff_ffff_ffffu128 * 0xffff_ffff_ffff_ffffu128)
            by (nonlinear_arith)
            requires
                before_page <= 0xffff_ffff_ffff_ffffu128,
                limit <= 0xffff_ffff_ffff_ffffu128,
        ;
        let skip: u128 = before_page * (limit as u128);
        let mut out: Vec<usize> = Vec::new();
        if skip >= n as u128 {
            assert(page_len(n as int, page as int, limit as int) == 0) by (nonlinear_arith)
                requires
                    skip == (page - 1) * limit,
                    skip >= n,
            ;
            return out;
        }
        let offset = skip as usize;
        let count: usize = if n - offset < limit {
            n - offset
        } else {
            limit
        };
        assert(count == page_len(n as int, page as int, limit as int));
        let mut k: usize = 0;
        while k < count
            invariant
                k <= count,
                offset + count <= n,
                n == self.users@.len(),
                offset == (page - 1) * limit,
                out@.len() == k,
                forall|j: int| 0 <= j < k ==> #[trigger] out@[j] == n - 1 - offset - j,
            decreases count - k,
        {
            out.push(n - 1 - offset - k);
            k = k + 1;
        }
        out
    }

    /// Replaces the stored password hash of the user at `index`, changed at time `now`.
    pub fn update_password(&mut self, index: usize, password: String, now: u64)
        requires
            index < old(self).users@.len(),
        ensures
            final(self).users@ == old(self).users@.update(
                index as int,
                UserRecord { password, updated_at: now, ..old(self).users@[index as int] },
            ),
            old(self).wf() ==> final(self).wf(),
    {
        let ghost before = self.users@;
        let mut u = self.users.remove(index);
        u.password = password;
        u.updated_at = now;
        self.users.insert(index, u);
        proof {
            let after = self.users@;
            assert(after =~= before.update(
                index as int,
                UserRecord { password, updated_at: now, ..before[index as int] },
            ));
            assert forall|j: int| 0 <= j < after.len() implies (#[trigger] after[j]).email
                == before[j].email && after[j].created_at == before[j].created_at by {}
            lemma_kept_fields(before, after);
            if tokens_unique(before) {
                lemma_unique_after_update(before, after, index as int);
            }
        }
    }
}

fn text_matches(filter: Option<&str>, text: &str) -> (r: bool)
    ensures
        r == (given(filter) matches Some(x) ==> text@ == x),
{
    match filter {
        Some(f) => str_eq(f, text),
        None => true,
    }
}

fn record_meets(
    u: &UserRecord,
    user_id: Option<&str>,
    name: Option<&str>,
    email: Option<&str>,
    token: Option<&str>,
) -> (r: bool)
    ensures
        r == meets(*u, given(user_id), given(name), given(email), given(token)),
{
    let token_ok = match token {
        Some(t) => match &u.verification_token {
            Some(pt) => str_eq(pt.value.as_str(), t),
            None => false,
        },
        None => true,
    };
    text_matches(user_id, u.id.as_str()) && text_matches(name, u.name.as_str()) && text_matches(
        email,
        u.email.as_str(),
    ) && token_ok
}

/// `now + seconds`, held within the range of `u64`.
pub fn saturating_later(now: u64, seconds: u64) -> (r: u64)
    ensures
        r == later_by(now, seconds),
{
    now.saturating_add(seconds)
}

} // verus!

//! Account operations: creation, login, the account lifecycle, and changes
//! of permissions, username and password.

use vstd::prelude::*;
use vstd::string::StringExecFns;
use crate::auth::{resolve, token_view, Rejection};
use crate::crypto::{encrypt_pw, insertable, scrypt_hash, scrypt_verifies};
use crate::models::users::{
    found_view, has_id, index_of_id, insert_result, issued_after_insert, lookup_id, lookup_name,
    new_row, rename_result, rows_after_insert, rows_after_rename, views_of, InsertableUser, User,
    UserTable, UserView,
};
use crate::outcome::{
    failure, result_view, result_views, DbError, ErrorKind, Failure, FailureView, SessionAction,
};
use crate::text::option_text;

verus! {

/// What an operation on the user table comes to: its answer, what is to
/// happen to the session token, and the table afterwards.
pub struct Step<T> {
    pub result: Result<T, FailureView>,
    pub session: SessionAction,
    pub rows: Seq<UserView>,
    pub issued: int,
}

/// An answer and a table are those of a step.
pub open spec fn is_step<T>(
    answer: (Result<T, Failure>, SessionAction),
    conn: UserTable,
    step: Step<T>,
) -> bool {
    &&& result_view(answer.0) == step.result
    &&& answer.1 == step.session
    &&& conn.rows() == step.rows
    &&& conn.issued() == step.issued
}

/// The identity of a request, if it has one.
pub open spec fn identity(token: Option<Seq<char>>, rows: Seq<UserView>) -> Option<UserView> {
    match resolve(token, rows) {
        Ok(user) => Some(user),
        Err(_) => None,
    }
}

/// What resolving the token of a request does to the token: a stale one is
/// discarded.
pub open spec fn guard_session(token: Option<Seq<char>>, rows: Seq<UserView>) -> SessionAction {
    match resolve(token, rows) {
        Ok(_) => SessionAction::Keep,
        Err(rejection) => rejection.session,
    }
}

/// The failure of a request that needs an identity and has none. Where
/// storage failed the message says no more than that.
pub open spec fn rejected(rejection: Rejection) -> FailureView {
    if rejection.kind == ErrorKind::Unauthenticated {
        failure(rejection.kind, "You are not logged in"@)
    } else {
        failure(rejection.kind, "An internal server error occurred."@)
    }
}

/// The failure of a request that needs an identity and has none.
pub fn rejection_failure(rejection: Rejection) -> (r: Failure)
    ensures
        r@ == rejected(rejection),
{
    match rejection.kind {
        ErrorKind::Unauthenticated => Failure::new(rejection.kind, "You are not logged in"),
        _ => Failure::new(rejection.kind, "An internal server error occurred."),
    }
}

/// The request to create a user, as contracts see it.
pub struct NewUserView {
    pub username: Seq<char>,
    pub password: Seq<char>,
    pub manage_links: bool,
    pub manage_users: bool,
}

/// The request to create a user.
#[derive(Debug)]
pub struct NewUser {
    pub username: String,
    pub password: String,
    pub manage_links: bool,
    pub manage_users: bool,
}

impl View for NewUser {
    type V = NewUserView;

    open spec fn view(&self) -> NewUserView {
        NewUserView {
            username: self.username@,
            password: self.password@,
            manage_links: self.manage_links,
            manage_users: self.manage_users,
        }
    }
}

/* ----------------------------------- new ---------------------------------- */

/// Whether a user may be created, and whether it becomes the original user.
/// An identity needs the permission to manage users and creates ordinary
/// users. A request without identity creates the original user, and only
/// while there is no user at all.
pub open spec fn creation_grant(identity: Option<UserView>, count: Result<i64, DbError>)
    -> Result<bool, FailureView> {
    match identity {
        Some(user) => if user.manage_users {
            Ok(false)
        } else {
            Err(failure(ErrorKind::Forbidden, "You cannot manage users"@))
        },
        None => match count {
            Ok(n) => if n == 0 {
                Ok(true)
            } else {
                Err(failure(ErrorKind::Forbidden, "You are not logged in"@))
            },
            Err(_) => Err(
                failure(ErrorKind::Internal, "Could not verify that your user exists"@),
            ),
        },
    }
}

/// Decides whether a user may be created, and whether it becomes the
/// original user.
pub fn authorize_creation(identity: Option<&User>, count: Result<i64, DbError>) -> (r: Result<
    bool,
    Failure,
>)
    ensures
        result_view(r) == creation_grant(
            match identity {
                Some(u) => Some(u@),
                None => None,
            },
            count,
        ),
{
    match identity {
        Some(user) => {
            if user.manage_users {
                Ok(false)
            } else {
                Err(Failure::new(ErrorKind::Forbidden, "You cannot manage users"))
            }
        },
        None => match count {
            Ok(n) => {
                if n == 0 {
                    Ok(true)
                } else {
                    Err(Failure::new(ErrorKind::Forbidden, "You are not logged in"))
                }
            },
            Err(_) => Err(
                Failure::new(ErrorKind::Internal, "Could not verify that your user exists"),
            ),
        },
    }
}

/// What is wrong with a creation request: a blank username, else a blank
/// password.
pub open spec fn new_user_problem(new_user: NewUserView) -> Option<FailureView> {
    if new_user.username.len() == 0 {
        Some(failure(ErrorKind::Validation, "Username cannot be blank"@))
    } else if new_user.password.len() == 0 {
        Some(failure(ErrorKind::Validation, "Password cannot be blank"@))
    } else {
        None
    }
}

/// Checks a creation request.
pub fn validate_new_user(new_user: &NewUser) -> (r: Result<(), Failure>)
    ensures
        match new_user_problem(new_user@) {
            Some(f) => result_view(r) == Err::<(), FailureView>(f),
            None => r is Ok,
        },
{
    if new_user.username.as_str().is_empty() {
        Err(Failure::new(ErrorKind::Validation, "Username cannot be blank"))
    } else if new_user.password.as_str().is_empty() {
        Err(Failure::new(ErrorKind::Validation, "Password cannot be blank"))
    } else {
        Ok(())
    }
}

/// What is wrong with a creation request, given whether it creates the
/// original user. The original user is created from every request: while
/// there is no user, nothing but the empty table gates the creation. Any
/// later user needs a username and a password.
pub open spec fn creation_problem(new_user: NewUserView, orig: bool) -> Option<FailureView> {
    if orig {
        None
    } else {
        new_user_problem(new_user)
    }
}

/// Checks a creation request, given whether it creates the original user.
pub fn validate_creation(new_user: &NewUser, orig: bool) -> (r: Result<(), Failure>)
    ensures
        match creation_problem(new_user@, orig) {
            Some(f) => result_view(r) == Err::<(), FailureView>(f),
            None => r is Ok,
        },
{
    if orig {
        Ok(())
    } else {
        validate_new_user(new_user)
    }
}

/// The answer to a creation once the table has answered the insert. The
/// original user is logged in at once.
pub open spec fn creation_answer(inserted: Result<i32, DbError>, orig: bool) -> (
    Result<i32, FailureView>,
    SessionAction,
) {
    match inserted {
        Ok(id) => (
            Ok(id),
            if orig {
                SessionAction::Issue(id)
            } else {
                SessionAction::Keep
            },
        ),
        Err(DbError::UniqueViolation) => (
            Err(failure(ErrorKind::Conflict, "Username already taken"@)),
            SessionAction::Keep,
        ),
        Err(_) => (
            Err(failure(ErrorKind::Internal, "Could not create new user"@)),
            SessionAction::Keep,
        ),
    }
}

/// Answers a creation once the table has answered the insert.
pub fn creation_outcome(inserted: Result<i32, DbError>, orig: bool) -> (r: (
    Result<i32, Failure>,
    SessionAction,
))
    ensures
        (result_view(r.0), r.1) == creation_answer(inserted, orig),
{
    match inserted {
        Ok(id) => {
            if orig {
                (Ok(id), SessionAction::Issue(id))
            } else {
                (Ok(id), SessionAction::Keep)
            }
        },
        Err(DbError::UniqueViolation) => (
            Err(Failure::new(ErrorKind::Conflict, "Username already taken")),
            SessionAction::Keep,
        ),
        Err(_) => (
            Err(Failure::new(ErrorKind::Internal, "Could not create new user")),
            SessionAction::Keep,
        ),
    }
}

/// The session action of a step: what the operation asks for, else what
/// resolving the token asked for.
pub open spec fn session_after(asked: SessionAction, guard: SessionAction) -> SessionAction {
    if asked == SessionAction::Keep {
        guard
    } else {
        asked
    }
}

/// Creating a user: the request, the hash of its password if hashing
/// succeeded, the token of the request, and the table before.
pub open spec fn new_step(
    new_user: NewUserView,
    pw_hash: Option<Seq<char>>,
    token: Option<Seq<char>>,
    rows: Seq<UserView>,
    issued: int,
) -> Step<i32> {
    let guard = guard_session(token, rows);
    match creation_grant(identity(token, rows), Ok(rows.len() as i64)) {
        Err(f) => Step { result: Err(f), session: guard, rows, issued },
        Ok(orig) => match creation_problem(new_user, orig) {
            Some(f) => Step { result: Err(f), session: guard, rows, issued },
            None => match pw_hash {
                None => Step {
                    result: Err(failure(ErrorKind::Internal, "Could not create new user"@)),
                    session: guard,
                    rows,
                    issued,
                },
                Some(h) => {
                    let user = insertable(new_user, h, orig);
                    let answer = creation_answer(insert_result(rows, issued, user), orig);
                    Step {
                        result: answer.0,
                        session: session_after(answer.1, guard),
                        rows: rows_after_insert(rows, issued, user),
                        issued: issued_after_insert(rows, issued, user),
                    }
                },
            },
        },
    }
}

/// Whether a creation request gets as far as hashing its password: it is
/// allowed, and nothing is wrong with it.
pub open spec fn new_reaches_hash(
    new_user: NewUserView,
    token: Option<Seq<char>>,
    rows: Seq<UserView>,
) -> bool {
    creation_grant(identity(token, rows), Ok(rows.len() as i64)) matches Ok(orig)
        && creation_problem(new_user, orig) is None
}

fn session_or(asked: SessionAction, guard: SessionAction) -> (r: SessionAction)
    ensures
        r == session_after(asked, guard),
{
    match asked {
        SessionAction::Keep => guard,
        _ => asked,
    }
}

/// What a creation request comes to before its password is hashed: the
/// refusal, or whether the new user becomes the original one.
fn prepare_new(new_user: &NewUser, token: Option<&str>, conn: &UserTable) -> (r: (
    Result<bool, Failure>,
    SessionAction,
))
    requires
        conn.wf(),
    ensures
        r.1 == guard_session(token_view(token), conn.rows()),
        match creation_grant(
            identity(token_view(token), conn.rows()),
            Ok(conn.rows().len() as i64),
        ) {
            Err(f) => result_view(r.0) == Err::<bool, FailureView>(f),
            Ok(orig) => match creation_problem(new_user@, orig) {
                Some(f) => result_view(r.0) == Err::<bool, FailureView>(f),
                None => r.0 == Ok::<bool, Failure>(orig),
            },
        },
{
    let resolved = User::from_request(token, conn);
    let guard = match &resolved {
        Ok(_) => SessionAction::Keep,
        Err(rejection) => rejection.session,
    };
    let granted = authorize_creation(
        match &resolved {
            Ok(user) => Some(user),
            Err(_) => None,
        },
        User::count(conn),
    );
    match granted {
        Ok(orig) => match validate_creation(new_user, orig) {
            Ok(_) => (Ok(orig), guard),
            Err(f) => (Err(f), guard),
        },
        Err(f) => (Err(f), guard),
    }
}

/// Inserts the user of a creation request that is allowed and valid, or
/// answers that hashing failed.
fn finish_new(
    new_user: NewUser,
    pw_hash: Option<String>,
    orig: bool,
    guard: SessionAction,
    conn: &mut UserTable,
) -> (r: (Result<i32, Failure>, SessionAction))
    requires
        old(conn).wf(),
    ensures
        final(conn).wf(),
        match pw_hash {
            None => {
                &&& result_view(r.0) == Err::<i32, FailureView>(
                    failure(ErrorKind::Internal, "Could not create new user"@),
                )
                &&& r.1 == guard
                &&& final(conn).rows() == old(conn).rows()
                &&& final(conn).issued() == old(conn).issued()
            },
            Some(h) => {
                let user = insertable(new_user@, h@, orig);
                let answer = creation_answer(
                    insert_result(old(conn).rows(), old(conn).issued(), user),
                    orig,
                );
                &&& result_view(r.0) == answer.0
                &&& r.1 == session_after(answer.1, guard)
                &&& final(conn).rows() == rows_after_insert(
                    old(conn).rows(),
                    old(conn).issued(),
                    user,
                )
                &&& final(conn).issued() == issued_after_insert(
                    old(conn).rows(),
                    old(conn).issued(),
                    user,
                )
            },
        },
{
    match pw_hash {
        None => (Err(Failure::new(ErrorKind::Internal, "Could not create new user")), guard),
        Some(h) => {
            let user = InsertableUser::with_hash(new_user, h, orig);
            let (result, asked) = creation_outcome(User::insert(user, conn), orig);
            (result, session_or(asked, guard))
        },
    }
}

/// Creates a user, given the hash of the request's password, or `None`
/// where hashing failed.
pub fn new_with_hash(
    new_user: NewUser,
    pw_hash: Option<String>,
    token: Option<&str>,
    conn: &mut UserTable,
) -> (r: (Result<i32, Failure>, SessionAction))
    requires
        old(conn).wf(),
    ensures
        final(conn).wf(),
        old(conn).guarded() ==> final(conn).guarded(),
        is_step(
            r,
            *final(conn),
            new_step(
                new_user@,
                option_text(pw_hash),
                token_view(token),
                old(conn).rows(),
                old(conn).issued(),
            ),
        ),
{
    proof {
        if conn.guarded() {
            crate::lifecycle::lemma_new_keeps_guard(
                new_user@,
                option_text(pw_hash),
                token_view(token),
                conn.rows(),
                conn.issued(),
            );
        }
    }
    match prepare_new(&new_user, token, conn) {
        (Ok(orig), guard) => finish_new(new_user, pw_hash, orig, guard, conn),
        (Err(f), guard) => (Err(f), guard),
    }
}

/// Creates a user. The password is hashed only where the request is
/// allowed and valid, and then under a fresh random salt: what is stored is
/// the hash that scrypt computes for the password under that salt, and it
/// verifies the password. While there is no user, every request creates
/// the original user and is handed its token.
pub fn new(new_user: NewUser, token: Option<&str>, conn: &mut UserTable) -> (r: (
    Result<i32, Failure>,
    SessionAction,
))
    requires
        old(conn).wf(),
    ensures
        final(conn).wf(),
        old(conn).guarded() ==> final(conn).guarded(),
        exists|salt: Seq<char>|
            #![trigger scrypt_hash(new_user@.password, salt)]
            {
                &&& new_reaches_hash(new_user@, token_view(token), old(conn).rows()) ==> (
                scrypt_hash(new_user@.password, salt) matches Some(h) && scrypt_verifies(
                    new_user@.password,
                    h,
                ))
                &&& is_step(
                    r,
                    *final(conn),
                    new_step(
                        new_user@,
                        scrypt_hash(new_user@.password, salt),
                        token_view(token),
                        old(conn).rows(),
                        old(conn).issued(),
                    ),
                )
            },
        old(conn).guarded() && old(conn).rows().len() == 0 ==> {
            &&& result_view(r.0) == Ok::<i32, FailureView>(1)
            &&& r.1 == SessionAction::Issue(1)
            &&& final(conn).rows().len() == 1
            &&& final(conn).rows()[0] == new_row(
                insertable(new_user@, final(conn).rows()[0].pw_hash, true),
                1,
            )
            &&& scrypt_verifies(new_user@.password, final(conn).rows()[0].pw_hash)
        },
{
    match prepare_new(&new_user, token, conn) {
        (Ok(orig), guard) => {
            let pw_hash = encrypt_pw(new_user.password.as_str());
            let ghost salt = choose|salt: Seq<char>|
                #![trigger scrypt_hash(new_user@.password, salt)]
                scrypt_hash(new_user@.password, salt) == Some(pw_hash@);
            proof {
                if conn.guarded() {
                    crate::lifecycle::lemma_new_keeps_guard(
                        new_user@,
                        Some(pw_hash@),
                        token_view(token),
                        conn.rows(),
                        conn.issued(),
                    );
                    if conn.rows().len() == 0 {
                        crate::lifecycle::lemma_first_user_is_original(
                            new_user@,
                            pw_hash@,
                            token_view(token),
                            conn.rows(),
                            conn.issued(),
                        );
                    }
                }
            }
            let r = finish_new(new_user, Some(pw_hash), orig, guard, conn);
            assert(is_step(
                r,
                *conn,
                new_step(
                    new_user@,
                    scrypt_hash(new_user@.password, salt),
                    token_view(token),
                    old(conn).rows(),
                    old(conn).issued(),
                ),
            ));
            r
        },
        (Err(f), guard) => {
            let r = (Err(f), guard);
            proof {
                let salt = Seq::<char>::empty();
                assert(is_step(
                    r,
                    *conn,
                    new_step(
                        new_user@,
                        scrypt_hash(new_user@.password, salt),
                        token_view(token),
                        old(conn).rows(),
                        old(conn).issued(),
                    ),
                ));
                if conn.guarded() && conn.rows().len() == 0 {
                    crate::models::users::lemma_original_is_unique(conn.rows(), conn.issued());
                }
            }
            r
        },
    }
}

/// Resolves the token of a request that needs an identity.
pub(crate) fn require_identity(token: Option<&str>, conn: &UserTable) -> (r: Result<
    User,
    (Failure, SessionAction),
>)
    requires
        conn.wf(),
    ensures
        match r {
            Ok(u) => resolve(token_view(token), conn.rows()) == Ok::<UserView, Rejection>(u@),
            Err((f, session)) => resolve(token_view(token), conn.rows()) matches Err(rejection)
                && f@ == rejected(rejection) && session == rejection.session,
        },
{
    match User::from_request(token, conn) {
        Ok(user) => Ok(user),
        Err(rejection) => Err((rejection_failure(rejection), rejection.session)),
    }
}

/* ----------------------------- log in and out ----------------------------- */

/// A login request.
#[derive(Debug)]
pub struct Login {
    pub username: String,
    pub password: String,
}

/// What a user shows of itself, as contracts see it.
pub struct PublicUserView {
    pub id: int,
    pub username: Seq<char>,
    pub orig: bool,
    pub manage_links: bool,
    pub manage_users: bool,
    pub disabled: bool,
}

/// What a user shows of itself: everything but the password hash.
#[derive(Debug)]
pub struct PublicUser {
    pub id: i32,
    pub username: String,
    pub orig: bool,
    pub manage_links: bool,
    pub manage_users: bool,
    pub disabled: bool,
}

impl View for PublicUser {
    type V = PublicUserView;

    open spec fn view(&self) -> PublicUserView {
        PublicUserView {
            id: self.id as int,
            username: self.username@,
            orig: self.orig,
            manage_links: self.manage_links,
            manage_users: self.manage_users,
            disabled: self.disabled,
        }
    }
}

/// What a user shows of itself.
pub open spec fn public(user: UserView) -> PublicUserView {
    PublicUserView {
        id: user.id,
        username: user.username,
        orig: user.orig,
        manage_links: user.manage_links,
        manage_users: user.manage_users,
        disabled: user.disabled,
    }
}

impl PublicUser {
    /// What `user` shows of itself.
    pub fn from_user(user: User) -> (r: PublicUser)
        ensures
            r@ == public(user@),
    {
        PublicUser {
            id: user.id,
            username: user.username,
            orig: user.orig,
            manage_links: user.manage_links,
            manage_users: user.manage_users,
            disabled: user.disabled,
        }
    }
}

/// The failure of a login with a wrong username or password.
pub open spec fn bad_credentials() -> FailureView {
    failure(ErrorKind::Unauthenticated, "Invalid username/password"@)
}

/// The answer to a login, given what the lookup of the username found. A
/// user that is not disabled logs in with the password that its stored
/// hash verifies. An unknown name, a wrong password and a disabled user
/// are answered alike, so that the answer tells nothing of which accounts
/// exist.
pub open spec fn login_answer(found: Result<UserView, DbError>, password: Seq<char>) -> (
    Result<PublicUserView, FailureView>,
    SessionAction,
) {
    match found {
        Ok(user) => if !user.disabled && scrypt_verifies(password, user.pw_hash) {
            (Ok(public(user)), SessionAction::Issue(user.id as i32))
        } else {
            (Err(bad_credentials()), SessionAction::Keep)
        },
        Err(_) => (Err(bad_credentials()), SessionAction::Keep),
    }
}

/// Answers a login once the username has been looked up.
pub fn login_with(request: &Login, found: Result<User, DbError>) -> (r: (
    Result<PublicUser, Failure>,
    SessionAction,
))
    ensures
        (result_views(r.0), r.1) == login_answer(found_view(found), request.password@),
{
    match found {
        Ok(user) => {
            if !user.disabled && user.verify(request.password.as_str()) {
                let id = user.id;
                (Ok(PublicUser::from_user(user)), SessionAction::Issue(id))
            } else {
                (
                    Err(Failure::new(ErrorKind::Unauthenticated, "Invalid username/password")),
                    SessionAction::Keep,
                )
            }
        },
        Err(_) => (
            Err(Failure::new(ErrorKind::Unauthenticated, "Invalid username/password")),
            SessionAction::Keep,
        ),
    }
}

/// Logs a user in: on success the answer carries the user and a token is
/// issued for its id.
pub fn login(request: &Login, conn: &UserTable) -> (r: (
    Result<PublicUser, Failure>,
    SessionAction,
))
    requires
        conn.wf(),
    ensures
        (result_views(r.0), r.1) == login_answer(
            lookup_name(conn.rows(), request.username@),
            request.password@,
        ),
{
    login_with(request, User::get_by_name(request.username.as_str(), conn))
}

/// Logs out: the session token is discarded.
pub fn logout() -> (r: SessionAction)
    ensures
        r == SessionAction::Clear,
{
    SessionAction::Clear
}

/* --------------------------------- getting -------------------------------- */

/// The public views of a sequence of users, in order.
pub open spec fn public_views(users: Seq<PublicUser>) -> Seq<PublicUserView> {
    users.map_values(|u: PublicUser| u@)
}

/// The public views of the rows of a table, in order.
pub open spec fn public_rows(rows: Seq<UserView>) -> Seq<PublicUserView> {
    rows.map_values(|u: UserView| public(u))
}

/// What the users show of themselves, in order.
pub fn publish(users: Vec<User>) -> (r: Vec<PublicUser>)
    ensures
        public_views(r@) == public_rows(views_of(users@)),
{
    let mut out: Vec<PublicUser> = Vec::new();
    let mut k: usize = 0;
    while k < users.len()
        invariant
            k <= users.len(),
            public_views(out@) == public_rows(views_of(users@)).subrange(0, k as int),
        decreases users.len() - k,
    {
        let ghost before = out@;
        out.push(PublicUser::from_user(users[k].clone()));
        assert(public_views(out@) =~= public_views(before).push(public(users@[k as int]@)));
        assert(public_views(out@) =~= public_rows(views_of(users@)).subrange(0, k + 1));
        k = k + 1;
    }
    assert(public_rows(views_of(users@)).subrange(0, k as int) =~= public_rows(views_of(users@)));
    out
}

/// Whether an identity may list all users.
pub open spec fn listing_denial(current: UserView) -> Option<FailureView> {
    if current.manage_users {
        None
    } else {
        Some(failure(ErrorKind::Forbidden, "You cannot manage users"@))
    }
}

/// The answer to a request for all users.
pub open spec fn get_all_answer(token: Option<Seq<char>>, rows: Seq<UserView>) -> (
    Result<Seq<PublicUserView>, FailureView>,
    SessionAction,
) {
    match resolve(token, rows) {
        Err(rejection) => (Err(rejected(rejection)), rejection.session),
        Ok(current) => match listing_denial(current) {
            Some(f) => (Err(f), SessionAction::Keep),
            None => (Ok(public_rows(rows)), SessionAction::Keep),
        },
    }
}

/// Lists all users, for an identity that may manage users.
pub fn get_all(token: Option<&str>, conn: &UserTable) -> (r: (
    Result<Vec<PublicUser>, Failure>,
    SessionAction,
))
    requires
        conn.wf(),
    ensures
        (
            match r.0 {
                Ok(users) => Ok(public_views(users@)),
                Err(f) => Err(f@),
            },
            r.1,
        ) == get_all_answer(token_view(token), conn.rows()),
{
    let current = match require_identity(token, conn) {
        Ok(user) => user,
        Err((f, session)) => {
            return (Err(f), session);
        },
    };
    if !current.manage_users {
        return (
            Err(Failure::new(ErrorKind::Forbidden, "You cannot manage users")),
            SessionAction::Keep,
        );
    }
    match User::all(conn) {
        Ok(users) => (Ok(publish(users)), SessionAction::Keep),
        Err(_) => (
            Err(Failure::new(ErrorKind::Internal, "An internal server error occurred")),
            SessionAction::Keep,
        ),
    }
}

/// What the identity of a request shows of itself.
pub fn get_current(user: User) -> (r: PublicUser)
    ensures
        r@ == public(user@),
{
    PublicUser::from_user(user)
}

/* -------------------------------- destruct -------------------------------- */

/// The request to delete, disable or enable a user, as contracts see it.
pub struct DeleteRequestView {
    pub id: int,
    pub password: Option<Seq<char>>,
}

/// The request to delete, disable or enable a user. With the password of
/// the identity it is that identity's request about itself; without one it
/// is an administrator's request about another user.
#[derive(Debug)]
pub struct DeleteRequest {
    pub id: i32,
    pub password: Option<String>,
}

impl View for DeleteRequest {
    type V = DeleteRequestView;

    open spec fn view(&self) -> DeleteRequestView {
        DeleteRequestView { id: self.id as int, password: option_text(self.password) }
    }
}

/// The three changes to the life of an account.
#[derive(Clone, Copy, Debug, PartialEq, Eq, Structural)]
pub enum Destruct {
    Delete,
    Disable,
    Enable,
}

impl Destruct {
    /// The verb that names the change in messages.
    pub open spec fn verb(self) -> Seq<char> {
        match self {
            Destruct::Delete => "delete"@,
            Destruct::Disable => "disable"@,
            Destruct::Enable => "enable"@,
        }
    }

    /// The verb that names the change in messages.
    pub fn verb_text(self) -> (r: &'static str)
        ensures
            r@ == self.verb(),
    {
        match self {
            Destruct::Delete => "delete",
            Destruct::Disable => "disable",
            Destruct::Enable => "enable",
        }
    }

    /// Whether the change ends the session of an identity that made it to
    /// itself.
    pub open spec fn ends_session(self) -> bool {
        self != Destruct::Enable
    }
}

/// Why a user may not be deleted, disabled or enabled; `None` where it may.
/// The original user is protected from every actor. An identity acts on
/// itself only with its own password, and on another user only with the
/// permission to manage users.
pub open spec fn destruct_denial(
    request: DeleteRequestView,
    current: UserView,
    target: Result<UserView, DbError>,
    verb: Seq<char>,
) -> Option<FailureView> {
    match target {
        Ok(user) => if user.orig {
            Some(failure(ErrorKind::Forbidden, "You cannot "@ + verb + " the original user"@))
        } else if current.id == request.id {
            match request.password {
                Some(pw) => if scrypt_verifies(pw, current.pw_hash) {
                    None
                } else {
                    Some(failure(ErrorKind::Unauthenticated, "Incorrect password"@))
                },
                None => Some(
                    failure(
                        ErrorKind::Forbidden,
                        "You need your password to "@ + verb + " yourself"@,
                    ),
                ),
            }
        } else if current.manage_users {
            None
        } else {
            Some(failure(ErrorKind::Forbidden, "You cannot manage users."@))
        },
        Err(DbError::RowNotFound) => Some(
            failure(ErrorKind::NotFound, "That user cannot be found."@),
        ),
        Err(_) => Some(failure(ErrorKind::Internal, "An internal server error occurred."@)),
    }
}

/// Decides whether `current_user` may delete, disable or enable the user
/// that the request names, once that user has been looked up.
pub fn check_destruct(
    request: &DeleteRequest,
    current_user: &User,
    target: Result<User, DbError>,
    verb: &str,
) -> (r: Result<(), Failure>)
    ensures
        match destruct_denial(request@, current_user@, found_view(target), verb@) {
            Some(f) => result_view(r) == Err::<(), FailureView>(f),
            None => r is Ok,
        },
{
    match target {
        Ok(user) => {
            if user.orig {
                Err(
                    Failure {
                        kind: ErrorKind::Forbidden,
                        message: String::from_str("You cannot ").concat(verb).concat(
                            " the original user",
                        ),
                    },
                )
            } else if current_user.id == request.id {
                match &request.password {
                    Some(pw) => {
                        if current_user.verify(pw.as_str()) {
                            Ok(())
                        } else {
                            Err(Failure::new(ErrorKind::Unauthenticated, "Incorrect password"))
                        }
                    },
                    None => Err(
                        Failure {
                            kind: ErrorKind::Forbidden,
                            message: String::from_str("You need your password to ").concat(
                                verb,
                            ).concat(" yourself"),
                        },
                    ),
                }
            } else if current_user.manage_users {
                Ok(())
            } else {
                Err(Failure::new(ErrorKind::Forbidden, "You cannot manage users."))
            }
        },
        Err(DbError::RowNotFound) => Err(
            Failure::new(ErrorKind::NotFound, "That user cannot be found."),
        ),
        Err(_) => Err(Failure::new(ErrorKind::Internal, "An internal server error occurred.")),
    }
}

/// The failure that a storage error comes to when a row is changed.
pub open spec fn storage_failure(e: DbError) -> FailureView {
    match e {
        DbError::RowNotFound => failure(ErrorKind::NotFound, "That user cannot be found."@),
        DbError::UniqueViolation => failure(ErrorKind::Conflict, "That username is taken"@),
        _ => failure(ErrorKind::Internal, "An internal server error occurred."@),
    }
}

/// Answers a change to a row once the table has answered.
pub fn match_destruct_result_other(result: Result<(), DbError>) -> (r: Result<(), Failure>)
    ensures
        match result {
            Ok(_) => r is Ok,
            Err(e) => result_view(r) == Err::<(), FailureView>(storage_failure(e)),
        },
{
    match result {
        Ok(_) => Ok(()),
        Err(DbError::RowNotFound) => Err(
            Failure::new(ErrorKind::NotFound, "That user cannot be found."),
        ),
        Err(DbError::UniqueViolation) => Err(
            Failure::new(ErrorKind::Conflict, "That username is taken"),
        ),
        Err(_) => Err(Failure::new(ErrorKind::Internal, "An internal server error occurred.")),
    }
}

/// The rows after the user with this id has been deleted, disabled or
/// enabled.
pub open spec fn rows_after_destruct(action: Destruct, rows: Seq<UserView>, id: int) -> Seq<
    UserView,
> {
    let k = index_of_id(rows, id);
    match action {
        Destruct::Delete => rows.remove(k),
        Destruct::Disable => rows.update(k, rows[k].with_disabled(true)),
        Destruct::Enable => rows.update(k, rows[k].with_disabled(false)),
    }
}

/// What a successful change does to the session of the identity that made
/// it: an identity that deleted or disabled itself loses its session.
pub open spec fn session_after_destruct(action: Destruct, target: int, current: int)
    -> SessionAction {
    if target == current && action.ends_session() {
        SessionAction::Clear
    } else {
        SessionAction::Keep
    }
}

/// What a successful change does to the session of the identity that made
/// it.
pub fn destruct_session(action: Destruct, target: i32, current: i32) -> (r: SessionAction)
    ensures
        r == session_after_destruct(action, target as int, current as int),
{
    if target == current && !matches!(action, Destruct::Enable) {
        SessionAction::Clear
    } else {
        SessionAction::Keep
    }
}

/// Deleting, disabling or enabling a user: the request, its token, and the
/// table before. An identity that deletes or disables itself loses its
/// session.
pub open spec fn destruct_step(
    action: Destruct,
    request: DeleteRequestView,
    token: Option<Seq<char>>,
    rows: Seq<UserView>,
    issued: int,
) -> Step<()> {
    match resolve(token, rows) {
        Err(rejection) => Step {
            result: Err(rejected(rejection)),
            session: rejection.session,
            rows,
            issued,
        },
        Ok(current) => match destruct_denial(
            request,
            current,
            lookup_id(rows, request.id),
            action.verb(),
        ) {
            Some(f) => Step { result: Err(f), session: SessionAction::Keep, rows, issued },
            None => Step {
                result: Ok(()),
                session: session_after_destruct(action, request.id, current.id),
                rows: rows_after_destruct(action, rows, request.id),
                issued,
            },
        },
    }
}

/// Deletes, disables or enables the user that the request names.
pub fn destruct(
    action: Destruct,
    request: &DeleteRequest,
    token: Option<&str>,
    conn: &mut UserTable,
) -> (r: (Result<(), Failure>, SessionAction))
    requires
        old(conn).wf(),
    ensures
        final(conn).wf(),
        old(conn).guarded() ==> final(conn).guarded(),
        is_step(
            r,
            *final(conn),
            destruct_step(
                action,
                request@,
                token_view(token),
                old(conn).rows(),
                old(conn).issued(),
            ),
        ),
{
    proof {
        if conn.guarded() {
            crate::lifecycle::lemma_destruct_keeps_guard(
                action,
                request@,
                token_view(token),
                conn.rows(),
                conn.issued(),
            );
        }
    }
    let current = match require_identity(token, conn) {
        Ok(user) => user,
        Err((f, session)) => {
            return (Err(f), session);
        },
    };
    match check_destruct(request, &current, User::get(request.id, conn), action.verb_text()) {
        Ok(_) => {},
        Err(f) => {
            return (Err(f), SessionAction::Keep);
        },
    }
    let changed = match action {
        Destruct::Delete => User::delete(request.id, conn),
        Destruct::Disable => User::disable(request.id, conn),
        Destruct::Enable => User::enable(request.id, conn),
    };
    (match_destruct_result_other(changed), destruct_session(action, request.id, current.id))
}

/// Deletes the user that the request names.
pub fn delete(request: &DeleteRequest, token: Option<&str>, conn: &mut UserTable) -> (r: (
    Result<(), Failure>,
    SessionAction,
))
    requires
        old(conn).wf(),
    ensures
        final(conn).wf(),
        old(conn).guarded() ==> final(conn).guarded(),
        is_step(
            r,
            *final(conn),
            destruct_step(
                Destruct::Delete,
                request@,
                token_view(token),
                old(conn).rows(),
                old(conn).issued(),
            ),
        ),
{
    destruct(Destruct::Delete, request, token, conn)
}

/// Disables the user that the request names.
pub fn disable(request: &DeleteRequest, token: Option<&str>, conn: &mut UserTable) -> (r: (
    Result<(), Failure>,
    SessionAction,
))
    requires
        old(conn).wf(),
    ensures
        final(conn).wf(),
        old(conn).guarded() ==> final(conn).guarded(),
        is_step(
            r,
            *final(conn),
            destruct_step(
                Destruct::Disable,
                request@,
                token_view(token),
                old(conn).rows(),
                old(conn).issued(),
            ),
        ),
{
    destruct(Destruct::Disable, request, token, conn)
}

/// Enables the user that the request names.
pub fn enable(request: &DeleteRequest, token: Option<&str>, conn: &mut UserTable) -> (r: (
    Result<(), Failure>,
    SessionAction,
))
    requires
        old(conn).wf(),
    ensures
        final(conn).wf(),
        old(conn).guarded() ==> final(conn).guarded(),
        is_step(
            r,
            *final(conn),
            destruct_step(
                Destruct::Enable,
                request@,
                token_view(token),
                old(conn).rows(),
                old(conn).issued(),
            ),
        ),
{
    destruct(Destruct::Enable, request, token, conn)
}

/// The request an administrator makes about another user: its id.
#[derive(Clone, Copy, Debug, PartialEq, Eq, Structural)]
pub struct ID {
    pub id: i32,
}

/// The request an administrator makes about another user.
pub open spec fn about_other(id: int) -> DeleteRequestView {
    DeleteRequestView { id, password: None }
}

/// Deletes another user, as an administrator. It never deletes the
/// identity that asks.
pub fn delete_by_id(id_form: &ID, token: Option<&str>, conn: &mut UserTable) -> (r: (
    Result<(), Failure>,
    SessionAction,
))
    requires
        old(conn).wf(),
    ensures
        final(conn).wf(),
        old(conn).guarded() ==> final(conn).guarded(),
        is_step(
            r,
            *final(conn),
            destruct_step(
                Destruct::Delete,
                about_other(id_form.id as int),
                token_view(token),
                old(conn).rows(),
                old(conn).issued(),
            ),
        ),
{
    destruct(Destruct::Delete, &DeleteRequest { id: id_form.id, password: None }, token, conn)
}

/// Disables another user, as an administrator.
pub fn disable_by_id(id_form: &ID, token: Option<&str>, conn: &mut UserTable) -> (r: (
    Result<(), Failure>,
    SessionAction,
))
    requires
        old(conn).wf(),
    ensures
        final(conn).wf(),
        old(conn).guarded() ==> final(conn).guarded(),
        is_step(
            r,
            *final(conn),
            destruct_step(
                Destruct::Disable,
                about_other(id_form.id as int),
                token_view(token),
                old(conn).rows(),
                old(conn).issued(),
            ),
        ),
{
    destruct(Destruct::Disable, &DeleteRequest { id: id_form.id, password: None }, token, conn)
}

/// Enables another user, as an administrator.
pub fn enable_by_id(id_form: &ID, token: Option<&str>, conn: &mut UserTable) -> (r: (
    Result<(), Failure>,
    SessionAction,
))
    requires
        old(conn).wf(),
    ensures
        final(conn).wf(),
        old(conn).guarded() ==> final(conn).guarded(),
        is_step(
            r,
            *final(conn),
            destruct_step(
                Destruct::Enable,
                about_other(id_form.id as int),
                token_view(token),
                old(conn).rows(),
                old(conn).issued(),
            ),
        ),
{
    destruct(Destruct::Enable, &DeleteRequest { id: id_form.id, password: None }, token, conn)
}

/// Deleting or disabling the identity of the request itself, with its
/// password.
pub open spec fn self_destruct_step(
    action: Destruct,
    password: Seq<char>,
    token: Option<Seq<char>>,
    rows: Seq<UserView>,
    issued: int,
) -> Step<()> {
    match resolve(token, rows) {
        Err(rejection) => Step {
            result: Err(rejected(rejection)),
            session: rejection.session,
            rows,
            issued,
        },
        Ok(current) => destruct_step(
            action,
            DeleteRequestView { id: current.id, password: Some(password) },
            token,
            rows,
            issued,
        ),
    }
}

fn destruct_current(action: Destruct, password: &str, token: Option<&str>, conn: &mut UserTable)
    -> (r: (Result<(), Failure>, SessionAction))
    requires
        old(conn).wf(),
    ensures
        final(conn).wf(),
        old(conn).guarded() ==> final(conn).guarded(),
        is_step(
            r,
            *final(conn),
            self_destruct_step(
                action,
                password@,
                token_view(token),
                old(conn).rows(),
                old(conn).issued(),
            ),
        ),
{
    match require_identity(token, conn) {
        Ok(current) => destruct(
            action,
            &DeleteRequest { id: current.id, password: Some(password.to_owned()) },
            token,
            conn,
        ),
        Err((f, session)) => (Err(f), session),
    }
}

/// Deletes the identity of the request, which confirms with its password.
pub fn delete_current(password: &str, token: Option<&str>, conn: &mut UserTable) -> (r: (
    Result<(), Failure>,
    SessionAction,
))
    requires
        old(conn).wf(),
    ensures
        final(conn).wf(),
        old(conn).guarded() ==> final(conn).guarded(),
        is_step(
            r,
            *final(conn),
            self_destruct_step(
                Destruct::Delete,
                password@,
                token_view(token),
                old(conn).rows(),
                old(conn).issued(),
            ),
        ),
{
    destruct_current(Destruct::Delete, password, token, conn)
}

/// Disables the identity of the request, which confirms with its password.
pub fn disable_current(password: &str, token: Option<&str>, conn: &mut UserTable) -> (r: (
    Result<(), Failure>,
    SessionAction,
))
    requires
        old(conn).wf(),
    ensures
        final(conn).wf(),
        old(conn).guarded() ==> final(conn).guarded(),
        is_step(
            r,
            *final(conn),
            self_destruct_step(
                Destruct::Disable,
                password@,
                token_view(token),
                old(conn).rows(),
                old(conn).issued(),
            ),
        ),
{
    destruct_current(Destruct::Disable, password, token, conn)
}

/* --------------------------------- update --------------------------------- */

/// The request to set a user's permissions.
#[derive(Clone, Copy, Debug, PartialEq, Eq, Structural)]
pub struct PermissionsUpdate {
    pub user_id: i32,
    pub manage_links: bool,
    pub manage_users: bool,
}

/// Why an identity may not set the permissions of the user that the request
/// names; `None` where it may. Permissions are set by a user manager, for
/// another user, and never for the original user.
pub open spec fn permissions_denial(
    update: PermissionsUpdate,
    current: UserView,
    target: Result<UserView, DbError>,
) -> Option<FailureView> {
    if !current.manage_users {
        Some(failure(ErrorKind::Forbidden, "You cannot manage users"@))
    } else if update.user_id == current.id {
        Some(failure(ErrorKind::Forbidden, "You cannot change your own permissions"@))
    } else {
        match target {
            Ok(user) => if user.orig {
                Some(
                    failure(
                        ErrorKind::Forbidden,
                        "You cannot change the permissions of the original user"@,
                    ),
                )
            } else {
                None
            },
            Err(DbError::RowNotFound) => Some(
                failure(ErrorKind::NotFound, "That user cannot be found."@),
            ),
            Err(_) => Some(failure(ErrorKind::Internal, "An internal server error occurred."@)),
        }
    }
}

/// Decides whether `current_user` may set the permissions of the user that
/// the request names, once that user has been looked up.
pub fn check_permissions_update(
    update: &PermissionsUpdate,
    current_user: &User,
    target: Result<User, DbError>,
) -> (r: Result<(), Failure>)
    ensures
        match permissions_denial(*update, current_user@, found_view(target)) {
            Some(f) => result_view(r) == Err::<(), FailureView>(f),
            None => r is Ok,
        },
{
    if !current_user.manage_users {
        Err(Failure::new(ErrorKind::Forbidden, "You cannot manage users"))
    } else if update.user_id == current_user.id {
        Err(Failure::new(ErrorKind::Forbidden, "You cannot change your own permissions"))
    } else {
        match target {
            Ok(user) => {
                if user.orig {
                    Err(
                        Failure::new(
                            ErrorKind::Forbidden,
                            "You cannot change the permissions of the original user",
                        ),
                    )
                } else {
                    Ok(())
                }
            },
            Err(DbError::RowNotFound) => Err(
                Failure::new(ErrorKind::NotFound, "That user cannot be found."),
            ),
            Err(_) => Err(
                Failure::new(ErrorKind::Internal, "An internal server error occurred."),
            ),
        }
    }
}

/// Setting a user's permissions: the request, its token, and the table
/// before.
pub open spec fn permissions_step(
    update: PermissionsUpdate,
    token: Option<Seq<char>>,
    rows: Seq<UserView>,
    issued: int,
) -> Step<()> {
    match resolve(token, rows) {
        Err(rejection) => Step {
            result: Err(rejected(rejection)),
            session: rejection.session,
            rows,
            issued,
        },
        Ok(current) => match permissions_denial(
            update,
            current,
            lookup_id(rows, update.user_id as int),
        ) {
            Some(f) => Step { result: Err(f), session: SessionAction::Keep, rows, issued },
            None => Step {
                result: Ok(()),
                session: SessionAction::Keep,
                rows: rows.update(
                    index_of_id(rows, update.user_id as int),
                    rows[index_of_id(rows, update.user_id as int)].with_permissions(
                        update.manage_links,
                        update.manage_users,
                    ),
                ),
                issued,
            },
        },
    }
}

/// Sets the permissions of the user that the request names.
pub fn update_permissions(
    permissions: &PermissionsUpdate,
    token: Option<&str>,
    conn: &mut UserTable,
) -> (r: (Result<(), Failure>, SessionAction))
    requires
        old(conn).wf(),
    ensures
        final(conn).wf(),
        old(conn).guarded() ==> final(conn).guarded(),
        is_step(
            r,
            *final(conn),
            permissions_step(
                *permissions,
                token_view(token),
                old(conn).rows(),
                old(conn).issued(),
            ),
        ),
{
    proof {
        if conn.guarded() {
            crate::lifecycle::lemma_permissions_keep_guard(
                *permissions,
                token_view(token),
                conn.rows(),
                conn.issued(),
            );
        }
    }
    let current = match require_identity(token, conn) {
        Ok(user) => user,
        Err((f, session)) => {
            return (Err(f), session);
        },
    };
    match check_permissions_update(permissions, &current, User::get(permissions.user_id, conn)) {
        Ok(_) => {},
        Err(f) => {
            return (Err(f), SessionAction::Keep);
        },
    }
    let changed = User::update_permissions(
        permissions.user_id,
        permissions.manage_links,
        permissions.manage_users,
        conn,
    );
    (match_destruct_result_other(changed), SessionAction::Keep)
}

/// The request to rename a user, as contracts see it.
pub struct UsernameUpdateView {
    pub user_id: int,
    pub new_name: Seq<char>,
}

/// The request to rename a user.
#[derive(Debug)]
pub struct UsernameUpdate {
    pub user_id: i32,
    pub new_name: String,
}

impl View for UsernameUpdate {
    type V = UsernameUpdateView;

    open spec fn view(&self) -> UsernameUpdateView {
        UsernameUpdateView { user_id: self.user_id as int, new_name: self.new_name@ }
    }
}

/// Why an identity may not rename the user that the request names; `None`
/// where it may. Everyone may rename themselves. Another user is renamed by
/// a user manager, and the original user by nobody else.
pub open spec fn username_denial(
    update: UsernameUpdateView,
    current: UserView,
    target: Result<UserView, DbError>,
) -> Option<FailureView> {
    if update.user_id == current.id {
        None
    } else if !current.manage_users {
        Some(
            failure(
                ErrorKind::Forbidden,
                "You do not have access to edit that user's username"@,
            ),
        )
    } else {
        match target {
            Ok(user) => if user.orig {
                Some(failure(ErrorKind::Forbidden, "You cannot rename the original user"@))
            } else {
                None
            },
            Err(DbError::RowNotFound) => Some(
                failure(ErrorKind::NotFound, "That user does not exist"@),
            ),
            Err(_) => Some(failure(ErrorKind::Internal, "An internal server error occurred"@)),
        }
    }
}

/// Decides whether `current_user` may rename the user that the request
/// names, once that user has been looked up.
pub fn check_username_update(
    update: &UsernameUpdate,
    current_user: &User,
    target: Result<User, DbError>,
) -> (r: Result<(), Failure>)
    ensures
        match username_denial(update@, current_user@, found_view(target)) {
            Some(f) => result_view(r) == Err::<(), FailureView>(f),
            None => r is Ok,
        },
{
    if update.user_id == current_user.id {
        Ok(())
    } else if !current_user.manage_users {
        Err(
            Failure::new(
                ErrorKind::Forbidden,
                "You do not have access to edit that user's username",
            ),
        )
    } else {
        match target {
            Ok(user) => {
                if user.orig {
                    Err(Failure::new(ErrorKind::Forbidden, "You cannot rename the original user"))
                } else {
                    Ok(())
                }
            },
            Err(DbError::RowNotFound) => Err(
                Failure::new(ErrorKind::NotFound, "That user does not exist"),
            ),
            Err(_) => Err(Failure::new(ErrorKind::Internal, "An internal server error occurred")),
        }
    }
}

/// The answer to a renaming once the table has answered.
pub open spec fn username_answer(changed: Result<(), DbError>) -> Result<(), FailureView> {
    match changed {
        Ok(_) => Ok(()),
        Err(DbError::RowNotFound) => Err(
            failure(ErrorKind::NotFound, "That user does not exist"@),
        ),
        Err(DbError::UniqueViolation) => Err(
            failure(ErrorKind::Conflict, "That username is taken"@),
        ),
        Err(_) => Err(failure(ErrorKind::Internal, "An internal server error occurred"@)),
    }
}

/// Answers a renaming once the table has answered.
pub fn username_outcome(changed: Result<(), DbError>) -> (r: Result<(), Failure>)
    ensures
        result_view(r) == username_answer(changed),
{
    match changed {
        Ok(_) => Ok(()),
        Err(DbError::RowNotFound) => Err(
            Failure::new(ErrorKind::NotFound, "That user does not exist"),
        ),
        Err(DbError::UniqueViolation) => Err(
            Failure::new(ErrorKind::Conflict, "That username is taken"),
        ),
        Err(_) => Err(Failure::new(ErrorKind::Internal, "An internal server error occurred")),
    }
}

/// Renaming a user: the request, its token, and the table before.
pub open spec fn username_step(
    update: UsernameUpdateView,
    token: Option<Seq<char>>,
    rows: Seq<UserView>,
    issued: int,
) -> Step<()> {
    match resolve(token, rows) {
        Err(rejection) => Step {
            result: Err(rejected(rejection)),
            session: rejection.session,
            rows,
            issued,
        },
        Ok(current) => match username_denial(update, current, lookup_id(rows, update.user_id)) {
            Some(f) => Step { result: Err(f), session: SessionAction::Keep, rows, issued },
            None => {
                Step {
                    result: username_answer(
                        rename_result(rows, update.user_id, update.new_name),
                    ),
                    session: SessionAction::Keep,
                    rows: rows_after_rename(rows, update.user_id, update.new_name),
                    issued,
                }
            },
        },
    }
}

/// Renames the user that the request names.
pub fn update_username(update: &UsernameUpdate, token: Option<&str>, conn: &mut UserTable) -> (r:
    (Result<(), Failure>, SessionAction))
    requires
        old(conn).wf(),
    ensures
        final(conn).wf(),
        old(conn).guarded() ==> final(conn).guarded(),
        is_step(
            r,
            *final(conn),
            username_step(update@, token_view(token), old(conn).rows(), old(conn).issued()),
        ),
{
    proof {
        if conn.guarded() {
            crate::lifecycle::lemma_username_keeps_guard(
                update@,
                token_view(token),
                conn.rows(),
                conn.issued(),
            );
        }
    }
    let current = match require_identity(token, conn) {
        Ok(user) => user,
        Err((f, session)) => {
            return (Err(f), session);
        },
    };
    match check_username_update(update, &current, User::get(update.user_id, conn)) {
        Ok(_) => {},
        Err(f) => {
            return (Err(f), SessionAction::Keep);
        },
    }
    let changed = User::update_username(update.user_id, update.new_name.as_str(), conn);
    (username_outcome(changed), SessionAction::Keep)
}

/// The request to change the identity's password.
#[derive(Debug)]
pub struct PasswordUpdate {
    pub current_pw: String,
    pub new_pw: String,
}

/// Why an identity may not change its password as asked; `None` where it
/// may. The current password has to verify, and the new one has to differ
/// from it.
pub open spec fn password_denial(current_pw: Seq<char>, new_pw: Seq<char>, current: UserView)
    -> Option<FailureView> {
    if !scrypt_verifies(current_pw, current.pw_hash) {
        Some(failure(ErrorKind::Unauthenticated, "Incorrect current password"@))
    } else if new_pw == current_pw {
        Some(failure(ErrorKind::Conflict, "New password cannot be current password"@))
    } else {
        None
    }
}

/// Decides whether `current_user` may change its password as asked.
pub fn check_password_update(passwords: &PasswordUpdate, current_user: &User) -> (r: Result<
    (),
    Failure,
>)
    ensures
        match password_denial(passwords.current_pw@, passwords.new_pw@, current_user@) {
            Some(f) => result_view(r) == Err::<(), FailureView>(f),
            None => r is Ok,
        },
{
    if !current_user.verify(passwords.current_pw.as_str()) {
        Err(Failure::new(ErrorKind::Unauthenticated, "Incorrect current password"))
    } else if passwords.new_pw == passwords.current_pw {
        Err(Failure::new(ErrorKind::Conflict, "New password cannot be current password"))
    } else {
        Ok(())
    }
}

/// Changing the identity's password: the two passwords, the hash of the new
/// one if hashing succeeded, the token, and the table before. A changed
/// password ends the session.
pub open spec fn password_step(
    current_pw: Seq<char>,
    new_pw: Seq<char>,
    pw_hash: Option<Seq<char>>,
    token: Option<Seq<char>>,
    rows: Seq<UserView>,
    issued: int,
) -> Step<()> {
    match resolve(token, rows) {
        Err(rejection) => Step {
            result: Err(rejected(rejection)),
            session: rejection.session,
            rows,
            issued,
        },
        Ok(current) => match password_denial(current_pw, new_pw, current) {
            Some(f) => Step { result: Err(f), session: SessionAction::Keep, rows, issued },
            None => match pw_hash {
                None => Step {
                    result: Err(
                        failure(ErrorKind::Internal, "An internal server error occurred."@),
                    ),
                    session: SessionAction::Keep,
                    rows,
                    issued,
                },
                Some(h) => Step {
                    result: Ok(()),
                    session: SessionAction::Clear,
                    rows: rows.update(
                        index_of_id(rows, current.id),
                        rows[index_of_id(rows, current.id)].with_pw_hash(h),
                    ),
                    issued,
                },
            },
        },
    }
}

/// Stores the hash of the identity's new password, or answers that hashing
/// failed.
fn store_password(id: i32, pw_hash: Option<String>, conn: &mut UserTable) -> (r: (
    Result<(), Failure>,
    SessionAction,
))
    requires
        old(conn).wf(),
        has_id(old(conn).rows(), id as int),
    ensures
        final(conn).wf(),
        final(conn).issued() == old(conn).issued(),
        match pw_hash {
            None => {
                &&& result_view(r.0) == Err::<(), FailureView>(
                    failure(ErrorKind::Internal, "An internal server error occurred."@),
                )
                &&& r.1 == SessionAction::Keep
                &&& final(conn).rows() == old(conn).rows()
            },
            Some(h) => {
                &&& r.0 is Ok
                &&& r.1 == SessionAction::Clear
                &&& final(conn).rows() == old(conn).rows().update(
                    index_of_id(old(conn).rows(), id as int),
                    old(conn).rows()[index_of_id(old(conn).rows(), id as int)].with_pw_hash(h@),
                )
            },
        },
{
    match pw_hash {
        None => (
            Err(Failure::new(ErrorKind::Internal, "An internal server error occurred.")),
            SessionAction::Keep,
        ),
        Some(h) => {
            let changed = User::update_password(id, h.as_str(), conn);
            (match_destruct_result_other(changed), SessionAction::Clear)
        },
    }
}

/// Changes the identity's password, given the hash of the new password, or
/// `None` where hashing failed.
pub fn update_password_with_hash(
    passwords: &PasswordUpdate,
    pw_hash: Option<String>,
    token: Option<&str>,
    conn: &mut UserTable,
) -> (r: (Result<(), Failure>, SessionAction))
    requires
        old(conn).wf(),
    ensures
        final(conn).wf(),
        old(conn).guarded() ==> final(conn).guarded(),
        is_step(
            r,
            *final(conn),
            password_step(
                passwords.current_pw@,
                passwords.new_pw@,
                option_text(pw_hash),
                token_view(token),
                old(conn).rows(),
                old(conn).issued(),
            ),
        ),
{
    proof {
        if conn.guarded() {
            crate::lifecycle::lemma_password_keeps_guard(
                passwords.current_pw@,
                passwords.new_pw@,
                option_text(pw_hash),
                token_view(token),
                conn.rows(),
                conn.issued(),
            );
        }
    }
    let current = match require_identity(token, conn) {
        Ok(user) => user,
        Err((f, session)) => {
            return (Err(f), session);
        },
    };
    match check_password_update(passwords, &current) {
        Ok(_) => {},
        Err(f) => {
            return (Err(f), SessionAction::Keep);
        },
    }
    store_password(current.id, pw_hash, conn)
}

/// Whether a password change gets as far as hashing the new password: the
/// request has an identity, and the change is allowed.
pub open spec fn password_reaches_hash(
    current_pw: Seq<char>,
    new_pw: Seq<char>,
    token: Option<Seq<char>>,
    rows: Seq<UserView>,
) -> bool {
    resolve(token, rows) matches Ok(current) && password_denial(current_pw, new_pw, current)
        is None
}

/// Changes the identity's password. The new password is hashed only where
/// the change is allowed, and then under a fresh random salt: what is
/// stored is the hash that scrypt computes for the new password under that
/// salt, and it verifies the new password. An allowed change succeeds and
/// ends the session.
pub fn update_password(passwords: &PasswordUpdate, token: Option<&str>, conn: &mut UserTable)
    -> (r: (Result<(), Failure>, SessionAction))
    requires
        old(conn).wf(),
    ensures
        final(conn).wf(),
        old(conn).guarded() ==> final(conn).guarded(),
        exists|salt: Seq<char>|
            #![trigger scrypt_hash(passwords.new_pw@, salt)]
            {
                &&& password_reaches_hash(
                    passwords.current_pw@,
                    passwords.new_pw@,
                    token_view(token),
                    old(conn).rows(),
                ) ==> (scrypt_hash(passwords.new_pw@, salt) matches Some(h) && scrypt_verifies(
                    passwords.new_pw@,
                    h,
                ))
                &&& is_step(
                    r,
                    *final(conn),
                    password_step(
                        passwords.current_pw@,
                        passwords.new_pw@,
                        scrypt_hash(passwords.new_pw@, salt),
                        token_view(token),
                        old(conn).rows(),
                        old(conn).issued(),
                    ),
                )
            },
        password_reaches_hash(
            passwords.current_pw@,
            passwords.new_pw@,
            token_view(token),
            old(conn).rows(),
        ) ==> r.0 is Ok && r.1 == SessionAction::Clear,
{
    let ghost refused = password_step(
        passwords.current_pw@,
        passwords.new_pw@,
        scrypt_hash(passwords.new_pw@, Seq::<char>::empty()),
        token_view(token),
        conn.rows(),
        conn.issued(),
    );
    let current = match require_identity(token, conn) {
        Ok(user) => user,
        Err((f, session)) => {
            let r = (Err(f), session);
            assert(is_step(r, *conn, refused));
            return r;
        },
    };
    match check_password_update(passwords, &current) {
        Ok(_) => {},
        Err(f) => {
            let r = (Err(f), SessionAction::Keep);
            assert(is_step(r, *conn, refused));
            return r;
        },
    }
    let pw_hash = encrypt_pw(passwords.new_pw.as_str());
    let ghost salt = choose|salt: Seq<char>|
        #![trigger scrypt_hash(passwords.new_pw@, salt)]
        scrypt_hash(passwords.new_pw@, salt) == Some(pw_hash@);
    proof {
        if conn.guarded() {
            crate::lifecycle::lemma_password_keeps_guard(
                passwords.current_pw@,
                passwords.new_pw@,
                Some(pw_hash@),
                token_view(token),
                conn.rows(),
                conn.issued(),
            );
        }
    }
    let r = store_password(current.id, Some(pw_hash), conn);
    assert(is_step(
        r,
        *conn,
        password_step(
            passwords.current_pw@,
            passwords.new_pw@,
            scrypt_hash(passwords.new_pw@, salt),
            token_view(token),
            old(conn).rows(),
            old(conn).issued(),
        ),
    ));
    r
}

} // verus!

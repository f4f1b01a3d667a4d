//! Link operations: creation with its validation, listing, and the changes
//! that only the owner of a link or a link manager may make.

use vstd::prelude::*;
use chrono::Utc;
use crate::auth::{resolve, token_view};
use crate::models::links::{
    change_link_result, found_link_view, insert_link_result, link_views, links_of, lookup_short,
    rows_after_delete_link, rows_after_insert_link, rows_after_update_link, Link, LinkTable,
    LinkView,
};
use crate::models::users::{User, UserTable, UserView};
use crate::outcome::{
    failure, result_view, result_views, DbError, ErrorKind, Failure, FailureView, SessionAction,
};
use crate::routes::users::{rejected, require_identity};
use crate::text::{all_alphanumeric, has_prefix, is_alphanumeric, same_text, starts_with};

verus! {

/// What an operation on the link table comes to: its answer, what is to
/// happen to the session token, and the table afterwards.
pub struct LinkStep<T> {
    pub result: Result<T, FailureView>,
    pub session: SessionAction,
    pub links: Seq<LinkView>,
}

/// The request to create a link, as contracts see it.
pub struct NewLinkView {
    pub short: Seq<char>,
    pub long: Seq<char>,
    pub notes: Seq<char>,
}

/// The request to create a link.
#[derive(Debug)]
pub struct NewLink {
    pub short: String,
    pub long: String,
    pub notes: String,
}

impl View for NewLink {
    type V = NewLinkView;

    open spec fn view(&self) -> NewLinkView {
        NewLinkView { short: self.short@, long: self.long@, notes: self.notes@ }
    }
}

/// The short codes that no link can have, because the service answers
/// under these names itself.
pub open spec fn reserved(short: Seq<char>) -> bool {
    ||| short == ""@
    ||| short == "_app"@
    ||| short == "api"@
    ||| short == "login"@
    ||| short == "resource"@
    ||| short == "new_user"@
    ||| short == "setup"@
    ||| short == "manage_links"@
    ||| short == "manage_users"@
    ||| short == "manage_account"@
}

/// Whether no link can have this short code.
pub fn is_reserved(short: &str) -> (r: bool)
    ensures
        r == reserved(short@),
{
    same_text(short, "") || same_text(short, "_app") || same_text(short, "api") || same_text(
        short,
        "login",
    ) || same_text(short, "resource") || same_text(short, "new_user") || same_text(
        short,
        "setup",
    ) || same_text(short, "manage_links") || same_text(short, "manage_users") || same_text(
        short,
        "manage_account",
    )
}

/// A destination names its scheme: it begins with `http://` or `https://`.
pub open spec fn has_scheme(long: Seq<char>) -> bool {
    starts_with(long, "http://"@) || starts_with(long, "https://"@)
}

/// Whether a destination names its scheme.
pub fn names_scheme(long: &str) -> (r: bool)
    ensures
        r == has_scheme(long@),
{
    has_prefix(long, "http://") || has_prefix(long, "https://")
}

/// A short code and a destination that a link may have.
pub open spec fn valid_link(short: Seq<char>, long: Seq<char>) -> bool {
    all_alphanumeric(short) && !reserved(short) && has_scheme(long)
}

/// What is wrong with a new link: a short code that is not alphanumeric,
/// else one that is reserved, else a destination without scheme. All of
/// these the caller can correct.
pub open spec fn link_problem(short: Seq<char>, long: Seq<char>) -> Option<FailureView> {
    if !all_alphanumeric(short) {
        Some(
            failure(
                ErrorKind::Validation,
                "Shorts can only contain alphanumeric characters"@,
            ),
        )
    } else if reserved(short) {
        Some(failure(ErrorKind::Validation, "That short is reserved by this website"@))
    } else if !has_scheme(long) {
        Some(
            failure(
                ErrorKind::Validation,
                "That long does not begin with https:// or http://"@,
            ),
        )
    } else {
        None
    }
}

/// Checks the short code and the destination of a new link.
pub fn validate_link(short: &str, long: &str) -> (r: Result<(), Failure>)
    ensures
        match link_problem(short@, long@) {
            Some(f) => result_view(r) == Err::<(), FailureView>(f),
            None => r is Ok && valid_link(short@, long@),
        },
{
    if !is_alphanumeric(short) {
        Err(
            Failure::new(ErrorKind::Validation, "Shorts can only contain alphanumeric characters"),
        )
    } else if is_reserved(short) {
        Err(Failure::new(ErrorKind::Validation, "That short is reserved by this website"))
    } else if !names_scheme(long) {
        Err(
            Failure::new(
                ErrorKind::Validation,
                "That long does not begin with https:// or http://",
            ),
        )
    } else {
        Ok(())
    }
}

/// The answer to a creation once the table has answered the insert: the
/// destination of the new link.
pub open spec fn shorten_answer(inserted: Result<(), DbError>, long: Seq<char>) -> Result<
    Seq<char>,
    FailureView,
> {
    match inserted {
        Ok(_) => Ok(long),
        Err(DbError::UniqueViolation) => Err(
            failure(ErrorKind::Conflict, "That short is already in use"@),
        ),
        Err(_) => Err(failure(ErrorKind::Internal, "There was an internal server error"@)),
    }
}

/// Answers a creation once the table has answered the insert.
pub fn shorten_outcome(inserted: Result<(), DbError>, long: String) -> (r: Result<String, Failure>)
    ensures
        result_views(r) == shorten_answer(inserted, long@),
{
    match inserted {
        Ok(_) => Ok(long),
        Err(DbError::UniqueViolation) => Err(
            Failure::new(ErrorKind::Conflict, "That short is already in use"),
        ),
        Err(_) => Err(Failure::new(ErrorKind::Internal, "There was an internal server error")),
    }
}

/// The link that a request creates at a given time for a given user.
pub open spec fn new_link_row(new_link: NewLinkView, now: int, created_by: int) -> LinkView {
    LinkView {
        short: new_link.short,
        long: new_link.long,
        notes: new_link.notes,
        created_at: now,
        created_by,
    }
}

/// Creating a link at the time `now`: the request, its token, the users
/// and the links before.
pub open spec fn shorten_step(
    new_link: NewLinkView,
    now: int,
    token: Option<Seq<char>>,
    users: Seq<UserView>,
    links: Seq<LinkView>,
) -> LinkStep<Seq<char>> {
    match resolve(token, users) {
        Err(rejection) => LinkStep {
            result: Err(rejected(rejection)),
            session: rejection.session,
            links,
        },
        Ok(current) => match link_problem(new_link.short, new_link.long) {
            Some(f) => LinkStep { result: Err(f), session: SessionAction::Keep, links },
            None => {
                let link = new_link_row(new_link, now, current.id);
                LinkStep {
                    result: shorten_answer(insert_link_result(links, link), new_link.long),
                    session: SessionAction::Keep,
                    links: rows_after_insert_link(links, link),
                }
            },
        },
    }
}

/// An answer and a link table are those of a step.
pub open spec fn is_link_step<T>(
    result: Result<T, FailureView>,
    session: SessionAction,
    conn: LinkTable,
    step: LinkStep<T>,
) -> bool {
    &&& result == step.result
    &&& session == step.session
    &&& conn.rows() == step.links
}

/// Reads the clock: `Utc::now` of `chrono`, as seconds since the Unix
/// epoch. Nothing is claimed of the time.
#[verifier::external_body]
fn current_time() -> i64 {
    Utc::now().timestamp()
}

/// Creates a link at the given time, for the identity of the request.
pub fn shorten_at(
    new_link: NewLink,
    now: i64,
    token: Option<&str>,
    users: &UserTable,
    links: &mut LinkTable,
) -> (r: (Result<String, Failure>, SessionAction))
    requires
        users.wf(),
        old(links).wf(),
    ensures
        final(links).wf(),
        is_link_step(
            result_views(r.0),
            r.1,
            *final(links),
            shorten_step(
                new_link@,
                now as int,
                token_view(token),
                users.rows(),
                old(links).rows(),
            ),
        ),
{
    let current = match require_identity(token, users) {
        Ok(user) => user,
        Err((f, session)) => {
            return (Err(f), session);
        },
    };
    match validate_link(new_link.short.as_str(), new_link.long.as_str()) {
        Ok(_) => {},
        Err(f) => {
            return (Err(f), SessionAction::Keep);
        },
    }
    let long = new_link.long.clone();
    let link = Link {
        short: new_link.short,
        long: new_link.long,
        notes: new_link.notes,
        created_at: now,
        created_by: current.id,
    };
    (shorten_outcome(Link::insert(link, links), long), SessionAction::Keep)
}

/// Creates a link now, for the identity of the request.
pub fn shorten(new_link: NewLink, token: Option<&str>, users: &UserTable, links: &mut LinkTable)
    -> (r: (Result<String, Failure>, SessionAction))
    requires
        users.wf(),
        old(links).wf(),
    ensures
        final(links).wf(),
        exists|now: int|
            #[trigger] is_link_step(
                result_views(r.0),
                r.1,
                *final(links),
                shorten_step(new_link@, now, token_view(token), users.rows(), old(links).rows()),
            ),
{
    let now = current_time();
    let r = shorten_at(new_link, now, token, users, links);
    assert(is_link_step(
        result_views(r.0),
        r.1,
        *links,
        shorten_step(new_link@, now as int, token_view(token), users.rows(), old(links).rows()),
    ));
    r
}

/// The answer to a request for all links: only a link manager gets them.
pub open spec fn get_all_answer(
    token: Option<Seq<char>>,
    users: Seq<UserView>,
    links: Seq<LinkView>,
) -> (Result<Seq<LinkView>, FailureView>, SessionAction) {
    match resolve(token, users) {
        Err(rejection) => (Err(rejected(rejection)), rejection.session),
        Ok(current) => if current.manage_links {
            (Ok(links), SessionAction::Keep)
        } else {
            (
                Err(failure(ErrorKind::Forbidden, "You cannot manage links"@)),
                SessionAction::Keep,
            )
        },
    }
}

/// The links of a result, by their views.
pub open spec fn links_result(r: Result<Vec<Link>, Failure>) -> Result<
    Seq<LinkView>,
    FailureView,
> {
    match r {
        Ok(links) => Ok(link_views(links@)),
        Err(f) => Err(f@),
    }
}

/// Lists all links, for a link manager.
pub fn get_all(token: Option<&str>, users: &UserTable, links: &LinkTable) -> (r: (
    Result<Vec<Link>, Failure>,
    SessionAction,
))
    requires
        users.wf(),
    ensures
        (links_result(r.0), r.1) == get_all_answer(
            token_view(token),
            users.rows(),
            links.rows(),
        ),
{
    let current = match require_identity(token, users) {
        Ok(user) => user,
        Err((f, session)) => {
            return (Err(f), session);
        },
    };
    if !current.manage_links {
        return (
            Err(Failure::new(ErrorKind::Forbidden, "You cannot manage links")),
            SessionAction::Keep,
        );
    }
    match Link::all(links) {
        Ok(all) => (Ok(all), SessionAction::Keep),
        Err(_) => (
            Err(Failure::new(ErrorKind::Internal, "There was an internal server error")),
            SessionAction::Keep,
        ),
    }
}

/// The answer to a request for the identity's own links.
pub open spec fn get_for_user_answer(
    token: Option<Seq<char>>,
    users: Seq<UserView>,
    links: Seq<LinkView>,
) -> (Result<Seq<LinkView>, FailureView>, SessionAction) {
    match resolve(token, users) {
        Err(rejection) => (Err(rejected(rejection)), rejection.session),
        Ok(current) => (Ok(links_of(links, current.id)), SessionAction::Keep),
    }
}

/// Lists the links that the identity of the request created.
pub fn get_for_user(token: Option<&str>, users: &UserTable, links: &LinkTable) -> (r: (
    Result<Vec<Link>, Failure>,
    SessionAction,
))
    requires
        users.wf(),
    ensures
        (links_result(r.0), r.1) == get_for_user_answer(
            token_view(token),
            users.rows(),
            links.rows(),
        ),
{
    let current = match require_identity(token, users) {
        Ok(user) => user,
        Err((f, session)) => {
            return (Err(f), session);
        },
    };
    match Link::all_for_user(current.id, links) {
        Ok(own) => (Ok(own), SessionAction::Keep),
        Err(_) => (
            Err(Failure::new(ErrorKind::Internal, "There was an internal server error")),
            SessionAction::Keep,
        ),
    }
}

/// Why an identity may not change or delete a link; `None` where it may.
/// A link manager may, and so may the user that created the link.
pub open spec fn edit_denial(user: UserView, found: Result<LinkView, DbError>) -> Option<
    FailureView,
> {
    if user.manage_links {
        None
    } else {
        match found {
            Ok(link) => if link.created_by == user.id {
                None
            } else {
                Some(failure(ErrorKind::Forbidden, "You cannot edit that link"@))
            },
            Err(DbError::RowNotFound) => Some(
                failure(ErrorKind::NotFound, "That link does not exist"@),
            ),
            Err(_) => Some(failure(ErrorKind::Internal, "There was an internal server error"@)),
        }
    }
}

/// Decides whether `user` may change or delete a link, once the link has
/// been looked up.
pub fn check_can_edit(user: &User, found: Result<Link, DbError>) -> (r: Result<(), Failure>)
    ensures
        match edit_denial(user@, found_link_view(found)) {
            Some(f) => result_view(r) == Err::<(), FailureView>(f),
            None => r is Ok,
        },
{
    if user.manage_links {
        return Ok(());
    }
    match found {
        Ok(link) => {
            if link.created_by == user.id {
                Ok(())
            } else {
                Err(Failure::new(ErrorKind::Forbidden, "You cannot edit that link"))
            }
        },
        Err(DbError::RowNotFound) => Err(
            Failure::new(ErrorKind::NotFound, "That link does not exist"),
        ),
        Err(_) => Err(Failure::new(ErrorKind::Internal, "There was an internal server error")),
    }
}

/// The answer to a change of a link once the table has answered.
pub open spec fn change_answer(changed: Result<(), DbError>) -> Result<(), FailureView> {
    match changed {
        Ok(_) => Ok(()),
        Err(DbError::RowNotFound) => Err(
            failure(ErrorKind::NotFound, "That link does not exist"@),
        ),
        Err(_) => Err(failure(ErrorKind::Internal, "There was an internal server error"@)),
    }
}

/// Answers a change of a link once the table has answered.
pub fn change_outcome(changed: Result<(), DbError>) -> (r: Result<(), Failure>)
    ensures
        result_view(r) == change_answer(changed),
{
    match changed {
        Ok(_) => Ok(()),
        Err(DbError::RowNotFound) => Err(
            Failure::new(ErrorKind::NotFound, "That link does not exist"),
        ),
        Err(_) => Err(Failure::new(ErrorKind::Internal, "There was an internal server error")),
    }
}

/// The request to delete a link.
#[derive(Debug)]
pub struct Short {
    pub short: String,
}

/// Deleting a link: the short code, the token, the users and the links
/// before.
pub open spec fn delete_step(
    short: Seq<char>,
    token: Option<Seq<char>>,
    users: Seq<UserView>,
    links: Seq<LinkView>,
) -> LinkStep<()> {
    match resolve(token, users) {
        Err(rejection) => LinkStep {
            result: Err(rejected(rejection)),
            session: rejection.session,
            links,
        },
        Ok(current) => match edit_denial(current, lookup_short(links, short)) {
            Some(f) => LinkStep { result: Err(f), session: SessionAction::Keep, links },
            None => LinkStep {
                result: change_answer(change_link_result(links, short)),
                session: SessionAction::Keep,
                links: rows_after_delete_link(links, short),
            },
        },
    }
}

/// Deletes a link, for its owner or a link manager.
pub fn delete(request: &Short, token: Option<&str>, users: &UserTable, links: &mut LinkTable)
    -> (r: (Result<(), Failure>, SessionAction))
    requires
        users.wf(),
        old(links).wf(),
    ensures
        final(links).wf(),
        is_link_step(
            result_view(r.0),
            r.1,
            *final(links),
            delete_step(request.short@, token_view(token), users.rows(), old(links).rows()),
        ),
{
    let current = match require_identity(token, users) {
        Ok(user) => user,
        Err((f, session)) => {
            return (Err(f), session);
        },
    };
    match check_can_edit(&current, Link::get(request.short.as_str(), links)) {
        Ok(_) => {},
        Err(f) => {
            return (Err(f), SessionAction::Keep);
        },
    }
    (change_outcome(Link::delete(request.short.as_str(), links)), SessionAction::Keep)
}

/// The request to change the destination of a link, as contracts see it.
pub struct UpdateLongView {
    pub short: Seq<char>,
    pub long: Seq<char>,
}

/// The request to change the destination of a link.
#[derive(Debug)]
pub struct UpdateLong {
    pub short: String,
    pub long: String,
}

impl View for UpdateLong {
    type V = UpdateLongView;

    open spec fn view(&self) -> UpdateLongView {
        UpdateLongView { short: self.short@, long: self.long@ }
    }
}

/// What is wrong with a new destination.
pub open spec fn long_problem(long: Seq<char>) -> Option<FailureView> {
    if has_scheme(long) {
        None
    } else {
        Some(
            failure(
                ErrorKind::Validation,
                "That long does not begin with https:// or http://"@,
            ),
        )
    }
}

/// Checks a new destination.
pub fn validate_long(long: &str) -> (r: Result<(), Failure>)
    ensures
        match long_problem(long@) {
            Some(f) => result_view(r) == Err::<(), FailureView>(f),
            None => r is Ok && has_scheme(long@),
        },
{
    if names_scheme(long) {
        Ok(())
    } else {
        Err(
            Failure::new(
                ErrorKind::Validation,
                "That long does not begin with https:// or http://",
            ),
        )
    }
}

/// Changing the destination of a link: the request, the token, the users
/// and the links before. The short code stays as it is.
pub open spec fn update_step(
    update: UpdateLongView,
    token: Option<Seq<char>>,
    users: Seq<UserView>,
    links: Seq<LinkView>,
) -> LinkStep<()> {
    match resolve(token, users) {
        Err(rejection) => LinkStep {
            result: Err(rejected(rejection)),
            session: rejection.session,
            links,
        },
        Ok(current) => match edit_denial(current, lookup_short(links, update.short)) {
            Some(f) => LinkStep { result: Err(f), session: SessionAction::Keep, links },
            None => match long_problem(update.long) {
                Some(f) => LinkStep { result: Err(f), session: SessionAction::Keep, links },
                None => LinkStep {
                    result: change_answer(change_link_result(links, update.short)),
                    session: SessionAction::Keep,
                    links: rows_after_update_link(links, update.short, update.long),
                },
            },
        },
    }
}

/// Changes the destination of a link, for its owner or a link manager.
pub fn update(request: &UpdateLong, token: Option<&str>, users: &UserTable, links: &mut LinkTable)
    -> (r: (Result<(), Failure>, SessionAction))
    requires
        users.wf(),
        old(links).wf(),
    ensures
        final(links).wf(),
        is_link_step(
            result_view(r.0),
            r.1,
            *final(links),
            update_step(request@, token_view(token), users.rows(), old(links).rows()),
        ),
{
    let current = match require_identity(token, users) {
        Ok(user) => user,
        Err((f, session)) => {
            return (Err(f), session);
        },
    };
    match check_can_edit(&current, Link::get(request.short.as_str(), links)) {
        Ok(_) => {},
        Err(f) => {
            return (Err(f), SessionAction::Keep);
        },
    }
    match validate_long(request.long.as_str()) {
        Ok(_) => {},
        Err(f) => {
            return (Err(f), SessionAction::Keep);
        },
    }
    (
        change_outcome(Link::update(request.short.as_str(), request.long.as_str(), links)),
        SessionAction::Keep,
    )
}

} // verus!

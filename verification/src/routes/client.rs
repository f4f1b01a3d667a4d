//! What the service shows a browser: the redirect behind a short code, and
//! which page an identity may open.

use vstd::prelude::*;
use vstd::string::StringExecFns;
use crate::models::links::{found_link_view, lookup_short, Link, LinkTable, LinkView};
use crate::models::users::{User, UserView};
use crate::outcome::{failure, result_views, DbError, ErrorKind, Failure, FailureView};

verus! {

/// A redirect as contracts see it.
pub struct RedirectView {
    pub to: Seq<char>,
    pub permanent: bool,
}

/// An answer that sends the browser elsewhere.
#[derive(Debug)]
pub struct Redirect {
    pub to: String,
    pub permanent: bool,
}

impl View for Redirect {
    type V = RedirectView;

    open spec fn view(&self) -> RedirectView {
        RedirectView { to: self.to@, permanent: self.permanent }
    }
}

/// The answer to a short code, given what the lookup found: a permanent
/// redirect to the destination of the link.
pub open spec fn link_answer(found: Result<LinkView, DbError>) -> Result<RedirectView, FailureView> {
    match found {
        Ok(link) => Ok(RedirectView { to: link.long, permanent: true }),
        Err(DbError::RowNotFound) => Err(
            failure(ErrorKind::NotFound, "That link does not exist"@),
        ),
        Err(_) => Err(failure(ErrorKind::Internal, "There was an internal server error"@)),
    }
}

/// Answers a short code once the link has been looked up.
pub fn link(found: Result<Link, DbError>) -> (r: Result<Redirect, Failure>)
    ensures
        result_views(r) == link_answer(found_link_view(found)),
{
    match found {
        Ok(link) => Ok(Redirect { to: link.long, permanent: true }),
        Err(DbError::RowNotFound) => Err(
            Failure::new(ErrorKind::NotFound, "That link does not exist"),
        ),
        Err(_) => Err(Failure::new(ErrorKind::Internal, "There was an internal server error")),
    }
}

/// Looks a short code up. Nobody needs an identity for this.
pub fn lookup(short: &str, conn: &LinkTable) -> (r: Result<Redirect, Failure>)
    requires
        conn.wf(),
    ensures
        result_views(r) == link_answer(lookup_short(conn.rows(), short@)),
{
    link(Link::get(short, conn))
}

/// The pages of the service.
#[derive(Clone, Copy, Debug, PartialEq, Eq, Structural)]
pub enum Page {
    Index,
    ManageLinks,
    ManageUsers,
    ManageAccount,
    NewUser,
    Login,
    Setup,
}

/// The permission that a page asks of the identity that opens it.
pub open spec fn page_allowed(page: Page, user: UserView) -> bool {
    match page {
        Page::ManageLinks => user.manage_links,
        Page::ManageUsers | Page::NewUser => user.manage_users,
        _ => true,
    }
}

/// Whether `user` may open `page`.
pub fn open_page(page: Page, user: &User) -> (r: Result<Page, ErrorKind>)
    ensures
        r == if page_allowed(page, user@) {
            Ok::<Page, ErrorKind>(page)
        } else {
            Err::<Page, ErrorKind>(ErrorKind::Forbidden)
        },
{
    let allowed = match page {
        Page::ManageLinks => user.manage_links,
        Page::ManageUsers => user.manage_users,
        Page::NewUser => user.manage_users,
        _ => true,
    };
    if allowed {
        Ok(page)
    } else {
        Err(ErrorKind::Forbidden)
    }
}

/// The start page, for every identity.
pub fn index(user: &User) -> (r: Result<Page, ErrorKind>)
    ensures
        r == Ok::<Page, ErrorKind>(Page::Index),
{
    open_page(Page::Index, user)
}

/// The page that lists all links, for a link manager.
pub fn manage_links(user: &User) -> (r: Result<Page, ErrorKind>)
    ensures
        r == if user.manage_links {
            Ok::<Page, ErrorKind>(Page::ManageLinks)
        } else {
            Err::<Page, ErrorKind>(ErrorKind::Forbidden)
        },
{
    open_page(Page::ManageLinks, user)
}

/// The page that lists all users, for a user manager.
pub fn manage_users(user: &User) -> (r: Result<Page, ErrorKind>)
    ensures
        r == if user.manage_users {
            Ok::<Page, ErrorKind>(Page::ManageUsers)
        } else {
            Err::<Page, ErrorKind>(ErrorKind::Forbidden)
        },
{
    open_page(Page::ManageUsers, user)
}

/// The page of the identity's own account, for every identity.
pub fn manage_account(user: &User) -> (r: Result<Page, ErrorKind>)
    ensures
        r == Ok::<Page, ErrorKind>(Page::ManageAccount),
{
    open_page(Page::ManageAccount, user)
}

/// The page that creates a user, for a user manager.
pub fn new_user(user: &User) -> (r: Result<Page, ErrorKind>)
    ensures
        r == if user.manage_users {
            Ok::<Page, ErrorKind>(Page::NewUser)
        } else {
            Err::<Page, ErrorKind>(ErrorKind::Forbidden)
        },
{
    open_page(Page::NewUser, user)
}

/// The login page: a request that has an identity is sent to the start
/// page instead.
pub fn login(user: Option<&User>) -> (r: Result<Page, Redirect>)
    ensures
        match r {
            Ok(page) => user is None && page == Page::Login,
            Err(redirect) => user is Some && redirect@ == (RedirectView {
                to: "/"@,
                permanent: false,
            }),
        },
{
    match user {
        Some(_) => Err(Redirect { to: String::from_str("/"), permanent: false }),
        None => Ok(Page::Login),
    }
}

/// The page that sets the service up, open only while there is no user.
pub fn setup(count: Result<i64, DbError>) -> (r: Result<Page, ErrorKind>)
    ensures
        r == match count {
            Ok(n) => if n == 0 {
                Ok::<Page, ErrorKind>(Page::Setup)
            } else {
                Err::<Page, ErrorKind>(ErrorKind::Forbidden)
            },
            Err(_) => Err::<Page, ErrorKind>(ErrorKind::Internal),
        },
{
    match count {
        Ok(n) => {
            if n == 0 {
                Ok(Page::Setup)
            } else {
                Err(ErrorKind::Forbidden)
            }
        },
        Err(_) => Err(ErrorKind::Internal),
    }
}

} // verus!

//! What the service answers when a request ends in an error status.

use vstd::prelude::*;
use vstd::string::StringExecFns;
use crate::routes::client::{Redirect, RedirectView};

verus! {

/// What an error page shows, as contracts see it.
pub struct ErrorContextView {
    pub code: int,
    pub message: Seq<char>,
    pub details: Seq<char>,
}

/// What an error page shows.
#[derive(Debug)]
pub struct ErrorContext {
    pub code: u32,
    pub message: String,
    pub details: String,
}

impl View for ErrorContext {
    type V = ErrorContextView;

    open spec fn view(&self) -> ErrorContextView {
        ErrorContextView { code: self.code as int, message: self.message@, details: self.details@ }
    }
}

/// A request without identity is sent to the login page.
pub fn unauthorized() -> (r: Redirect)
    ensures
        r@ == (RedirectView { to: "/login"@, permanent: false }),
{
    Redirect { to: String::from_str("/login"), permanent: false }
}

/// The page for a request that the rules do not allow.
pub fn forbidden() -> (r: ErrorContext)
    ensures
        r@ == (ErrorContextView {
            code: 403,
            message: "Your user does not have permission to do that."@,
            details: "If you feel that is in error, contact who set up your account"@,
        }),
{
    ErrorContext {
        code: 403,
        message: String::from_str("Your user does not have permission to do that."),
        details: String::from_str("If you feel that is in error, contact who set up your account"),
    }
}

/// The page for a short code that no link has.
pub fn not_found() -> (r: ErrorContext)
    ensures
        r@ == (ErrorContextView {
            code: 404,
            message: "That link does not exist"@,
            details: "Please check that you entered it correctly"@,
        }),
{
    ErrorContext {
        code: 404,
        message: String::from_str("That link does not exist"),
        details: String::from_str("Please check that you entered it correctly"),
    }
}

/// The page for an unexpected failure. It says nothing of the cause.
pub fn internal_error() -> (r: ErrorContext)
    ensures
        r@ == (ErrorContextView {
            code: 500,
            message: "There was an internal server error"@,
            details: "Looks like we messed up, please report an error"@,
        }),
{
    ErrorContext {
        code: 500,
        message: String::from_str("There was an internal server error"),
        details: String::from_str("Looks like we messed up, please report an error"),
    }
}

/// The page for a service that cannot answer at the moment.
pub fn service_unavailable() -> (r: ErrorContext)
    ensures
        r@ == (ErrorContextView {
            code: 503,
            message: "Linkr is temporarily unavailable"@,
            details: "Please try again shortly"@,
        }),
{
    ErrorContext {
        code: 503,
        message: String::from_str("Linkr is temporarily unavailable"),
        details: String::from_str("Please try again shortly"),
    }
}

} // verus!

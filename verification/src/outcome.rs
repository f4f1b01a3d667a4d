//! What an operation answers: the kinds of failure, the failure itself with
//! its message, and what is to happen to the caller's session token.

use vstd::prelude::*;
use vstd::string::StringExecFns;

verus! {

/// The kinds of failure an operation can end in.
#[derive(Clone, Copy, Debug, PartialEq, Eq, Structural)]
pub enum ErrorKind {
    /// No usable identity: no token, a malformed or stale one, a disabled
    /// account, or a wrong password.
    Unauthenticated,
    /// A known identity that the rules do not allow to do this.
    Forbidden,
    /// The entity acted upon does not exist.
    NotFound,
    /// A username or short code that is already taken.
    Conflict,
    /// Input that the caller can correct.
    Validation,
    /// Storage or the hashing algorithm failed unexpectedly.
    Internal,
}

impl ErrorKind {
    /// The HTTP status code that stands for this kind.
    pub open spec fn code(self) -> int {
        match self {
            ErrorKind::Unauthenticated => 401,
            ErrorKind::Forbidden => 403,
            ErrorKind::NotFound => 404,
            ErrorKind::Conflict => 409,
            ErrorKind::Validation => 400,
            ErrorKind::Internal => 500,
        }
    }

    /// The HTTP status code that stands for this kind.
    pub fn status_code(self) -> (r: u16)
        ensures
            r == self.code(),
    {
        match self {
            ErrorKind::Unauthenticated => 401,
            ErrorKind::Forbidden => 403,
            ErrorKind::NotFound => 404,
            ErrorKind::Conflict => 409,
            ErrorKind::Validation => 400,
            ErrorKind::Internal => 500,
        }
    }
}

/// A failure as contracts see it.
pub struct FailureView {
    pub kind: ErrorKind,
    pub message: Seq<char>,
}

/// A failed operation: its kind, and a message for the caller.
#[derive(Debug)]
pub struct Failure {
    pub kind: ErrorKind,
    pub message: String,
}

impl View for Failure {
    type V = FailureView;

    open spec fn view(&self) -> FailureView {
        FailureView { kind: self.kind, message: self.message@ }
    }
}

/// The view of a failure of the given kind and message.
pub open spec fn failure(kind: ErrorKind, message: Seq<char>) -> FailureView {
    FailureView { kind, message }
}

impl Failure {
    /// A failure of the given kind with the given message.
    pub fn new(kind: ErrorKind, message: &str) -> (r: Failure)
        ensures
            r@ == failure(kind, message@),
    {
        Failure { kind, message: String::from_str(message) }
    }
}

/// A result as contracts see it: the failure by its view.
pub open spec fn result_view<T>(r: Result<T, Failure>) -> Result<T, FailureView> {
    match r {
        Ok(v) => Ok(v),
        Err(e) => Err(e@),
    }
}

/// A result as contracts see it: the value and the failure by their views.
pub open spec fn result_views<T: View>(r: Result<T, Failure>) -> Result<T::V, FailureView> {
    match r {
        Ok(v) => Ok(v@),
        Err(e) => Err(e@),
    }
}

/// What the boundary is to do with the client's session token once an
/// operation has answered.
#[derive(Clone, Copy, Debug, PartialEq, Eq, Structural)]
pub enum SessionAction {
    /// Leave the token as it is.
    Keep,
    /// Hand the client a token for this user id.
    Issue(i32),
    /// Discard the client's token.
    Clear,
}

/// How a storage call can fail.
#[derive(Clone, Copy, Debug, PartialEq, Eq, Structural)]
pub enum DbError {
    /// The row asked for does not exist.
    RowNotFound,
    /// A uniqueness constraint refused the change.
    UniqueViolation,
    /// Any other error that the database reported.
    Database,
    /// A failure outside the database: the connection, the protocol.
    Other,
}

/// The SQLSTATE code with which a database reports a uniqueness violation.
pub open spec fn unique_violation_code() -> Seq<char> {
    "23505"@
}

/// The storage error that a database error with the given SQLSTATE code
/// stands for. An error without a code is an ordinary database error.
pub fn database_error(code: Option<&str>) -> (e: DbError)
    ensures
        e == if code matches Some(c) && c@ == unique_violation_code() {
            DbError::UniqueViolation
        } else {
            DbError::Database
        },
{
    match code {
        Some(c) => {
            if crate::text::same_text(c, "23505") {
                DbError::UniqueViolation
            } else {
                DbError::Database
            }
        },
        None => DbError::Database,
    }
}

} // verus!

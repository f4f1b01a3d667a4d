//! The session resolver: from the token a client presents to the identity
//! it stands for.
//!
//! A token carries one user id in decimal. It is resolved anew on every
//! request, so a disabled or deleted account loses its session with the
//! next request it makes.

use vstd::prelude::*;
use crate::models::users::{
    found_view, has_id, index_of_id, lookup_id, User, UserTable, UserView,
};
use crate::outcome::{DbError, ErrorKind, SessionAction};
use crate::text::{decimal_i32, parse_i32};

verus! {

/// Why a request has no identity, and what is to happen to its token.
#[derive(Clone, Copy, Debug, PartialEq, Eq, Structural)]
pub struct Rejection {
    pub kind: ErrorKind,
    pub session: SessionAction,
}

/// A token as contracts see it.
pub open spec fn token_view(token: Option<&str>) -> Option<Seq<char>> {
    match token {
        Some(t) => Some(t@),
        None => None,
    }
}

/// The user id that a token carries, if it carries one.
pub open spec fn token_user_id(token: Option<Seq<char>>) -> Option<int> {
    match token {
        Some(t) => decimal_i32(t),
        None => None,
    }
}

/// No identity, and the token stays as it is.
pub open spec fn unauthenticated() -> Rejection {
    Rejection { kind: ErrorKind::Unauthenticated, session: SessionAction::Keep }
}

/// No identity, and the token is stale: the client is to discard it.
pub open spec fn stale() -> Rejection {
    Rejection { kind: ErrorKind::Unauthenticated, session: SessionAction::Clear }
}

/// What the lookup of a token's user id resolves to. A user that is not
/// there makes the token stale; a disabled user has no session; a storage
/// failure is an internal error. Nothing tells a caller which of the first
/// two it was but the fate of the token.
pub open spec fn resolve_lookup(found: Result<UserView, DbError>) -> Result<UserView, Rejection> {
    match found {
        Ok(user) => if user.disabled {
            Err(unauthenticated())
        } else {
            Ok(user)
        },
        Err(DbError::RowNotFound) => Err(stale()),
        Err(_) => Err(Rejection { kind: ErrorKind::Internal, session: SessionAction::Keep }),
    }
}

/// The identity that a token resolves to against the rows of the user
/// table.
pub open spec fn resolve(token: Option<Seq<char>>, rows: Seq<UserView>) -> Result<
    UserView,
    Rejection,
> {
    match token_user_id(token) {
        None => Err(unauthenticated()),
        Some(id) => resolve_lookup(lookup_id(rows, id)),
    }
}

/// The token that stands for a user id.
pub open spec fn token_for(id: int) -> Seq<char> {
    crate::text::decimal_text(id)
}

impl User {
    /// The user id that a token carries. A missing token carries none, nor
    /// does one that is no decimal 32-bit integer.
    pub fn token_id(token: Option<&str>) -> (r: Option<i32>)
        ensures
            match r {
                Some(id) => token_user_id(token_view(token)) == Some(id as int),
                None => token_user_id(token_view(token)) is None,
            },
    {
        match token {
            Some(t) => parse_i32(t),
            None => None,
        }
    }

    /// Decides on the identity once the user that the token names has been
    /// looked up.
    pub fn from_lookup(found: Result<User, DbError>) -> (r: Result<User, Rejection>)
        ensures
            match r {
                Ok(u) => found == Ok::<User, DbError>(u) && resolve_lookup(found_view(found))
                    == Ok::<UserView, Rejection>(u@),
                Err(e) => resolve_lookup(found_view(found)) == Err::<UserView, Rejection>(e),
            },
    {
        match found {
            Ok(user) => {
                if user.disabled {
                    Err(
                        Rejection {
                            kind: ErrorKind::Unauthenticated,
                            session: SessionAction::Keep,
                        },
                    )
                } else {
                    Ok(user)
                }
            },
            Err(DbError::RowNotFound) => Err(
                Rejection { kind: ErrorKind::Unauthenticated, session: SessionAction::Clear },
            ),
            Err(_) => Err(Rejection { kind: ErrorKind::Internal, session: SessionAction::Keep }),
        }
    }

    /// Resolves the token of a request to the identity it stands for.
    pub fn from_request(token: Option<&str>, conn: &UserTable) -> (r: Result<User, Rejection>)
        requires
            conn.wf(),
        ensures
            match r {
                Ok(u) => resolve(token_view(token), conn.rows()) == Ok::<UserView, Rejection>(u@),
                Err(e) => resolve(token_view(token), conn.rows()) == Err::<UserView, Rejection>(
                    e,
                ),
            },
    {
        match User::token_id(token) {
            Some(id) => User::from_lookup(User::get(id, conn)),
            None => Err(
                Rejection { kind: ErrorKind::Unauthenticated, session: SessionAction::Keep },
            ),
        }
    }

    /// The token that stands for this user.
    pub fn token(&self) -> (r: String)
        ensures
            r@ == token_for(self.id as int),
    {
        crate::text::i32_string(self.id)
    }
}

/// The token issued for a user id carries that id.
pub proof fn lemma_token_carries_id(id: int)
    requires
        i32::MIN <= id <= i32::MAX,
    ensures
        token_user_id(Some(token_for(id))) == Some(id),
{
    crate::text::lemma_decimal_text_read_back(id);
}

/// A disabled user's token resolves to no identity, though its row is
/// still there; and so does the token of a user that is not there, which
/// is moreover stale.
pub proof fn lemma_disabled_or_absent_has_no_session(rows: Seq<UserView>, id: int)
    requires
        i32::MIN <= id <= i32::MAX,
    ensures
        has_id(rows, id) && rows[index_of_id(rows, id)].disabled ==> resolve(
            Some(token_for(id)),
            rows,
        ) == Err::<UserView, Rejection>(unauthenticated()),
        !has_id(rows, id) ==> resolve(Some(token_for(id)), rows) == Err::<UserView, Rejection>(
            stale(),
        ),
{
    lemma_token_carries_id(id);
}

} // verus!

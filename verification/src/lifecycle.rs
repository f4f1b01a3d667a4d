//! What holds of the accounts whatever requests arrive: the original user
//! is unique and protected, creation is guarded, a disabled account has no
//! session, and an identity acts on itself only with its password.

use vstd::prelude::*;
use crate::auth::{
    lemma_token_carries_id, resolve, stale, token_for, unauthenticated, Rejection,
};
use crate::crypto::{insertable, scrypt_verifies};
use crate::models::users::{
    guarded, has_id, index_of_id, insert_result, lemma_insert_keeps, lemma_original_is_unique,
    lemma_own_name_is_free, lemma_remove_keeps, lemma_update_keeps, lookup_id,
    name_taken_by_other, new_row, rename_result, well_formed, UserView,
};
use crate::outcome::{DbError, ErrorKind, FailureView, SessionAction};
use crate::routes::users::{
    about_other, bad_credentials, creation_grant, creation_problem, destruct_denial,
    destruct_step, identity, login_answer, new_step, password_denial, password_step,
    permissions_denial, permissions_step, self_destruct_step, username_denial, username_step,
    DeleteRequestView, Destruct, NewUserView, PermissionsUpdate, PublicUserView,
    UsernameUpdateView,
};

verus! {

/// The identity of a request is a row of the table, found under its id.
pub proof fn lemma_identity_is_row(token: Option<Seq<char>>, rows: Seq<UserView>)
    ensures
        resolve(token, rows) matches Ok(current) ==> has_id(rows, current.id) && lookup_id(
            rows,
            current.id,
        ) == Ok::<UserView, DbError>(current) && !current.disabled
            && 0 <= index_of_id(rows, current.id) < rows.len(),
{
}

/// A request that needs an identity and has none is refused as
/// unauthenticated, whatever it asks for, and changes nothing. Nothing in
/// the answer tells a missing token from a stale one or a disabled user.
pub proof fn lemma_no_identity_is_unauthenticated(
    action: Destruct,
    request: DeleteRequestView,
    permissions: PermissionsUpdate,
    username: UsernameUpdateView,
    current_pw: Seq<char>,
    new_pw: Seq<char>,
    pw_hash: Option<Seq<char>>,
    token: Option<Seq<char>>,
    rows: Seq<UserView>,
    issued: int,
)
    requires
        resolve(token, rows) is Err,
    ensures
        ({
            let refused = Err::<(), FailureView>(
                crate::outcome::failure(ErrorKind::Unauthenticated, "You are not logged in"@),
            );
            let destruct = destruct_step(action, request, token, rows, issued);
            let permit = permissions_step(permissions, token, rows, issued);
            let rename = username_step(username, token, rows, issued);
            let password = password_step(current_pw, new_pw, pw_hash, token, rows, issued);
            &&& destruct.result == refused && destruct.rows == rows
            &&& permit.result == refused && permit.rows == rows
            &&& rename.result == refused && rename.rows == rows
            &&& password.result == refused && password.rows == rows
        }),
{
}

/// A login that fails tells nothing of why: a name that no user has, a
/// wrong password and a disabled user, even with its right password, get
/// one and the same answer, and no token.
pub proof fn lemma_login_failures_answer_alike(
    unknown: DbError,
    user: UserView,
    password: Seq<char>,
)
    requires
        user.disabled || !scrypt_verifies(password, user.pw_hash),
    ensures
        login_answer(Err(unknown), password) == (
            Err::<PublicUserView, FailureView>(bad_credentials()),
            SessionAction::Keep,
        ),
        login_answer(Ok(user), password) == login_answer(Err(unknown), password),
{
}

/// Creating a user keeps the rule of the original user, whatever the
/// request and whether or not hashing succeeded.
pub proof fn lemma_new_keeps_guard(
    new_user: NewUserView,
    pw_hash: Option<Seq<char>>,
    token: Option<Seq<char>>,
    rows: Seq<UserView>,
    issued: int,
)
    requires
        guarded(rows, issued),
    ensures
        guarded(
            new_step(new_user, pw_hash, token, rows, issued).rows,
            new_step(new_user, pw_hash, token, rows, issued).issued,
        ),
{
    lemma_original_is_unique(rows, issued);
    lemma_identity_is_row(token, rows);
    if let Ok(orig) = creation_grant(identity(token, rows), Ok(rows.len() as i64)) {
        if creation_problem(new_user, orig) is None {
            if let Some(h) = pw_hash {
                let user = insertable(new_user, h, orig);
                if insert_result(rows, issued, user) is Ok {
                    lemma_insert_keeps(rows, issued, user);
                }
            }
        }
    }
}

/// Without the permission to manage users no user is created once there is
/// one: the request is forbidden and the table stays as it is.
pub proof fn lemma_creation_needs_manager(
    new_user: NewUserView,
    pw_hash: Option<Seq<char>>,
    token: Option<Seq<char>>,
    rows: Seq<UserView>,
    issued: int,
)
    requires
        well_formed(rows, issued),
        rows.len() > 0,
        identity(token, rows) matches Some(current) ==> !current.manage_users,
    ensures
        new_step(new_user, pw_hash, token, rows, issued).result matches Err(f) && f.kind
            == ErrorKind::Forbidden,
        new_step(new_user, pw_hash, token, rows, issued).rows == rows,
        new_step(new_user, pw_hash, token, rows, issued).issued == issued,
{
}

/// While there is no user, every request creates the original user,
/// whoever sends it and whatever it holds, and logs that user in.
pub proof fn lemma_first_user_is_original(
    new_user: NewUserView,
    pw_hash: Seq<char>,
    token: Option<Seq<char>>,
    rows: Seq<UserView>,
    issued: int,
)
    requires
        guarded(rows, issued),
        rows.len() == 0,
    ensures
        ({
            let step = new_step(new_user, Some(pw_hash), token, rows, issued);
            &&& step.result == Ok::<i32, FailureView>(1)
            &&& step.session == SessionAction::Issue(1)
            &&& step.rows == seq![new_row(insertable(new_user, pw_hash, true), 1)]
            &&& step.rows[0].orig
            &&& step.rows[0].username == new_user.username
        }),
{
    lemma_original_is_unique(rows, issued);
    let user = insertable(new_user, pw_hash, true);
    assert(insert_result(rows, issued, user) == Ok::<i32, DbError>(1));
    let step = new_step(new_user, Some(pw_hash), token, rows, issued);
    assert(step.rows =~= seq![new_row(user, 1)]);
}

/// Deleting, disabling and enabling keep the rule of the original user.
pub proof fn lemma_destruct_keeps_guard(
    action: Destruct,
    request: DeleteRequestView,
    token: Option<Seq<char>>,
    rows: Seq<UserView>,
    issued: int,
)
    requires
        guarded(rows, issued),
    ensures
        guarded(
            destruct_step(action, request, token, rows, issued).rows,
            destruct_step(action, request, token, rows, issued).issued,
        ),
{
    if let Ok(current) = resolve(token, rows) {
        if destruct_denial(request, current, lookup_id(rows, request.id), action.verb()) is None {
            let k = index_of_id(rows, request.id);
            lemma_own_name_is_free(rows, issued, k);
            match action {
                Destruct::Delete => lemma_remove_keeps(rows, issued, k),
                Destruct::Disable => lemma_update_keeps(
                    rows,
                    issued,
                    k,
                    rows[k].with_disabled(true),
                ),
                Destruct::Enable => lemma_update_keeps(
                    rows,
                    issued,
                    k,
                    rows[k].with_disabled(false),
                ),
            }
        }
    }
}

/// The original user is neither deleted nor disabled nor enabled: for every
/// identity, whatever its permissions and whatever password it sends, the
/// request is forbidden and the table stays as it is.
pub proof fn lemma_original_is_protected(
    action: Destruct,
    request: DeleteRequestView,
    token: Option<Seq<char>>,
    rows: Seq<UserView>,
    issued: int,
)
    requires
        resolve(token, rows) is Ok,
        lookup_id(rows, request.id) matches Ok(target) && target.orig,
    ensures
        destruct_step(action, request, token, rows, issued).result matches Err(f) && f.kind
            == ErrorKind::Forbidden,
        destruct_step(action, request, token, rows, issued).rows == rows,
{
}

/// Once a user is disabled its token resolves to no identity, though its
/// row is still there.
pub proof fn lemma_disabled_loses_session(
    request: DeleteRequestView,
    token: Option<Seq<char>>,
    rows: Seq<UserView>,
    issued: int,
)
    requires
        well_formed(rows, issued),
        destruct_step(Destruct::Disable, request, token, rows, issued).result is Ok,
    ensures
        ({
            let after = destruct_step(Destruct::Disable, request, token, rows, issued).rows;
            &&& has_id(after, request.id)
            &&& resolve(Some(token_for(request.id)), after) == Err::<UserView, Rejection>(
                unauthenticated(),
            )
        }),
{
    let current = resolve(token, rows)->Ok_0;
    let k = index_of_id(rows, request.id);
    assert(has_id(rows, request.id));
    assert(1 <= rows[k].id <= issued);
    lemma_own_name_is_free(rows, issued, k);
    lemma_update_keeps(rows, issued, k, rows[k].with_disabled(true));
    lemma_token_carries_id(request.id);
}

/// Once a user is deleted its token is stale.
pub proof fn lemma_deleted_loses_session(
    request: DeleteRequestView,
    token: Option<Seq<char>>,
    rows: Seq<UserView>,
    issued: int,
)
    requires
        well_formed(rows, issued),
        destruct_step(Destruct::Delete, request, token, rows, issued).result is Ok,
    ensures
        ({
            let after = destruct_step(Destruct::Delete, request, token, rows, issued).rows;
            &&& !has_id(after, request.id)
            &&& resolve(Some(token_for(request.id)), after) == Err::<UserView, Rejection>(
                stale(),
            )
        }),
{
    let k = index_of_id(rows, request.id);
    assert(has_id(rows, request.id));
    assert(1 <= rows[k].id <= issued);
    lemma_remove_keeps(rows, issued, k);
    lemma_token_carries_id(request.id);
}

/// An identity does not delete, disable or enable itself by the request an
/// administrator makes about another user, whatever its permissions.
pub proof fn lemma_no_self_destruct_as_other(
    action: Destruct,
    token: Option<Seq<char>>,
    rows: Seq<UserView>,
    issued: int,
)
    requires
        resolve(token, rows) is Ok,
    ensures
        ({
            let current = resolve(token, rows)->Ok_0;
            let step = destruct_step(action, about_other(current.id), token, rows, issued);
            &&& step.result matches Err(f) && f.kind == ErrorKind::Forbidden
            &&& step.rows == rows
        }),
{
    lemma_identity_is_row(token, rows);
}

/// An identity other than the original user deletes or disables itself
/// with its own password, and loses its session by it. With another
/// password the request is refused as unauthenticated.
pub proof fn lemma_self_destruct_with_password(
    action: Destruct,
    password: Seq<char>,
    token: Option<Seq<char>>,
    rows: Seq<UserView>,
    issued: int,
)
    requires
        action != Destruct::Enable,
        resolve(token, rows) matches Ok(current) && !current.orig,
    ensures
        ({
            let current = resolve(token, rows)->Ok_0;
            let step = self_destruct_step(action, password, token, rows, issued);
            if scrypt_verifies(password, current.pw_hash) {
                &&& step.result is Ok
                &&& step.session == SessionAction::Clear
            } else {
                &&& step.result matches Err(f) && f.kind == ErrorKind::Unauthenticated
                &&& step.rows == rows
            }
        }),
{
    lemma_identity_is_row(token, rows);
}

/// Setting permissions keeps the rule of the original user.
pub proof fn lemma_permissions_keep_guard(
    update: PermissionsUpdate,
    token: Option<Seq<char>>,
    rows: Seq<UserView>,
    issued: int,
)
    requires
        guarded(rows, issued),
    ensures
        guarded(
            permissions_step(update, token, rows, issued).rows,
            permissions_step(update, token, rows, issued).issued,
        ),
{
    if let Ok(current) = resolve(token, rows) {
        if permissions_denial(update, current, lookup_id(rows, update.user_id as int)) is None {
            let k = index_of_id(rows, update.user_id as int);
            lemma_own_name_is_free(rows, issued, k);
            lemma_update_keeps(
                rows,
                issued,
                k,
                rows[k].with_permissions(update.manage_links, update.manage_users),
            );
        }
    }
}

/// Without the permission to manage users nobody's permissions change.
pub proof fn lemma_permissions_need_manager(
    update: PermissionsUpdate,
    token: Option<Seq<char>>,
    rows: Seq<UserView>,
    issued: int,
)
    requires
        resolve(token, rows) matches Ok(current) && !current.manage_users,
    ensures
        permissions_step(update, token, rows, issued).result matches Err(f) && f.kind
            == ErrorKind::Forbidden,
        permissions_step(update, token, rows, issued).rows == rows,
{
}

/// Renaming keeps the rule of the original user.
pub proof fn lemma_username_keeps_guard(
    update: UsernameUpdateView,
    token: Option<Seq<char>>,
    rows: Seq<UserView>,
    issued: int,
)
    requires
        guarded(rows, issued),
    ensures
        guarded(
            username_step(update, token, rows, issued).rows,
            username_step(update, token, rows, issued).issued,
        ),
{
    if let Ok(current) = resolve(token, rows) {
        if username_denial(update, current, lookup_id(rows, update.user_id)) is None {
            if rename_result(rows, update.user_id, update.new_name) is Ok {
                let k = index_of_id(rows, update.user_id);
                lemma_update_keeps(rows, issued, k, rows[k].with_username(update.new_name));
            }
        }
    }
}

/// An identity renames itself to any name that no other user holds, with
/// or without the permission to manage users; a name that another user
/// holds is a conflict for everyone and changes nothing.
pub proof fn lemma_own_username(
    new_name: Seq<char>,
    token: Option<Seq<char>>,
    rows: Seq<UserView>,
    issued: int,
)
    requires
        well_formed(rows, issued),
        resolve(token, rows) is Ok,
    ensures
        ({
            let current = resolve(token, rows)->Ok_0;
            let update = UsernameUpdateView { user_id: current.id, new_name };
            let step = username_step(update, token, rows, issued);
            if name_taken_by_other(rows, current.id, new_name) {
                &&& step.result matches Err(f) && f.kind == ErrorKind::Conflict
                &&& step.rows == rows
            } else {
                &&& step.result is Ok
                &&& lookup_id(step.rows, current.id) == Ok::<UserView, DbError>(
                    current.with_username(new_name),
                )
            }
        }),
{
    lemma_identity_is_row(token, rows);
    let current = resolve(token, rows)->Ok_0;
    if !name_taken_by_other(rows, current.id, new_name) {
        let k = index_of_id(rows, current.id);
        lemma_update_keeps(rows, issued, k, rows[k].with_username(new_name));
    }
}

/// A username that another user holds is a conflict for an administrator
/// too.
pub proof fn lemma_taken_username_conflicts(
    update: UsernameUpdateView,
    token: Option<Seq<char>>,
    rows: Seq<UserView>,
    issued: int,
)
    requires
        resolve(token, rows) matches Ok(current) && username_denial(
            update,
            current,
            lookup_id(rows, update.user_id),
        ) is None,
        has_id(rows, update.user_id),
        name_taken_by_other(rows, update.user_id, update.new_name),
    ensures
        username_step(update, token, rows, issued).result matches Err(f) && f.kind
            == ErrorKind::Conflict,
        username_step(update, token, rows, issued).rows == rows,
{
}

/// Changing a password keeps the rule of the original user.
pub proof fn lemma_password_keeps_guard(
    current_pw: Seq<char>,
    new_pw: Seq<char>,
    pw_hash: Option<Seq<char>>,
    token: Option<Seq<char>>,
    rows: Seq<UserView>,
    issued: int,
)
    requires
        guarded(rows, issued),
    ensures
        guarded(
            password_step(current_pw, new_pw, pw_hash, token, rows, issued).rows,
            password_step(current_pw, new_pw, pw_hash, token, rows, issued).issued,
        ),
{
    lemma_identity_is_row(token, rows);
    if let Ok(current) = resolve(token, rows) {
        if password_denial(current_pw, new_pw, current) is None {
            if let Some(h) = pw_hash {
                let k = index_of_id(rows, current.id);
                lemma_own_name_is_free(rows, issued, k);
                lemma_update_keeps(rows, issued, k, rows[k].with_pw_hash(h));
            }
        }
    }
}

/// A changed password ends the session, and the new hash is the one under
/// which the user is found afterwards.
pub proof fn lemma_password_change_ends_session(
    current_pw: Seq<char>,
    new_pw: Seq<char>,
    pw_hash: Seq<char>,
    token: Option<Seq<char>>,
    rows: Seq<UserView>,
    issued: int,
)
    requires
        well_formed(rows, issued),
        password_step(current_pw, new_pw, Some(pw_hash), token, rows, issued).result is Ok,
    ensures
        ({
            let current = resolve(token, rows)->Ok_0;
            let step = password_step(current_pw, new_pw, Some(pw_hash), token, rows, issued);
            &&& step.session == SessionAction::Clear
            &&& scrypt_verifies(current_pw, current.pw_hash)
            &&& new_pw != current_pw
            &&& lookup_id(step.rows, current.id) == Ok::<UserView, DbError>(
                current.with_pw_hash(pw_hash),
            )
        }),
{
    lemma_identity_is_row(token, rows);
    let current = resolve(token, rows)->Ok_0;
    let k = index_of_id(rows, current.id);
    lemma_own_name_is_free(rows, issued, k);
    lemma_update_keeps(rows, issued, k, rows[k].with_pw_hash(pw_hash));
}

} // verus!

use linkr::models::users::{InsertableUser, User, UserTable};
use linkr::outcome::{DbError, ErrorKind, SessionAction};
use linkr::routes::users::{
    authorize_creation, check_destruct, check_password_update, check_permissions_update,
    check_username_update, creation_outcome, delete, delete_by_id, delete_current,
    destruct_session, disable, disable_by_id, disable_current, enable, enable_by_id, get_all,
    get_current, login, login_with, logout, match_destruct_result_other, new, new_with_hash,
    update_password, update_password_with_hash, update_permissions, update_username,
    username_outcome, validate_creation, validate_new_user, DeleteRequest, Destruct, Login,
    NewUser, PasswordUpdate, PermissionsUpdate, UsernameUpdate, ID,
};

/// The hash of "secret" under a small work factor.
const SECRET_HASH: &str =
    "$scrypt$ln=4,r=8,p=1$MDEyMzQ1Njc4OWFiY2RlZg$gEeb/KeWbm5g+kBQOFr1yJbkjBxxxDOkhSmrSXFFwOg";

/// The hash of "old" under a small work factor.
const OLD_HASH: &str =
    "$scrypt$ln=4,r=8,p=1$MDEyMzQ1Njc4OWFiY2RlZg$tTjQO+P5lFV6RlLR6Z/xbNDyyMDRnIcn4DNd7JTb1LY";

fn request(username: &str, password: &str, manage_links: bool, manage_users: bool) -> NewUser {
    NewUser {
        username: username.to_string(),
        password: password.to_string(),
        manage_links,
        manage_users,
    }
}

fn row(name: &str, pw_hash: &str, orig: bool, manage_links: bool, manage_users: bool)
    -> InsertableUser {
    InsertableUser {
        username: name.to_string(),
        pw_hash: pw_hash.to_string(),
        orig,
        manage_links,
        manage_users,
    }
}

/// Users 1 (original, manages both), 2 (manages users), 3 (manages nothing).
fn three_users() -> UserTable {
    let mut table = UserTable::new();
    assert_eq!(User::insert(row("root", "-", true, true, true), &mut table), Ok(1));
    assert_eq!(User::insert(row("admin", "-", false, false, true), &mut table), Ok(2));
    assert_eq!(User::insert(row("ada", "-", false, false, false), &mut table), Ok(3));
    table
}

fn names(table: &UserTable) -> Vec<String> {
    User::all(table).unwrap().into_iter().map(|u| u.username).collect()
}

fn originals(table: &UserTable) -> Vec<i32> {
    User::all(table).unwrap().into_iter().filter(|u| u.orig).map(|u| u.id).collect()
}

#[test]
fn first_user_becomes_the_original() {
    let mut table = UserTable::new();
    let (result, session) = new(request("root", "secret", false, false), None, &mut table);
    assert_eq!(result.unwrap(), 1);
    assert_eq!(session, SessionAction::Issue(1));
    let root = User::get(1, &table).unwrap();
    assert!(root.orig);
    assert!(!root.disabled);
    assert_eq!(root.username, "root");
    assert_ne!(root.pw_hash, "secret");
    assert!(root.verify("secret"));
}

#[test]
fn first_user_is_created_whatever_the_token() {
    let mut table = UserTable::new();
    let (result, session) =
        new_with_hash(request("root", "secret", true, true), Some("h".to_string()), Some("7"), &mut table);
    assert_eq!(result.unwrap(), 1);
    assert_eq!(session, SessionAction::Issue(1));
    assert_eq!(originals(&table), vec![1]);
}

#[test]
fn first_user_is_created_from_every_request() {
    let mut table = UserTable::new();
    let (result, session) =
        new_with_hash(request("", "", false, true), Some("h".to_string()), None, &mut table);
    assert_eq!(result.unwrap(), 1);
    assert_eq!(session, SessionAction::Issue(1));
    let root = User::get(1, &table).unwrap();
    assert!(root.orig && !root.disabled && !root.manage_links && root.manage_users);
    assert_eq!(root.username, "");
    assert_eq!(root.pw_hash, "h");
}

#[test]
fn validate_creation_lets_the_original_pass() {
    assert!(validate_creation(&request("", "", false, false), true).is_ok());
    let failure = validate_creation(&request("", "pw", false, false), false).unwrap_err();
    assert_eq!(failure.kind, ErrorKind::Validation);
    assert_eq!(failure.message, "Username cannot be blank");
    assert!(validate_creation(&request("a", "b", false, false), false).is_ok());
}

#[test]
fn disabled_login_answers_as_a_wrong_password() {
    let mut table = UserTable::new();
    User::insert(row("root", "-", true, true, true), &mut table).unwrap();
    User::insert(row("ada", SECRET_HASH, false, false, false), &mut table).unwrap();
    let right = Login { username: "ada".to_string(), password: "secret".to_string() };
    let wrong = Login { username: "ada".to_string(), password: "guess".to_string() };
    let unknown = Login { username: "eve".to_string(), password: "secret".to_string() };
    assert!(login(&right, &table).0.is_ok());
    User::disable(2, &mut table).unwrap();
    let (disabled, disabled_session) = login(&right, &table);
    let (refused, refused_session) = login(&wrong, &table);
    let (missing, missing_session) = login(&unknown, &table);
    let disabled = disabled.unwrap_err();
    let refused = refused.unwrap_err();
    let missing = missing.unwrap_err();
    assert_eq!(disabled.kind, ErrorKind::Unauthenticated);
    assert_eq!(disabled.kind, refused.kind);
    assert_eq!(disabled.kind, missing.kind);
    assert_eq!(disabled.message, refused.message);
    assert_eq!(disabled.message, missing.message);
    assert_eq!(disabled_session, SessionAction::Keep);
    assert_eq!(refused_session, SessionAction::Keep);
    assert_eq!(missing_session, SessionAction::Keep);
}

#[test]
fn destruct_session_ends_the_own_session() {
    assert_eq!(destruct_session(Destruct::Delete, 2, 2), SessionAction::Clear);
    assert_eq!(destruct_session(Destruct::Disable, 2, 2), SessionAction::Clear);
    assert_eq!(destruct_session(Destruct::Enable, 2, 2), SessionAction::Keep);
    assert_eq!(destruct_session(Destruct::Delete, 3, 2), SessionAction::Keep);
    assert_eq!(destruct_session(Destruct::Disable, 3, 2), SessionAction::Keep);
}

#[test]
fn creation_without_manager_is_forbidden() {
    let mut table = three_users();
    let (result, session) =
        new_with_hash(request("eve", "pw", true, true), Some("h".to_string()), None, &mut table);
    let failure = result.unwrap_err();
    assert_eq!(failure.kind, ErrorKind::Forbidden);
    assert_eq!(failure.message, "You are not logged in");
    assert_eq!(session, SessionAction::Keep);
    let (result, _) =
        new_with_hash(request("eve", "pw", true, true), Some("h".to_string()), Some("3"), &mut table);
    let failure = result.unwrap_err();
    assert_eq!(failure.kind, ErrorKind::Forbidden);
    assert_eq!(failure.message, "You cannot manage users");
    assert_eq!(names(&table), vec!["root", "admin", "ada"]);
}

#[test]
fn creation_with_a_stale_token_discards_it() {
    let mut table = three_users();
    let (result, session) =
        new_with_hash(request("eve", "pw", true, true), Some("h".to_string()), Some("9"), &mut table);
    assert_eq!(result.unwrap_err().kind, ErrorKind::Forbidden);
    assert_eq!(session, SessionAction::Clear);
}

#[test]
fn manager_creates_ordinary_users() {
    let mut table = three_users();
    let (result, session) =
        new_with_hash(request("eve", "pw", true, false), Some("h".to_string()), Some("2"), &mut table);
    assert_eq!(result.unwrap(), 4);
    assert_eq!(session, SessionAction::Keep);
    let eve = User::get(4, &table).unwrap();
    assert!(!eve.orig);
    assert!(eve.manage_links);
    assert!(!eve.manage_users);
    assert_eq!(eve.pw_hash, "h");
    assert_eq!(originals(&table), vec![1]);
}

#[test]
fn creation_validates_the_request() {
    let mut table = three_users();
    let (result, _) =
        new_with_hash(request("", "pw", false, false), Some("h".to_string()), Some("2"), &mut table);
    let failure = result.unwrap_err();
    assert_eq!(failure.kind, ErrorKind::Validation);
    assert_eq!(failure.message, "Username cannot be blank");
    let (result, _) =
        new_with_hash(request("eve", "", false, false), Some("h".to_string()), Some("2"), &mut table);
    let failure = result.unwrap_err();
    assert_eq!(failure.kind, ErrorKind::Validation);
    assert_eq!(failure.message, "Password cannot be blank");
    assert_eq!(User::count(&table), Ok(3));
}

#[test]
fn creation_with_a_taken_username_conflicts() {
    let mut table = three_users();
    let (result, _) =
        new_with_hash(request("ada", "pw", false, false), Some("h".to_string()), Some("2"), &mut table);
    let failure = result.unwrap_err();
    assert_eq!(failure.kind, ErrorKind::Conflict);
    assert_eq!(failure.message, "Username already taken");
    assert_eq!(User::count(&table), Ok(3));
}

#[test]
fn creation_without_hash_is_an_internal_error() {
    let mut table = three_users();
    let (result, _) = new_with_hash(request("eve", "pw", false, false), None, Some("2"), &mut table);
    assert_eq!(result.unwrap_err().kind, ErrorKind::Internal);
    assert_eq!(User::count(&table), Ok(3));
}

#[test]
fn new_hashes_nothing_for_a_refused_request() {
    let mut table = three_users();
    let (result, _) = new(request("eve", "pw", false, false), Some("3"), &mut table);
    assert_eq!(result.unwrap_err().kind, ErrorKind::Forbidden);
    let (result, _) = new(request("", "pw", false, false), Some("2"), &mut table);
    assert_eq!(result.unwrap_err().kind, ErrorKind::Validation);
}

#[test]
fn authorize_creation_decides_the_origin() {
    let table = three_users();
    let admin = User::get(2, &table).unwrap();
    let ada = User::get(3, &table).unwrap();
    assert_eq!(authorize_creation(Some(&admin), Ok(3)).unwrap(), false);
    assert_eq!(authorize_creation(Some(&ada), Ok(3)).unwrap_err().kind, ErrorKind::Forbidden);
    assert_eq!(authorize_creation(None, Ok(0)).unwrap(), true);
    assert_eq!(authorize_creation(None, Ok(1)).unwrap_err().kind, ErrorKind::Forbidden);
    let failure = authorize_creation(None, Err(DbError::Other)).unwrap_err();
    assert_eq!(failure.kind, ErrorKind::Internal);
    assert_eq!(failure.message, "Could not verify that your user exists");
}

#[test]
fn validate_new_user_accepts_a_full_request() {
    assert!(validate_new_user(&request("a", "b", false, false)).is_ok());
    assert!(validate_new_user(&request("", "", false, false)).is_err());
}

#[test]
fn creation_outcome_maps_the_insert() {
    let (result, session) = creation_outcome(Ok(5), true);
    assert_eq!(result.unwrap(), 5);
    assert_eq!(session, SessionAction::Issue(5));
    let (result, session) = creation_outcome(Ok(5), false);
    assert_eq!(result.unwrap(), 5);
    assert_eq!(session, SessionAction::Keep);
    let (result, _) = creation_outcome(Err(DbError::UniqueViolation), false);
    assert_eq!(result.unwrap_err().kind, ErrorKind::Conflict);
    let (result, _) = creation_outcome(Err(DbError::Database), false);
    assert_eq!(result.unwrap_err().kind, ErrorKind::Internal);
    let (result, _) = creation_outcome(Err(DbError::Other), true);
    assert_eq!(result.unwrap_err().kind, ErrorKind::Internal);
}

#[test]
fn login_issues_a_token() {
    let mut table = UserTable::new();
    let hash = SECRET_HASH.to_string();
    User::insert(row("root", &hash, true, true, true), &mut table).unwrap();
    let attempt = Login { username: "root".to_string(), password: "secret".to_string() };
    let (result, session) = login(&attempt, &table);
    let user = result.unwrap();
    assert_eq!(user.id, 1);
    assert_eq!(user.username, "root");
    assert!(user.orig && user.manage_links && user.manage_users && !user.disabled);
    assert_eq!(session, SessionAction::Issue(1));
    let attempt = Login { username: "root".to_string(), password: "wrong".to_string() };
    let (result, session) = login(&attempt, &table);
    let failure = result.unwrap_err();
    assert_eq!(failure.kind, ErrorKind::Unauthenticated);
    assert_eq!(failure.message, "Invalid username/password");
    assert_eq!(session, SessionAction::Keep);
}

#[test]
fn login_rejects_unknown_and_disabled_users() {
    let mut table = three_users();
    let attempt = Login { username: "nobody".to_string(), password: "x".to_string() };
    let (result, session) = login(&attempt, &table);
    let failure = result.unwrap_err();
    assert_eq!(failure.kind, ErrorKind::Unauthenticated);
    assert_eq!(failure.message, "Invalid username/password");
    assert_eq!(session, SessionAction::Keep);
    User::disable(3, &mut table).unwrap();
    let attempt = Login { username: "ada".to_string(), password: "x".to_string() };
    let (result, session) = login(&attempt, &table);
    let failure = result.unwrap_err();
    assert_eq!(failure.kind, ErrorKind::Unauthenticated);
    assert_eq!(failure.message, "Invalid username/password");
    assert_eq!(session, SessionAction::Keep);
    let (result, _) = login_with(&attempt, Err(DbError::Other));
    assert_eq!(result.unwrap_err().kind, ErrorKind::Unauthenticated);
}

#[test]
fn logout_clears_the_session() {
    assert_eq!(logout(), SessionAction::Clear);
}

#[test]
fn get_all_is_for_managers() {
    let table = three_users();
    let (result, _) = get_all(Some("2"), &table);
    let users = result.unwrap();
    assert_eq!(users.len(), 3);
    assert_eq!(users[0].username, "root");
    assert!(users[0].orig);
    assert_eq!(users[2].id, 3);
    let (result, _) = get_all(Some("3"), &table);
    assert_eq!(result.unwrap_err().kind, ErrorKind::Forbidden);
    let (result, session) = get_all(Some("8"), &table);
    assert_eq!(result.unwrap_err().kind, ErrorKind::Unauthenticated);
    assert_eq!(session, SessionAction::Clear);
    let (result, session) = get_all(None, &table);
    assert_eq!(result.unwrap_err().kind, ErrorKind::Unauthenticated);
    assert_eq!(session, SessionAction::Keep);
}

#[test]
fn get_current_hides_the_hash() {
    let table = three_users();
    let user = get_current(User::get(2, &table).unwrap());
    assert_eq!(user.id, 2);
    assert_eq!(user.username, "admin");
    assert!(!user.orig && !user.manage_links && user.manage_users && !user.disabled);
}

#[test]
fn disabled_user_loses_its_session() {
    let mut table = three_users();
    assert!(User::from_request(Some("3"), &table).is_ok());
    let (result, session) = disable_by_id(&ID { id: 3 }, Some("2"), &mut table);
    assert!(result.is_ok());
    assert_eq!(session, SessionAction::Keep);
    let rejection = User::from_request(Some("3"), &table).unwrap_err();
    assert_eq!(rejection.kind, ErrorKind::Unauthenticated);
    assert_eq!(rejection.session, SessionAction::Keep);
    assert!(User::get(3, &table).unwrap().disabled);
    let (result, _) = get_all(Some("3"), &table);
    assert_eq!(result.unwrap_err().kind, ErrorKind::Unauthenticated);
    let (result, _) = enable_by_id(&ID { id: 3 }, Some("2"), &mut table);
    assert!(result.is_ok());
    assert!(User::from_request(Some("3"), &table).is_ok());
}

#[test]
fn deleted_user_has_a_stale_token() {
    let mut table = three_users();
    let (result, _) = delete_by_id(&ID { id: 3 }, Some("2"), &mut table);
    assert!(result.is_ok());
    assert_eq!(names(&table), vec!["root", "admin"]);
    let rejection = User::from_request(Some("3"), &table).unwrap_err();
    assert_eq!(rejection.kind, ErrorKind::Unauthenticated);
    assert_eq!(rejection.session, SessionAction::Clear);
}

#[test]
fn original_user_is_protected() {
    let mut table = three_users();
    let about_root = DeleteRequest { id: 1, password: None };
    for token in ["1", "2", "3"] {
        let (result, _) = delete(&about_root, Some(token), &mut table);
        let failure = result.unwrap_err();
        assert_eq!(failure.kind, ErrorKind::Forbidden);
        assert_eq!(failure.message, "You cannot delete the original user");
        let (result, _) = disable(&about_root, Some(token), &mut table);
        let failure = result.unwrap_err();
        assert_eq!(failure.kind, ErrorKind::Forbidden);
        assert_eq!(failure.message, "You cannot disable the original user");
        let (result, _) = enable(&about_root, Some(token), &mut table);
        let failure = result.unwrap_err();
        assert_eq!(failure.kind, ErrorKind::Forbidden);
        assert_eq!(failure.message, "You cannot enable the original user");
    }
    let with_password = DeleteRequest { id: 1, password: Some("anything".to_string()) };
    let (result, _) = delete(&with_password, Some("1"), &mut table);
    assert_eq!(result.unwrap_err().kind, ErrorKind::Forbidden);
    let root = User::get(1, &table).unwrap();
    assert!(root.orig && !root.disabled);
    assert_eq!(originals(&table), vec![1]);
}

#[test]
fn original_user_cannot_delete_itself_with_its_password() {
    let mut table = UserTable::new();
    let hash = SECRET_HASH.to_string();
    User::insert(row("root", &hash, true, true, true), &mut table).unwrap();
    let (result, session) = delete_current("secret", Some("1"), &mut table);
    assert_eq!(result.unwrap_err().kind, ErrorKind::Forbidden);
    assert_eq!(session, SessionAction::Keep);
    let (result, _) = disable_current("secret", Some("1"), &mut table);
    assert_eq!(result.unwrap_err().kind, ErrorKind::Forbidden);
    assert_eq!(User::count(&table), Ok(1));
}

#[test]
fn others_need_a_manager() {
    let mut table = three_users();
    let (result, _) = delete_by_id(&ID { id: 2 }, Some("3"), &mut table);
    let failure = result.unwrap_err();
    assert_eq!(failure.kind, ErrorKind::Forbidden);
    assert_eq!(failure.message, "You cannot manage users.");
    let (result, _) = disable_by_id(&ID { id: 2 }, Some("3"), &mut table);
    assert_eq!(result.unwrap_err().kind, ErrorKind::Forbidden);
    let (result, _) = delete_by_id(&ID { id: 9 }, Some("2"), &mut table);
    let failure = result.unwrap_err();
    assert_eq!(failure.kind, ErrorKind::NotFound);
    assert_eq!(failure.message, "That user cannot be found.");
    let (result, session) = delete_by_id(&ID { id: 3 }, None, &mut table);
    assert_eq!(result.unwrap_err().kind, ErrorKind::Unauthenticated);
    assert_eq!(session, SessionAction::Keep);
    assert_eq!(User::count(&table), Ok(3));
}

#[test]
fn manager_cannot_act_on_itself_as_on_another() {
    let mut table = three_users();
    let (result, _) = delete_by_id(&ID { id: 2 }, Some("2"), &mut table);
    let failure = result.unwrap_err();
    assert_eq!(failure.kind, ErrorKind::Forbidden);
    assert_eq!(failure.message, "You need your password to delete yourself");
    let (result, _) = disable_by_id(&ID { id: 2 }, Some("2"), &mut table);
    let failure = result.unwrap_err();
    assert_eq!(failure.kind, ErrorKind::Forbidden);
    assert_eq!(failure.message, "You need your password to disable yourself");
    let admin = User::get(2, &table).unwrap();
    assert!(!admin.disabled);
}

#[test]
fn self_delete_with_password_clears_the_session() {
    let mut table = UserTable::new();
    let hash = SECRET_HASH.to_string();
    User::insert(row("root", "-", true, true, true), &mut table).unwrap();
    User::insert(row("admin", &hash, false, false, true), &mut table).unwrap();
    let (result, session) = delete_current("wrong", Some("2"), &mut table);
    let failure = result.unwrap_err();
    assert_eq!(failure.kind, ErrorKind::Unauthenticated);
    assert_eq!(failure.message, "Incorrect password");
    assert_eq!(session, SessionAction::Keep);
    assert_eq!(User::count(&table), Ok(2));
    let (result, session) = delete_current("secret", Some("2"), &mut table);
    assert!(result.is_ok());
    assert_eq!(session, SessionAction::Clear);
    assert_eq!(names(&table), vec!["root"]);
}

#[test]
fn self_disable_with_password_clears_the_session() {
    let mut table = UserTable::new();
    let hash = SECRET_HASH.to_string();
    User::insert(row("root", "-", true, true, true), &mut table).unwrap();
    User::insert(row("ada", &hash, false, false, false), &mut table).unwrap();
    let own = DeleteRequest { id: 2, password: Some("secret".to_string()) };
    let (result, session) = disable(&own, Some("2"), &mut table);
    assert!(result.is_ok());
    assert_eq!(session, SessionAction::Clear);
    assert!(User::get(2, &table).unwrap().disabled);
    assert!(User::from_request(Some("2"), &table).is_err());
}

#[test]
fn check_destruct_follows_the_lookup() {
    let table = three_users();
    let admin = User::get(2, &table).unwrap();
    let about_ada = DeleteRequest { id: 3, password: None };
    assert!(check_destruct(&about_ada, &admin, User::get(3, &table), "delete").is_ok());
    let failure =
        check_destruct(&about_ada, &admin, Err(DbError::RowNotFound), "delete").unwrap_err();
    assert_eq!(failure.kind, ErrorKind::NotFound);
    let failure = check_destruct(&about_ada, &admin, Err(DbError::Other), "delete").unwrap_err();
    assert_eq!(failure.kind, ErrorKind::Internal);
    assert_eq!(failure.message, "An internal server error occurred.");
}

#[test]
fn match_destruct_result_other_maps_storage_errors() {
    assert!(match_destruct_result_other(Ok(())).is_ok());
    let failure = match_destruct_result_other(Err(DbError::UniqueViolation)).unwrap_err();
    assert_eq!(failure.kind, ErrorKind::Conflict);
    assert_eq!(failure.message, "That username is taken");
    let failure = match_destruct_result_other(Err(DbError::RowNotFound)).unwrap_err();
    assert_eq!(failure.kind, ErrorKind::NotFound);
    let failure = match_destruct_result_other(Err(DbError::Database)).unwrap_err();
    assert_eq!(failure.kind, ErrorKind::Internal);
    let failure = match_destruct_result_other(Err(DbError::Other)).unwrap_err();
    assert_eq!(failure.kind, ErrorKind::Internal);
}

#[test]
fn permissions_are_set_by_managers_for_others() {
    let mut table = three_users();
    let grant = PermissionsUpdate { user_id: 3, manage_links: true, manage_users: true };
    let (result, _) = update_permissions(&grant, Some("3"), &mut table);
    assert_eq!(result.unwrap_err().kind, ErrorKind::Forbidden);
    assert!(!User::get(3, &table).unwrap().manage_users);
    let (result, session) = update_permissions(&grant, Some("2"), &mut table);
    assert!(result.is_ok());
    assert_eq!(session, SessionAction::Keep);
    let ada = User::get(3, &table).unwrap();
    assert!(ada.manage_links && ada.manage_users);
    let own = PermissionsUpdate { user_id: 2, manage_links: true, manage_users: true };
    let (result, _) = update_permissions(&own, Some("2"), &mut table);
    assert_eq!(result.unwrap_err().kind, ErrorKind::Forbidden);
    let root = PermissionsUpdate { user_id: 1, manage_links: false, manage_users: false };
    let (result, _) = update_permissions(&root, Some("2"), &mut table);
    assert_eq!(result.unwrap_err().kind, ErrorKind::Forbidden);
    assert!(User::get(1, &table).unwrap().manage_users);
    let missing = PermissionsUpdate { user_id: 9, manage_links: false, manage_users: false };
    let (result, _) = update_permissions(&missing, Some("2"), &mut table);
    assert_eq!(result.unwrap_err().kind, ErrorKind::NotFound);
    let (result, _) = update_permissions(&grant, None, &mut table);
    assert_eq!(result.unwrap_err().kind, ErrorKind::Unauthenticated);
}

#[test]
fn check_permissions_update_maps_storage_failures() {
    let table = three_users();
    let admin = User::get(2, &table).unwrap();
    let grant = PermissionsUpdate { user_id: 3, manage_links: true, manage_users: true };
    let failure = check_permissions_update(&grant, &admin, Err(DbError::Other)).unwrap_err();
    assert_eq!(failure.kind, ErrorKind::Internal);
    assert!(check_permissions_update(&grant, &admin, User::get(3, &table)).is_ok());
}

#[test]
fn username_update_conflicts_on_a_taken_name() {
    let mut table = three_users();
    let taken = UsernameUpdate { user_id: 3, new_name: "admin".to_string() };
    let (result, _) = update_username(&taken, Some("3"), &mut table);
    let failure = result.unwrap_err();
    assert_eq!(failure.kind, ErrorKind::Conflict);
    assert_eq!(failure.message, "That username is taken");
    assert_eq!(names(&table), vec!["root", "admin", "ada"]);
    let (result, _) = update_username(&taken, Some("2"), &mut table);
    assert_eq!(result.unwrap_err().kind, ErrorKind::Conflict);
}

#[test]
fn owner_renames_itself_without_permissions() {
    let mut table = three_users();
    let free = UsernameUpdate { user_id: 3, new_name: "lovelace".to_string() };
    let (result, session) = update_username(&free, Some("3"), &mut table);
    assert!(result.is_ok());
    assert_eq!(session, SessionAction::Keep);
    assert_eq!(names(&table), vec!["root", "admin", "lovelace"]);
    let same = UsernameUpdate { user_id: 3, new_name: "lovelace".to_string() };
    let (result, _) = update_username(&same, Some("3"), &mut table);
    assert!(result.is_ok());
    let own = UsernameUpdate { user_id: 1, new_name: "boss".to_string() };
    let (result, _) = update_username(&own, Some("1"), &mut table);
    assert!(result.is_ok());
    assert_eq!(User::get(1, &table).unwrap().username, "boss");
}

#[test]
fn renaming_others_needs_a_manager() {
    let mut table = three_users();
    let other = UsernameUpdate { user_id: 2, new_name: "x".to_string() };
    let (result, _) = update_username(&other, Some("3"), &mut table);
    let failure = result.unwrap_err();
    assert_eq!(failure.kind, ErrorKind::Forbidden);
    assert_eq!(failure.message, "You do not have access to edit that user's username");
    let ada = UsernameUpdate { user_id: 3, new_name: "x".to_string() };
    let (result, _) = update_username(&ada, Some("2"), &mut table);
    assert!(result.is_ok());
    assert_eq!(User::get(3, &table).unwrap().username, "x");
    let root = UsernameUpdate { user_id: 1, new_name: "y".to_string() };
    let (result, _) = update_username(&root, Some("2"), &mut table);
    assert_eq!(result.unwrap_err().kind, ErrorKind::Forbidden);
    let missing = UsernameUpdate { user_id: 9, new_name: "z".to_string() };
    let (result, _) = update_username(&missing, Some("2"), &mut table);
    let failure = result.unwrap_err();
    assert_eq!(failure.kind, ErrorKind::NotFound);
    assert_eq!(failure.message, "That user does not exist");
}

#[test]
fn check_username_update_and_outcome_map_storage_failures() {
    let table = three_users();
    let admin = User::get(2, &table).unwrap();
    let ada = UsernameUpdate { user_id: 3, new_name: "x".to_string() };
    let failure = check_username_update(&ada, &admin, Err(DbError::Database)).unwrap_err();
    assert_eq!(failure.kind, ErrorKind::Internal);
    assert!(username_outcome(Ok(())).is_ok());
    assert_eq!(username_outcome(Err(DbError::RowNotFound)).unwrap_err().kind, ErrorKind::NotFound);
    assert_eq!(
        username_outcome(Err(DbError::UniqueViolation)).unwrap_err().kind,
        ErrorKind::Conflict
    );
    assert_eq!(username_outcome(Err(DbError::Other)).unwrap_err().kind, ErrorKind::Internal);
}

#[test]
fn password_update_needs_the_current_password() {
    let mut table = UserTable::new();
    let hash = OLD_HASH.to_string();
    User::insert(row("root", &hash, true, true, true), &mut table).unwrap();
    let wrong = PasswordUpdate { current_pw: "guess".to_string(), new_pw: "new".to_string() };
    let (result, session) = update_password(&wrong, Some("1"), &mut table);
    let failure = result.unwrap_err();
    assert_eq!(failure.kind, ErrorKind::Unauthenticated);
    assert_eq!(failure.message, "Incorrect current password");
    assert_eq!(session, SessionAction::Keep);
    assert_eq!(User::get(1, &table).unwrap().pw_hash, hash);
}

#[test]
fn password_update_needs_a_new_password() {
    let mut table = UserTable::new();
    let hash = OLD_HASH.to_string();
    User::insert(row("root", &hash, true, true, true), &mut table).unwrap();
    let same = PasswordUpdate { current_pw: "old".to_string(), new_pw: "old".to_string() };
    let root = User::get(1, &table).unwrap();
    let failure = check_password_update(&same, &root).unwrap_err();
    assert_eq!(failure.kind, ErrorKind::Conflict);
    assert_eq!(failure.message, "New password cannot be current password");
    let (result, session) =
        update_password_with_hash(&same, Some("h".to_string()), Some("1"), &mut table);
    assert_eq!(result.unwrap_err().kind, ErrorKind::Conflict);
    assert_eq!(session, SessionAction::Keep);
    assert_eq!(User::get(1, &table).unwrap().pw_hash, hash);
}

#[test]
fn password_update_clears_the_session() {
    let mut table = UserTable::new();
    let hash = OLD_HASH.to_string();
    User::insert(row("root", &hash, true, true, true), &mut table).unwrap();
    let change = PasswordUpdate { current_pw: "old".to_string(), new_pw: "new".to_string() };
    let (result, session) = update_password(&change, Some("1"), &mut table);
    assert!(result.is_ok());
    assert_eq!(session, SessionAction::Clear);
    let root = User::get(1, &table).unwrap();
    assert_ne!(root.pw_hash, hash);
    assert!(root.verify("new"));
}

#[test]
fn password_update_without_hash_or_identity_fails() {
    let mut table = UserTable::new();
    let hash = OLD_HASH.to_string();
    User::insert(row("root", &hash, true, true, true), &mut table).unwrap();
    let change = PasswordUpdate { current_pw: "old".to_string(), new_pw: "new".to_string() };
    let (result, _) = update_password_with_hash(&change, None, Some("1"), &mut table);
    assert_eq!(result.unwrap_err().kind, ErrorKind::Internal);
    let (result, session) = update_password(&change, Some("5"), &mut table);
    assert_eq!(result.unwrap_err().kind, ErrorKind::Unauthenticated);
    assert_eq!(session, SessionAction::Clear);
    assert_eq!(User::get(1, &table).unwrap().pw_hash, hash);
}

#[test]
fn at_most_one_original_after_many_requests() {
    let mut table = UserTable::new();
    new_with_hash(request("root", "pw", true, true), Some("h".to_string()), None, &mut table);
    new_with_hash(request("second", "pw", true, true), Some("h".to_string()), None, &mut table);
    new_with_hash(request("admin", "pw", true, true), Some("h".to_string()), Some("1"), &mut table);
    new_with_hash(request("ada", "pw", false, false), Some("h".to_string()), Some("2"), &mut table);
    delete_by_id(&ID { id: 1 }, Some("2"), &mut table);
    delete_by_id(&ID { id: 3 }, Some("2"), &mut table);
    disable_by_id(&ID { id: 1 }, Some("2"), &mut table);
    new_with_hash(request("eve", "pw", false, true), Some("h".to_string()), Some("2"), &mut table);
    assert_eq!(names(&table), vec!["root", "admin", "eve"]);
    assert_eq!(originals(&table), vec![1]);
    assert!(!User::get(1, &table).unwrap().disabled);
}

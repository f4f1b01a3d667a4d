use linkr::auth::Rejection;
use linkr::models::users::{InsertableUser, User, UserTable};
use linkr::outcome::{DbError, ErrorKind, SessionAction};

fn insertable(name: &str, orig: bool, manage_users: bool) -> InsertableUser {
    InsertableUser {
        username: name.to_string(),
        pw_hash: "unused".to_string(),
        orig,
        manage_links: false,
        manage_users,
    }
}

fn two_users() -> UserTable {
    let mut table = UserTable::new();
    assert_eq!(User::insert(insertable("root", true, true), &mut table), Ok(1));
    assert_eq!(User::insert(insertable("ada", false, false), &mut table), Ok(2));
    table
}

#[test]
fn token_id_reads_the_user_id() {
    assert_eq!(User::token_id(Some("17")), Some(17));
    assert_eq!(User::token_id(Some("-3")), Some(-3));
    assert_eq!(User::token_id(Some("")), None);
    assert_eq!(User::token_id(Some("seventeen")), None);
    assert_eq!(User::token_id(Some("99999999999")), None);
    assert_eq!(User::token_id(None), None);
}

#[test]
fn token_of_a_user_carries_its_id() {
    let table = two_users();
    let ada = User::get(2, &table).unwrap();
    assert_eq!(ada.token(), "2");
    assert_eq!(User::token_id(Some(&ada.token())), Some(2));
}

#[test]
fn from_request_resolves_an_enabled_user() {
    let table = two_users();
    let user = User::from_request(Some("2"), &table).unwrap();
    assert_eq!(user.id, 2);
    assert_eq!(user.username, "ada");
}

#[test]
fn from_request_without_token_is_unauthenticated() {
    let table = two_users();
    let rejection = User::from_request(None, &table).unwrap_err();
    assert_eq!(
        rejection,
        Rejection { kind: ErrorKind::Unauthenticated, session: SessionAction::Keep }
    );
    let rejection = User::from_request(Some("garbage"), &table).unwrap_err();
    assert_eq!(
        rejection,
        Rejection { kind: ErrorKind::Unauthenticated, session: SessionAction::Keep }
    );
}

#[test]
fn from_request_discards_a_stale_token() {
    let table = two_users();
    let rejection = User::from_request(Some("3"), &table).unwrap_err();
    assert_eq!(
        rejection,
        Rejection { kind: ErrorKind::Unauthenticated, session: SessionAction::Clear }
    );
}

#[test]
fn from_request_rejects_a_disabled_user() {
    let mut table = two_users();
    assert!(User::from_request(Some("2"), &table).is_ok());
    assert_eq!(User::disable(2, &mut table), Ok(()));
    let rejection = User::from_request(Some("2"), &table).unwrap_err();
    assert_eq!(
        rejection,
        Rejection { kind: ErrorKind::Unauthenticated, session: SessionAction::Keep }
    );
    assert_eq!(User::count(&table), Ok(2));
    assert_eq!(User::enable(2, &mut table), Ok(()));
    assert!(User::from_request(Some("2"), &table).is_ok());
}

#[test]
fn from_lookup_maps_storage_failures() {
    let rejection = User::from_lookup(Err(DbError::Other)).unwrap_err();
    assert_eq!(rejection, Rejection { kind: ErrorKind::Internal, session: SessionAction::Keep });
    let rejection = User::from_lookup(Err(DbError::RowNotFound)).unwrap_err();
    assert_eq!(
        rejection,
        Rejection { kind: ErrorKind::Unauthenticated, session: SessionAction::Clear }
    );
}

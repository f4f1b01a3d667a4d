use linkr::models::links::{Link, LinkTable};
use linkr::models::users::{InsertableUser, User, UserTable};
use linkr::outcome::{database_error, DbError, ErrorKind};

fn insertable(name: &str) -> InsertableUser {
    InsertableUser {
        username: name.to_string(),
        pw_hash: "unused".to_string(),
        orig: false,
        manage_links: false,
        manage_users: false,
    }
}

fn link(short: &str, long: &str, created_by: i32) -> Link {
    Link {
        short: short.to_string(),
        long: long.to_string(),
        notes: String::new(),
        created_at: 1_600_000_000,
        created_by,
    }
}

#[test]
fn user_table_assigns_ids_in_order() {
    let mut table = UserTable::new();
    assert_eq!(User::count(&table), Ok(0));
    assert_eq!(User::insert(insertable("a"), &mut table), Ok(1));
    assert_eq!(User::insert(insertable("b"), &mut table), Ok(2));
    assert_eq!(User::delete(2, &mut table), Ok(()));
    assert_eq!(User::insert(insertable("c"), &mut table), Ok(3));
    assert_eq!(User::count(&table), Ok(2));
    let names: Vec<String> =
        User::all(&table).unwrap().into_iter().map(|u| u.username).collect();
    assert_eq!(names, vec!["a".to_string(), "c".to_string()]);
}

#[test]
fn user_table_keeps_usernames_unique() {
    let mut table = UserTable::new();
    assert_eq!(User::insert(insertable("a"), &mut table), Ok(1));
    assert_eq!(User::insert(insertable("a"), &mut table), Err(DbError::UniqueViolation));
    assert_eq!(User::insert(insertable("A"), &mut table), Ok(2));
    assert_eq!(User::update_username(2, "a", &mut table), Err(DbError::UniqueViolation));
    assert_eq!(User::update_username(2, "A", &mut table), Ok(()));
    assert_eq!(User::update_username(2, "b", &mut table), Ok(()));
    assert_eq!(User::get_by_name("b", &table).unwrap().id, 2);
    assert_eq!(User::get_by_name("A", &table).unwrap_err(), DbError::RowNotFound);
}

#[test]
fn user_table_reports_missing_rows() {
    let mut table = UserTable::new();
    assert_eq!(User::get(1, &table).unwrap_err(), DbError::RowNotFound);
    assert_eq!(User::delete(1, &mut table), Err(DbError::RowNotFound));
    assert_eq!(User::disable(1, &mut table), Err(DbError::RowNotFound));
    assert_eq!(User::enable(1, &mut table), Err(DbError::RowNotFound));
    assert_eq!(User::update_permissions(1, true, true, &mut table), Err(DbError::RowNotFound));
    assert_eq!(User::update_username(1, "x", &mut table), Err(DbError::RowNotFound));
    assert_eq!(User::update_password(1, "h", &mut table), Err(DbError::RowNotFound));
}

#[test]
fn user_table_changes_one_row() {
    let mut table = UserTable::new();
    User::insert(insertable("a"), &mut table).unwrap();
    User::insert(insertable("b"), &mut table).unwrap();
    assert_eq!(User::update_permissions(2, true, false, &mut table), Ok(()));
    assert_eq!(User::update_password(2, "new hash", &mut table), Ok(()));
    assert_eq!(User::disable(2, &mut table), Ok(()));
    let a = User::get(1, &table).unwrap();
    let b = User::get(2, &table).unwrap();
    assert!(!a.manage_links && !a.disabled);
    assert_eq!(a.pw_hash, "unused");
    assert!(b.manage_links && !b.manage_users && b.disabled);
    assert_eq!(b.pw_hash, "new hash");
    assert_eq!(b.username, "b");
}

#[test]
fn link_table_keeps_shorts_unique() {
    let mut table = LinkTable::new();
    assert_eq!(Link::insert(link("abc", "https://a.example", 1), &mut table), Ok(()));
    assert_eq!(
        Link::insert(link("abc", "https://b.example", 2), &mut table),
        Err(DbError::UniqueViolation)
    );
    assert_eq!(Link::get("abc", &table).unwrap().long, "https://a.example");
    assert_eq!(Link::get("ABC", &table).unwrap_err(), DbError::RowNotFound);
}

#[test]
fn link_table_updates_and_deletes() {
    let mut table = LinkTable::new();
    Link::insert(link("a", "https://a.example", 1), &mut table).unwrap();
    Link::insert(link("b", "https://b.example", 2), &mut table).unwrap();
    Link::insert(link("c", "https://c.example", 1), &mut table).unwrap();
    assert_eq!(Link::update("b", "https://new.example", &mut table), Ok(()));
    assert_eq!(Link::update("z", "https://new.example", &mut table), Err(DbError::RowNotFound));
    assert_eq!(Link::get("b", &table).unwrap().long, "https://new.example");
    assert_eq!(Link::get("b", &table).unwrap().created_by, 2);
    assert_eq!(Link::delete("a", &mut table), Ok(()));
    assert_eq!(Link::delete("a", &mut table), Err(DbError::RowNotFound));
    let shorts: Vec<String> = Link::all(&table).unwrap().into_iter().map(|l| l.short).collect();
    assert_eq!(shorts, vec!["b".to_string(), "c".to_string()]);
}

#[test]
fn link_table_lists_the_links_of_a_user() {
    let mut table = LinkTable::new();
    Link::insert(link("a", "https://a.example", 1), &mut table).unwrap();
    Link::insert(link("b", "https://b.example", 2), &mut table).unwrap();
    Link::insert(link("c", "https://c.example", 1), &mut table).unwrap();
    let own: Vec<String> =
        Link::all_for_user(1, &table).unwrap().into_iter().map(|l| l.short).collect();
    assert_eq!(own, vec!["a".to_string(), "c".to_string()]);
    assert!(Link::all_for_user(3, &table).unwrap().is_empty());
}

#[test]
fn database_error_tells_unique_violations() {
    assert_eq!(database_error(Some("23505")), DbError::UniqueViolation);
    assert_eq!(database_error(Some("23503")), DbError::Database);
    assert_eq!(database_error(Some("")), DbError::Database);
    assert_eq!(database_error(None), DbError::Database);
}

#[test]
fn error_kinds_have_status_codes() {
    assert_eq!(ErrorKind::Unauthenticated.status_code(), 401);
    assert_eq!(ErrorKind::Forbidden.status_code(), 403);
    assert_eq!(ErrorKind::NotFound.status_code(), 404);
    assert_eq!(ErrorKind::Conflict.status_code(), 409);
    assert_eq!(ErrorKind::Validation.status_code(), 400);
    assert_eq!(ErrorKind::Internal.status_code(), 500);
}

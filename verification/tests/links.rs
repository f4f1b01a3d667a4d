use linkr::models::links::{serialize, Link, LinkTable};
use linkr::models::users::{InsertableUser, User, UserTable};
use linkr::outcome::{DbError, ErrorKind, SessionAction};
use linkr::routes::client::{link, lookup};
use linkr::routes::links::{
    change_outcome, check_can_edit, delete, get_all, get_for_user, is_reserved, names_scheme,
    shorten, shorten_at, shorten_outcome, update, validate_link, validate_long, NewLink, Short,
    UpdateLong,
};

fn row(name: &str, manage_links: bool) -> InsertableUser {
    InsertableUser {
        username: name.to_string(),
        pw_hash: "-".to_string(),
        orig: false,
        manage_links,
        manage_users: false,
    }
}

/// Users 1 (manages links), 2 and 3 (manage nothing).
fn users() -> UserTable {
    let mut table = UserTable::new();
    assert_eq!(User::insert(row("manager", true), &mut table), Ok(1));
    assert_eq!(User::insert(row("ada", false), &mut table), Ok(2));
    assert_eq!(User::insert(row("bob", false), &mut table), Ok(3));
    table
}

fn new_link(short: &str, long: &str) -> NewLink {
    NewLink { short: short.to_string(), long: long.to_string(), notes: "note".to_string() }
}

/// Links "ada1" of user 2 and "bob1" of user 3.
fn links(users: &UserTable) -> LinkTable {
    let mut table = LinkTable::new();
    let (result, _) =
        shorten_at(new_link("ada1", "https://ada.example"), 100, Some("2"), users, &mut table);
    assert!(result.is_ok());
    let (result, _) =
        shorten_at(new_link("bob1", "https://bob.example"), 200, Some("3"), users, &mut table);
    assert!(result.is_ok());
    table
}

#[test]
fn reserved_short_fails_validation() {
    let users = users();
    let mut table = LinkTable::new();
    let (result, session) =
        shorten(new_link("api", "https://example.com"), Some("2"), &users, &mut table);
    let failure = result.unwrap_err();
    assert_eq!(failure.kind, ErrorKind::Validation);
    assert_eq!(failure.message, "That short is reserved by this website");
    assert_eq!(session, SessionAction::Keep);
    assert!(Link::all(&table).unwrap().is_empty());
}

#[test]
fn created_link_is_retrievable() {
    let users = users();
    let mut table = LinkTable::new();
    let (result, _) =
        shorten(new_link("abc123", "https://example.com"), Some("2"), &users, &mut table);
    assert_eq!(result.unwrap(), "https://example.com");
    let redirect = lookup("abc123", &table).unwrap();
    assert_eq!(redirect.to, "https://example.com");
    assert!(redirect.permanent);
    let stored = Link::get("abc123", &table).unwrap();
    assert_eq!(stored.created_by, 2);
    assert_eq!(stored.notes, "note");
    assert!(stored.created_at > 1_600_000_000);
}

#[test]
fn shorten_at_sets_creator_and_time() {
    let users = users();
    let mut table = LinkTable::new();
    let (result, _) =
        shorten_at(new_link("x", "http://example.com"), 1234, Some("3"), &users, &mut table);
    assert_eq!(result.unwrap(), "http://example.com");
    let stored = Link::get("x", &table).unwrap();
    assert_eq!(stored.created_at, 1234);
    assert_eq!(stored.created_by, 3);
}

#[test]
fn every_reserved_name_is_refused() {
    for name in [
        "",
        "_app",
        "api",
        "login",
        "resource",
        "new_user",
        "setup",
        "manage_links",
        "manage_users",
        "manage_account",
    ] {
        assert!(is_reserved(name));
        assert!(validate_link(name, "https://example.com").is_err());
    }
    assert!(!is_reserved("apis"));
    assert!(!is_reserved("API"));
    assert!(!is_reserved("abc123"));
}

#[test]
fn validation_checks_short_then_long() {
    let failure = validate_link("a-b", "https://example.com").unwrap_err();
    assert_eq!(failure.kind, ErrorKind::Validation);
    assert_eq!(failure.message, "Shorts can only contain alphanumeric characters");
    let failure = validate_link("new_user", "ftp://example.com").unwrap_err();
    assert_eq!(failure.message, "Shorts can only contain alphanumeric characters");
    let failure = validate_link("login", "ftp://example.com").unwrap_err();
    assert_eq!(failure.message, "That short is reserved by this website");
    let failure = validate_link("ok", "ftp://example.com").unwrap_err();
    assert_eq!(failure.kind, ErrorKind::Validation);
    assert_eq!(failure.message, "That long does not begin with https:// or http://");
    assert!(validate_link("ok", "http://example.com").is_ok());
    assert!(validate_link("ok", "https://").is_ok());
    assert!(validate_link("ok", "example.com").is_err());
    assert!(validate_link("ok", "HTTP://example.com").is_err());
}

#[test]
fn validate_long_wants_a_scheme() {
    assert!(validate_long("https://example.com").is_ok());
    assert!(validate_long("http://example.com").is_ok());
    let failure = validate_long("example.com").unwrap_err();
    assert_eq!(failure.kind, ErrorKind::Validation);
    assert_eq!(failure.message, "That long does not begin with https:// or http://");
}

#[test]
fn names_scheme_wants_http_or_https() {
    assert!(names_scheme("http://a"));
    assert!(names_scheme("https://a"));
    assert!(!names_scheme("http:/a"));
    assert!(!names_scheme(""));
}

#[test]
fn taken_short_conflicts() {
    let users = users();
    let mut table = links(&users);
    let (result, _) =
        shorten_at(new_link("ada1", "https://other.example"), 300, Some("3"), &users, &mut table);
    let failure = result.unwrap_err();
    assert_eq!(failure.kind, ErrorKind::Conflict);
    assert_eq!(failure.message, "That short is already in use");
    assert_eq!(Link::get("ada1", &table).unwrap().long, "https://ada.example");
}

#[test]
fn shorten_needs_an_identity() {
    let users = users();
    let mut table = LinkTable::new();
    let (result, session) =
        shorten(new_link("abc", "https://example.com"), None, &users, &mut table);
    assert_eq!(result.unwrap_err().kind, ErrorKind::Unauthenticated);
    assert_eq!(session, SessionAction::Keep);
    let (result, session) =
        shorten(new_link("abc", "https://example.com"), Some("9"), &users, &mut table);
    assert_eq!(result.unwrap_err().kind, ErrorKind::Unauthenticated);
    assert_eq!(session, SessionAction::Clear);
    assert!(Link::all(&table).unwrap().is_empty());
}

#[test]
fn shorten_outcome_maps_the_insert() {
    assert_eq!(shorten_outcome(Ok(()), "l".to_string()).unwrap(), "l");
    let failure = shorten_outcome(Err(DbError::UniqueViolation), "l".to_string()).unwrap_err();
    assert_eq!(failure.kind, ErrorKind::Conflict);
    let failure = shorten_outcome(Err(DbError::Other), "l".to_string()).unwrap_err();
    assert_eq!(failure.kind, ErrorKind::Internal);
    assert_eq!(failure.message, "There was an internal server error");
}

#[test]
fn owner_edits_its_own_link_only() {
    let users = users();
    let mut table = links(&users);
    let own = UpdateLong { short: "ada1".to_string(), long: "https://new.example".to_string() };
    let (result, _) = update(&own, Some("2"), &users, &mut table);
    assert!(result.is_ok());
    assert_eq!(Link::get("ada1", &table).unwrap().long, "https://new.example");
    let foreign = UpdateLong { short: "bob1".to_string(), long: "https://new.example".to_string() };
    let (result, _) = update(&foreign, Some("2"), &users, &mut table);
    let failure = result.unwrap_err();
    assert_eq!(failure.kind, ErrorKind::Forbidden);
    assert_eq!(Link::get("bob1", &table).unwrap().long, "https://bob.example");
    let (result, _) = delete(&Short { short: "bob1".to_string() }, Some("2"), &users, &mut table);
    assert_eq!(result.unwrap_err().kind, ErrorKind::Forbidden);
    assert!(Link::get("bob1", &table).is_ok());
    let (result, _) = delete(&Short { short: "ada1".to_string() }, Some("2"), &users, &mut table);
    assert!(result.is_ok());
    assert!(Link::get("ada1", &table).is_err());
}

#[test]
fn manager_edits_every_link() {
    let users = users();
    let mut table = links(&users);
    let change = UpdateLong { short: "ada1".to_string(), long: "http://m.example".to_string() };
    let (result, _) = update(&change, Some("1"), &users, &mut table);
    assert!(result.is_ok());
    let stored = Link::get("ada1", &table).unwrap();
    assert_eq!(stored.long, "http://m.example");
    assert_eq!(stored.created_by, 2);
    assert_eq!(stored.created_at, 100);
    let (result, _) = delete(&Short { short: "bob1".to_string() }, Some("1"), &users, &mut table);
    assert!(result.is_ok());
    assert!(Link::get("bob1", &table).is_err());
}

#[test]
fn editing_a_missing_link_is_not_found() {
    let users = users();
    let mut table = links(&users);
    let missing = UpdateLong { short: "nope".to_string(), long: "https://x.example".to_string() };
    let (result, _) = update(&missing, Some("2"), &users, &mut table);
    assert_eq!(result.unwrap_err().kind, ErrorKind::NotFound);
    let (result, _) = update(&missing, Some("1"), &users, &mut table);
    assert_eq!(result.unwrap_err().kind, ErrorKind::NotFound);
    let (result, _) = delete(&Short { short: "nope".to_string() }, Some("1"), &users, &mut table);
    let failure = result.unwrap_err();
    assert_eq!(failure.kind, ErrorKind::NotFound);
    assert_eq!(failure.message, "That link does not exist");
}

#[test]
fn update_keeps_destinations_valid() {
    let users = users();
    let mut table = links(&users);
    let bad = UpdateLong { short: "ada1".to_string(), long: "javascript:alert(1)".to_string() };
    let (result, _) = update(&bad, Some("2"), &users, &mut table);
    assert_eq!(result.unwrap_err().kind, ErrorKind::Validation);
    assert_eq!(Link::get("ada1", &table).unwrap().long, "https://ada.example");
}

#[test]
fn editing_needs_an_identity() {
    let users = users();
    let mut table = links(&users);
    let (result, _) = delete(&Short { short: "ada1".to_string() }, None, &users, &mut table);
    assert_eq!(result.unwrap_err().kind, ErrorKind::Unauthenticated);
    assert!(Link::get("ada1", &table).is_ok());
}

#[test]
fn check_can_edit_follows_the_lookup() {
    let users = users();
    let table = links(&users);
    let manager = User::get(1, &users).unwrap();
    let ada = User::get(2, &users).unwrap();
    assert!(check_can_edit(&manager, Err(DbError::RowNotFound)).is_ok());
    assert!(check_can_edit(&manager, Link::get("bob1", &table)).is_ok());
    assert!(check_can_edit(&ada, Link::get("ada1", &table)).is_ok());
    let failure = check_can_edit(&ada, Link::get("bob1", &table)).unwrap_err();
    assert_eq!(failure.kind, ErrorKind::Forbidden);
    let failure = check_can_edit(&ada, Err(DbError::RowNotFound)).unwrap_err();
    assert_eq!(failure.kind, ErrorKind::NotFound);
    let failure = check_can_edit(&ada, Err(DbError::Other)).unwrap_err();
    assert_eq!(failure.kind, ErrorKind::Internal);
    assert!(change_outcome(Ok(())).is_ok());
    assert_eq!(change_outcome(Err(DbError::RowNotFound)).unwrap_err().kind, ErrorKind::NotFound);
    assert_eq!(change_outcome(Err(DbError::Database)).unwrap_err().kind, ErrorKind::Internal);
}

#[test]
fn listings_follow_permissions() {
    let users = users();
    let table = links(&users);
    let (result, _) = get_all(Some("1"), &users, &table);
    assert_eq!(result.unwrap().len(), 2);
    let (result, _) = get_all(Some("2"), &users, &table);
    assert_eq!(result.unwrap_err().kind, ErrorKind::Forbidden);
    let (result, _) = get_for_user(Some("2"), &users, &table);
    let own = result.unwrap();
    assert_eq!(own.len(), 1);
    assert_eq!(own[0].short, "ada1");
    let (result, _) = get_for_user(Some("1"), &users, &table);
    assert!(result.unwrap().is_empty());
    let (result, _) = get_for_user(None, &users, &table);
    assert_eq!(result.unwrap_err().kind, ErrorKind::Unauthenticated);
}

#[test]
fn lookup_needs_no_identity() {
    let users = users();
    let table = links(&users);
    assert_eq!(lookup("bob1", &table).unwrap().to, "https://bob.example");
    let failure = lookup("none", &table).unwrap_err();
    assert_eq!(failure.kind, ErrorKind::NotFound);
    let failure = link(Err(DbError::Other)).unwrap_err();
    assert_eq!(failure.kind, ErrorKind::Internal);
}

#[test]
fn link_survives_its_creator() {
    let mut users = users();
    let table = links(&users);
    assert_eq!(User::delete(2, &mut users), Ok(()));
    let stored = Link::get("ada1", &table).unwrap();
    assert_eq!(stored.created_by, 2);
    assert_eq!(lookup("ada1", &table).unwrap().to, "https://ada.example");
}

#[test]
fn serialize_writes_month_day_year() {
    assert_eq!(serialize(0), Some("01/01/70".to_string()));
    assert_eq!(serialize(1_431_648_000), Some("05/15/15".to_string()));
    assert_eq!(serialize(86_399), Some("01/01/70".to_string()));
    assert_eq!(serialize(86_400), Some("01/02/70".to_string()));
    assert_eq!(serialize(i64::MAX), None);
}

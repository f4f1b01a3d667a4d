use std::collections::hash_map::DefaultHasher;
use std::hash::Hasher;

use linkr::catchers::{forbidden, internal_error, not_found, service_unavailable, unauthorized};
use linkr::models::users::User;
use linkr::outcome::{DbError, ErrorKind, Failure};
use linkr::repository::Repository;
use linkr::routes::client::{
    index, login, manage_account, manage_links, manage_users, new_user, open_page, setup, Page,
};
use linkr::shortener::Shortener;
use linkr::static_files::{all_resources, favicon, resources, svelte_gen};

fn user(manage_links: bool, manage_users: bool) -> User {
    User {
        id: 5,
        username: "ada".to_string(),
        pw_hash: "-".to_string(),
        orig: false,
        manage_links,
        manage_users,
        disabled: false,
    }
}

fn std_code(count: u64) -> String {
    let mut hasher = DefaultHasher::new();
    hasher.write_u64(count);
    format!("{}", hasher.finish())
}

#[test]
fn shortener_hands_out_the_codes_of_a_counter() {
    let mut shortener = Shortener::new();
    assert!(shortener.has_next());
    let first = shortener.next_id();
    let second = shortener.next_id();
    assert_ne!(first, second);
    assert_ne!(first, "0");
    assert!(first.chars().all(|c| c.is_ascii_digit()));
    let mut again = Shortener::new();
    assert_eq!(again.next_id(), first);
    assert_eq!(again.next_id(), second);
}

#[test]
fn shortener_codes_are_those_of_the_standard_hasher() {
    let mut shortener = Shortener::new();
    assert_eq!(shortener.next_id(), std_code(0));
    assert_eq!(shortener.next_id(), std_code(1));
    assert_eq!(shortener.next_id(), std_code(2));
}

#[test]
fn repository_stores_and_looks_up() {
    let mut repository = Repository::new();
    assert!(repository.has_room());
    assert_eq!(repository.lookup("anything"), None);
    let first = repository.store("https://a.example");
    let second = repository.store("https://b.example");
    assert_ne!(first, second);
    assert_eq!(repository.lookup(&first), Some(&"https://a.example".to_string()));
    assert_eq!(repository.lookup(&second), Some(&"https://b.example".to_string()));
    assert_eq!(repository.lookup(""), None);
    assert_eq!(repository.lookup("https://a.example"), None);
}

#[test]
fn repository_stores_one_destination_twice() {
    let mut repository = Repository::new();
    let first = repository.store("https://a.example");
    let second = repository.store("https://a.example");
    assert_ne!(first, second);
    assert_eq!(repository.lookup(&first), repository.lookup(&second));
}

#[test]
fn catchers_answer_each_status() {
    let redirect = unauthorized();
    assert_eq!(redirect.to, "/login");
    assert!(!redirect.permanent);
    let context = forbidden();
    assert_eq!(context.code, 403);
    assert_eq!(context.message, "Your user does not have permission to do that.");
    assert_eq!(context.details, "If you feel that is in error, contact who set up your account");
    let context = not_found();
    assert_eq!(context.code, 404);
    assert_eq!(context.message, "That link does not exist");
    assert_eq!(context.details, "Please check that you entered it correctly");
    let context = internal_error();
    assert_eq!(context.code, 500);
    assert_eq!(context.message, "There was an internal server error");
    assert_eq!(context.details, "Looks like we messed up, please report an error");
    let context = service_unavailable();
    assert_eq!(context.code, 503);
    assert_eq!(context.message, "Linkr is temporarily unavailable");
    assert_eq!(context.details, "Please try again shortly");
}

#[test]
fn pages_ask_for_their_permission() {
    let nobody = user(false, false);
    let links = user(true, false);
    let users = user(false, true);
    assert_eq!(index(&nobody), Ok(Page::Index));
    assert_eq!(manage_account(&nobody), Ok(Page::ManageAccount));
    assert_eq!(manage_links(&nobody), Err(ErrorKind::Forbidden));
    assert_eq!(manage_links(&links), Ok(Page::ManageLinks));
    assert_eq!(manage_links(&users), Err(ErrorKind::Forbidden));
    assert_eq!(manage_users(&nobody), Err(ErrorKind::Forbidden));
    assert_eq!(manage_users(&users), Ok(Page::ManageUsers));
    assert_eq!(manage_users(&links), Err(ErrorKind::Forbidden));
    assert_eq!(new_user(&users), Ok(Page::NewUser));
    assert_eq!(new_user(&links), Err(ErrorKind::Forbidden));
    assert_eq!(open_page(Page::Login, &nobody), Ok(Page::Login));
    assert_eq!(open_page(Page::Setup, &nobody), Ok(Page::Setup));
}

#[test]
fn login_page_redirects_an_identity() {
    let known = user(false, false);
    let redirect = login(Some(&known)).unwrap_err();
    assert_eq!(redirect.to, "/");
    assert!(!redirect.permanent);
    assert_eq!(login(None).unwrap(), Page::Login);
}

#[test]
fn setup_page_is_open_while_there_is_no_user() {
    assert_eq!(setup(Ok(0)), Ok(Page::Setup));
    assert_eq!(setup(Ok(1)), Err(ErrorKind::Forbidden));
    assert_eq!(setup(Err(DbError::Other)), Err(ErrorKind::Internal));
}

#[test]
fn static_files_lie_below_static() {
    assert_eq!(favicon(), "static/favicon.ico");
    assert_eq!(all_resources("css/site.css"), "static/css/site.css");
    assert_eq!(all_resources(""), "static/");
    assert_eq!(resources("css/site.css"), "static/resource/css/site.css");
    assert_eq!(svelte_gen("start.js"), "static/_app/start.js");
}

#[test]
fn failure_keeps_kind_and_message() {
    let failure = Failure::new(ErrorKind::Conflict, "taken");
    assert_eq!(failure.kind, ErrorKind::Conflict);
    assert_eq!(failure.message, "taken");
}

//! Registration, login and middleware behaviour, exercised end to end
//! against the real hashing and signing libraries.

use task_tracker::auth::{login, register};
use task_tracker::errors::Error;
use task_tracker::mw_auth::authenticate;
use task_tracker::store::Store;
use task_tracker::token::{create_token, decode_token};
use task_tracker::user::User;

const SECRET: &str = "test-signing-secret";
const NOW: i64 = 1_700_000_000;

#[test]
fn register_then_login_round_trip() {
    let mut store = Store::new();
    let created = register(&mut store, "alice".to_owned(), "secret1").unwrap();
    assert_eq!(created.id, 1);
    assert_eq!(created.username, "alice");

    let token = login(&store, "alice", "secret1", NOW, SECRET).unwrap();
    let (sub, exp) = decode_token(&token, SECRET).unwrap();
    assert_eq!(sub, created.id);
    assert_eq!(exp, NOW + 3600);
}

#[test]
fn login_failures_are_identical() {
    let mut store = Store::new();
    register(&mut store, "alice".to_owned(), "secret1").unwrap();

    let wrong_password = login(&store, "alice", "wrong", NOW, SECRET);
    let unknown_user = login(&store, "nobody", "secret1", NOW, SECRET);
    assert_eq!(wrong_password, Err(Error::LoginFail));
    assert_eq!(unknown_user, Err(Error::LoginFail));
    assert_eq!(wrong_password, unknown_user);
}

#[test]
fn register_duplicate_username_is_db_error() {
    let mut store = Store::new();
    register(&mut store, "alice".to_owned(), "secret1").unwrap();
    let again = register(&mut store, "alice".to_owned(), "other");
    assert_eq!(again.unwrap_err(), Error::DbError);
    assert_eq!(store.users.len(), 1);
}

#[test]
fn login_against_missing_hash_is_internal_error() {
    // An absent hash column is a server-side hashing failure, not a
    // statement about the credentials.
    let mut store = Store::new();
    store.users.push(User { id: 1, username: "ghost".to_owned(), password: None });
    store.next_user_id = 2;
    let r = login(&store, "ghost", "anything", NOW, SECRET);
    assert_eq!(r, Err(Error::Internal));
}

#[test]
fn middleware_accepts_fresh_token() {
    let mut store = Store::new();
    let created = register(&mut store, "alice".to_owned(), "secret1").unwrap();
    let token = login(&store, "alice", "secret1", NOW, SECRET).unwrap();
    let header = format!("Bearer {token}");

    let ctx = authenticate(&store, Some(&header), SECRET, NOW).unwrap();
    assert_eq!(ctx.user.id, created.id);
    assert_eq!(ctx.user.username, "alice");
}

#[test]
fn middleware_rejects_expired_token_with_valid_signature() {
    let mut store = Store::new();
    let created = register(&mut store, "alice".to_owned(), "secret1").unwrap();
    let token = create_token(created.id, NOW - 7200, SECRET).unwrap();
    let header = format!("Bearer {token}");

    // The signature verifies: the claims decode under the same secret.
    assert!(decode_token(&token, SECRET).is_some());
    // But exp = NOW - 3600 is in the past, so the middleware refuses it.
    let r = authenticate(&store, Some(&header), SECRET, NOW);
    assert_eq!(r.unwrap_err(), Error::AuthFail);
}

#[test]
fn middleware_rejects_token_of_deleted_user() {
    let mut store = Store::new();
    let created = register(&mut store, "alice".to_owned(), "secret1").unwrap();
    let token = login(&store, "alice", "secret1", NOW, SECRET).unwrap();
    let header = format!("Bearer {token}");

    // Accepted while the account exists.
    assert!(authenticate(&store, Some(&header), SECRET, NOW).is_ok());

    task_tracker::user::delete_user(&mut store, created.id).unwrap();

    // The same still-unexpired token is rejected on the next request.
    let r = authenticate(&store, Some(&header), SECRET, NOW);
    assert_eq!(r.unwrap_err(), Error::AuthFail);
}

#[test]
fn middleware_rejects_missing_and_malformed_headers() {
    let mut store = Store::new();
    register(&mut store, "alice".to_owned(), "secret1").unwrap();
    let token = login(&store, "alice", "secret1", NOW, SECRET).unwrap();

    assert_eq!(authenticate(&store, None, SECRET, NOW).unwrap_err(), Error::AuthFail);
    // No "Bearer " prefix.
    assert_eq!(authenticate(&store, Some(&token), SECRET, NOW).unwrap_err(), Error::AuthFail);
    let lower = format!("bearer {token}");
    assert_eq!(authenticate(&store, Some(&lower), SECRET, NOW).unwrap_err(), Error::AuthFail);
    // Garbage token.
    assert_eq!(
        authenticate(&store, Some("Bearer not.a.token"), SECRET, NOW).unwrap_err(),
        Error::AuthFail
    );
}

#[test]
fn middleware_rejects_token_signed_with_other_secret() {
    let mut store = Store::new();
    let created = register(&mut store, "alice".to_owned(), "secret1").unwrap();
    let forged = create_token(created.id, NOW, "other-secret").unwrap();
    assert!(decode_token(&forged, SECRET).is_none());
    let header = format!("Bearer {forged}");
    let r = authenticate(&store, Some(&header), SECRET, NOW);
    assert_eq!(r.unwrap_err(), Error::AuthFail);
}

#[test]
fn issued_token_names_its_subject() {
    let token = task_tracker::token::issue_token(42, SECRET).unwrap();
    let (sub, _exp) = decode_token(&token, SECRET).unwrap();
    assert_eq!(sub, 42);
    assert!(decode_token(&token, "other-secret").is_none());
}

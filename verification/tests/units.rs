//! The error taxonomy, the status string mapping, header parsing, the
//! principal extractor and the user endpoints.

use task_tracker::auth::api_login;
use task_tracker::errors::Error;
use task_tracker::mw_auth::{extract_ctx, me, parse_bearer, Ctx};
use task_tracker::project::{update_project, CreateProjectPayload, UpdateProjectPayload};
use task_tracker::store::Store;
use task_tracker::task::TaskStatus;
use task_tracker::user::{
    delete_user, get_user, list_users, update_user, UpdateUserPayload, User,
};

const NOW: i64 = 1_700_000_000;

#[test]
fn error_status_codes_and_messages() {
    let cases = [
        (Error::LoginFail, 401, "Login failed"),
        (Error::AuthFail, 401, "Authentication failed"),
        (Error::DbError, 500, "Database error"),
        (Error::ProjectNotFound, 404, "Project not found"),
        (Error::ProjectUnauthorized, 403, "Forbidden access to project"),
        (Error::TaskNotFound, 404, "Task not found"),
        (Error::TaskUnauthorized, 403, "Forbidden access to task"),
        (Error::UserNotFound, 404, "User not found"),
        (Error::Internal, 500, "Internal server error"),
    ];
    for (err, code, msg) in cases {
        assert_eq!(err.status_code(), code);
        assert_eq!(err.message(), msg);
    }
}

#[test]
fn status_string_mapping_round_trips_and_rejects_unknown() {
    for st in [TaskStatus::Pending, TaskStatus::InProgress, TaskStatus::Completed] {
        assert_eq!(TaskStatus::from_string(&st.to_string()), Some(st));
    }
    assert_eq!(TaskStatus::Pending.to_string(), "pending");
    assert_eq!(TaskStatus::InProgress.to_string(), "in_progress");
    assert_eq!(TaskStatus::Completed.to_string(), "completed");
    assert_eq!(TaskStatus::from_string("done"), None);
    assert_eq!(TaskStatus::from_string("Pending"), None);
    assert_eq!(TaskStatus::from_string(""), None);
}

#[test]
fn bearer_header_parsing() {
    assert_eq!(parse_bearer("Bearer abc.def.ghi"), Some("abc.def.ghi"));
    assert_eq!(parse_bearer("Bearer "), Some(""));
    assert_eq!(parse_bearer("Bearer"), None);
    assert_eq!(parse_bearer("bearer abc"), None);
    assert_eq!(parse_bearer("Basic abc"), None);
    assert_eq!(parse_bearer(""), None);
}

#[test]
fn extractor_fails_closed_without_context() {
    let user = User { id: 5, username: "eve".to_owned(), password: None };
    let ctx = Ctx { user };
    let got = extract_ctx(Some(ctx)).unwrap();
    let (id, name) = me(&got);
    assert_eq!(id, 5);
    assert_eq!(name, "eve");

    assert_eq!(extract_ctx(None).unwrap_err(), Error::AuthFail);
}

#[test]
fn user_endpoints_manage_accounts() {
    let mut store = Store::new();
    let alice = task_tracker::auth::register(&mut store, "alice".to_owned(), "pw1").unwrap();
    let bob = task_tracker::auth::register(&mut store, "bob".to_owned(), "pw2").unwrap();

    let listed = list_users(&store);
    assert_eq!(listed.len(), 2);
    assert_eq!(listed[0].username, "alice");
    assert_eq!(listed[1].username, "bob");

    // The single read returns id and username, never the stored hash.
    let fetched = get_user(&store, alice.id).unwrap();
    assert_eq!(fetched.id, alice.id);
    assert_eq!(fetched.username, "alice");
    assert!(fetched.password.is_none());
    assert_eq!(get_user(&store, 99).unwrap_err(), Error::UserNotFound);

    // Renaming onto a taken username violates uniqueness.
    let clash = update_user(
        &mut store,
        bob.id,
        UpdateUserPayload { username: "alice".to_owned() },
    );
    assert_eq!(clash.unwrap_err(), Error::DbError);

    // Renaming to a fresh name works and keeps the stored hash.
    let renamed = update_user(
        &mut store,
        bob.id,
        UpdateUserPayload { username: "robert".to_owned() },
    )
    .unwrap();
    assert_eq!(renamed.username, "robert");
    assert!(renamed.password.is_none());
    assert!(store.users[1].password.is_some());

    // Renaming a user onto its own name is no conflict.
    update_user(&mut store, alice.id, UpdateUserPayload { username: "alice".to_owned() })
        .unwrap();

    assert_eq!(delete_user(&mut store, 99).unwrap_err(), Error::UserNotFound);
    delete_user(&mut store, alice.id).unwrap();
    assert_eq!(list_users(&store).len(), 1);
    assert_eq!(list_users(&store)[0].username, "robert");
}

#[test]
fn update_keeps_fields_that_were_not_given() {
    let mut store = Store::new();
    let owner = task_tracker::auth::register(&mut store, "o".to_owned(), "pw").unwrap().id;
    let p = task_tracker::project::create_project(
        &mut store,
        owner,
        CreateProjectPayload {
            name: "original".to_owned(),
            description: Some("desc".to_owned()),
        },
        NOW,
    )
    .unwrap();
    assert_eq!(p.created_at, NOW);

    let updated = update_project(
        &mut store,
        owner,
        p.id,
        UpdateProjectPayload { name: None, description: Some("new desc".to_owned()) },
        NOW + 5,
    )
    .unwrap();
    assert_eq!(updated.name, "original");
    assert_eq!(updated.description.as_deref(), Some("new desc"));
    assert_eq!(updated.created_at, NOW);
    assert_eq!(updated.updated_at, NOW + 5);
}

#[test]
fn demo_login_accepts_only_builtin_pair() {
    assert_eq!(api_login("admin", "password"), Ok(()));
    assert_eq!(api_login("admin", "wrong"), Err(Error::LoginFail));
    assert_eq!(api_login("alice", "password"), Err(Error::LoginFail));
    assert_eq!(api_login("", ""), Err(Error::LoginFail));
}

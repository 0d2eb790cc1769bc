//! Ownership isolation between principals, across projects and tasks.

use task_tracker::auth::{login, register};
use task_tracker::errors::Error;
use task_tracker::mw_auth::authenticate;
use task_tracker::project::{
    create_project, delete_project, get_project_by_id, update_project, CreateProjectPayload,
    UpdateProjectPayload,
};
use task_tracker::store::Store;
use task_tracker::task::{
    create_task, delete_task, get_task_by_id, update_task, CreateTaskPayload, TaskStatus,
    UpdateTaskPayload,
};

const SECRET: &str = "test-signing-secret";
const NOW: i64 = 1_700_000_000;

fn project_payload(name: &str) -> CreateProjectPayload {
    CreateProjectPayload { name: name.to_owned(), description: None }
}

#[test]
fn foreign_project_read_and_mutation_denied() {
    let mut store = Store::new();
    let p1 = register(&mut store, "owner".to_owned(), "pw1").unwrap().id;
    let p2 = register(&mut store, "intruder".to_owned(), "pw2").unwrap().id;
    let project = create_project(&mut store, p1, project_payload("secret plans"), NOW).unwrap();

    // Read path: the row exists, so the intruder passes the existence
    // check and fails the ownership check.
    let read = get_project_by_id(&store, p2, project.id);
    assert_eq!(read.unwrap_err(), Error::ProjectUnauthorized);
    // A genuinely absent id is the distinct not-found error.
    assert_eq!(get_project_by_id(&store, p2, 999).unwrap_err(), Error::ProjectNotFound);

    // Mutation path: zero rows affected, single collapsed error.
    let upd = update_project(
        &mut store,
        p2,
        project.id,
        UpdateProjectPayload { name: Some("defaced".to_owned()), description: None },
        NOW + 1,
    );
    assert_eq!(upd.unwrap_err(), Error::ProjectUnauthorized);
    let del = delete_project(&mut store, p2, project.id);
    assert_eq!(del.unwrap_err(), Error::ProjectUnauthorized);

    // The row is untouched: the owner still reads the original name.
    let mine = get_project_by_id(&store, p1, project.id).unwrap();
    assert_eq!(mine.name, "secret plans");
    assert_eq!(mine.updated_at, NOW);
}

#[test]
fn task_creation_against_foreign_project_rejected_before_insert() {
    let mut store = Store::new();
    let p1 = register(&mut store, "owner".to_owned(), "pw1").unwrap().id;
    let p2 = register(&mut store, "intruder".to_owned(), "pw2").unwrap().id;
    let project = create_project(&mut store, p1, project_payload("home"), NOW).unwrap();

    let attempt = create_task(
        &mut store,
        p2,
        CreateTaskPayload {
            project_id: project.id,
            title: "sneaky".to_owned(),
            description: None,
            due_date: None,
        },
        NOW,
    );
    assert_eq!(attempt.unwrap_err(), Error::ProjectUnauthorized);
    // No row came into being.
    assert_eq!(store.tasks.len(), 0);
    assert_eq!(store.next_task_id, 1);

    // Same answer for a project that does not exist at all.
    let absent = create_task(
        &mut store,
        p2,
        CreateTaskPayload {
            project_id: 999,
            title: "sneaky".to_owned(),
            description: None,
            due_date: None,
        },
        NOW,
    );
    assert_eq!(absent.unwrap_err(), Error::ProjectUnauthorized);
}

#[test]
fn end_to_end_two_principals() {
    let mut store = Store::new();

    // register alice -> login returns token A
    let alice = register(&mut store, "alice".to_owned(), "secret1").unwrap();
    let token_a = login(&store, "alice", "secret1", NOW, SECRET).unwrap();
    // register bob -> login returns token B
    let bob = register(&mut store, "bob".to_owned(), "secret2").unwrap();
    let token_b = login(&store, "bob", "secret2", NOW, SECRET).unwrap();

    let header_a = format!("Bearer {token_a}");
    let header_b = format!("Bearer {token_b}");
    let ctx_a = authenticate(&store, Some(&header_a), SECRET, NOW).unwrap();
    let ctx_b = authenticate(&store, Some(&header_b), SECRET, NOW).unwrap();
    assert_eq!(ctx_a.user.id, alice.id);
    assert_eq!(ctx_b.user.id, bob.id);

    // With token A, create Project P.
    let p = create_project(&mut store, ctx_a.user.id, project_payload("p"), NOW).unwrap();

    // With token B, reading P fails; with token A it succeeds.
    assert_eq!(
        get_project_by_id(&store, ctx_b.user.id, p.id).unwrap_err(),
        Error::ProjectUnauthorized
    );
    assert_eq!(get_project_by_id(&store, ctx_a.user.id, p.id).unwrap().id, p.id);

    // With token A, create Task T under P.
    let t = create_task(
        &mut store,
        ctx_a.user.id,
        CreateTaskPayload {
            project_id: p.id,
            title: "t".to_owned(),
            description: None,
            due_date: None,
        },
        NOW,
    )
    .unwrap();

    // With token B, deleting T fails ...
    assert_eq!(
        delete_task(&mut store, ctx_b.user.id, t.id).unwrap_err(),
        Error::TaskUnauthorized
    );
    // ... and T still exists afterwards, verified by a GET with token A.
    let still_there = get_task_by_id(&store, ctx_a.user.id, t.id).unwrap();
    assert_eq!(still_there.id, t.id);
    assert_eq!(still_there.title, "t");
}

#[test]
fn foreign_task_read_is_unauthorized() {
    let mut store = Store::new();
    let p1 = register(&mut store, "owner".to_owned(), "pw1").unwrap().id;
    let p2 = register(&mut store, "intruder".to_owned(), "pw2").unwrap().id;
    let project = create_project(&mut store, p1, project_payload("home"), NOW).unwrap();
    let task = create_task(
        &mut store,
        p1,
        CreateTaskPayload {
            project_id: project.id,
            title: "chore".to_owned(),
            description: None,
            due_date: None,
        },
        NOW,
    )
    .unwrap();

    // The read path checks existence first, then ownership: an absent id
    // is not-found, a foreign one is forbidden.
    assert_eq!(get_task_by_id(&store, p2, task.id).unwrap_err(), Error::TaskUnauthorized);
    assert_eq!(get_task_by_id(&store, p2, 999).unwrap_err(), Error::TaskNotFound);
    // Mutations still collapse "absent" and "foreign" into one error.
    let upd = update_task(
        &mut store,
        p2,
        task.id,
        UpdateTaskPayload {
            title: None,
            description: None,
            status: Some(TaskStatus::Completed),
            due_date: None,
        },
        NOW + 1,
    );
    assert_eq!(upd.unwrap_err(), Error::TaskUnauthorized);
    assert_eq!(get_task_by_id(&store, p1, task.id).unwrap().status, TaskStatus::Pending);
}

#[test]
fn delete_project_cascades_to_tasks() {
    let mut store = Store::new();
    let p1 = register(&mut store, "owner".to_owned(), "pw1").unwrap().id;
    let keep = create_project(&mut store, p1, project_payload("keep"), NOW).unwrap();
    let doomed = create_project(&mut store, p1, project_payload("drop"), NOW).unwrap();
    for (pid, title) in [(keep.id, "a"), (doomed.id, "b"), (doomed.id, "c"), (keep.id, "d")] {
        create_task(
            &mut store,
            p1,
            CreateTaskPayload {
                project_id: pid,
                title: title.to_owned(),
                description: None,
                due_date: None,
            },
            NOW,
        )
        .unwrap();
    }

    delete_project(&mut store, p1, doomed.id).unwrap();

    assert_eq!(store.projects.len(), 1);
    assert_eq!(store.tasks.len(), 2);
    let titles: Vec<&str> = store.tasks.iter().map(|t| t.title.as_str()).collect();
    assert_eq!(titles, vec!["a", "d"]);
}

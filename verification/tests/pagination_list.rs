//! Pagination arithmetic and the scoped list endpoints.

use task_tracker::auth::register;
use task_tracker::pagination::{effective_limit, effective_page, offset_of, total_pages};
use task_tracker::project::{
    create_project, list_projects, CreateProjectPayload, ProjectListQueryParams,
};
use task_tracker::store::Store;
use task_tracker::task::{
    create_task, list_tasks, CreateTaskPayload, TaskListQueryParams, TaskStatus, UpdateTaskPayload,
};

const NOW: i64 = 1_700_000_000;

#[test]
fn pagination_helper_defaults_and_clamps() {
    assert_eq!(effective_page(None), 1);
    assert_eq!(effective_page(Some(0)), 1);
    assert_eq!(effective_page(Some(3)), 3);
    assert_eq!(effective_limit(None), 10);
    assert_eq!(effective_limit(Some(0)), 1);
    assert_eq!(effective_limit(Some(25)), 25);
    assert_eq!(offset_of(1, 10), 0);
    assert_eq!(offset_of(3, 10), 20);
    assert_eq!(total_pages(0, 10), 0);
    assert_eq!(total_pages(1, 10), 1);
    assert_eq!(total_pages(25, 10), 3);
    assert_eq!(total_pages(30, 10), 3);
    assert_eq!(total_pages(31, 10), 4);
}

#[test]
fn project_listing_pages_through_25_rows() {
    let mut store = Store::new();
    let owner = register(&mut store, "owner".to_owned(), "pw").unwrap().id;
    let other = register(&mut store, "other".to_owned(), "pw2").unwrap().id;
    for i in 0..25 {
        create_project(
            &mut store,
            owner,
            CreateProjectPayload { name: format!("p{i}"), description: None },
            NOW + i,
        )
        .unwrap();
    }
    // A foreign row that must never show up.
    create_project(
        &mut store,
        other,
        CreateProjectPayload { name: "not yours".to_owned(), description: None },
        NOW + 99,
    )
    .unwrap();

    let (page1, pg1) = list_projects(
        &store,
        owner,
        ProjectListQueryParams { page: Some(1), limit: Some(10) },
    );
    assert_eq!(pg1.total, 25);
    assert_eq!(pg1.total_pages, 3);
    assert_eq!(pg1.page, 1);
    assert_eq!(pg1.limit, 10);
    assert_eq!(page1.len(), 10);
    // Newest first.
    assert_eq!(page1[0].name, "p24");
    assert_eq!(page1[9].name, "p15");

    let (page3, pg3) = list_projects(
        &store,
        owner,
        ProjectListQueryParams { page: Some(3), limit: Some(10) },
    );
    assert_eq!(pg3.total, 25);
    assert_eq!(page3.len(), 5);
    assert_eq!(page3[0].name, "p4");
    assert_eq!(page3[4].name, "p0");

    // A page past the end is empty, not an error.
    let (page4, pg4) = list_projects(
        &store,
        owner,
        ProjectListQueryParams { page: Some(4), limit: Some(10) },
    );
    assert_eq!(page4.len(), 0);
    assert_eq!(pg4.total, 25);
}

#[test]
fn task_listing_filters_by_status_but_counts_all_owned() {
    let mut store = Store::new();
    let owner = register(&mut store, "owner".to_owned(), "pw").unwrap().id;
    let project = create_project(
        &mut store,
        owner,
        CreateProjectPayload { name: "p".to_owned(), description: None },
        NOW,
    )
    .unwrap();
    for i in 0..6 {
        let t = create_task(
            &mut store,
            owner,
            CreateTaskPayload {
                project_id: project.id,
                title: format!("t{i}"),
                description: None,
                due_date: None,
            },
            NOW + i,
        )
        .unwrap();
        if i % 2 == 0 {
            task_tracker::task::update_task(
                &mut store,
                owner,
                t.id,
                UpdateTaskPayload {
                    title: None,
                    description: None,
                    status: Some(TaskStatus::Completed),
                    due_date: None,
                },
                NOW + i,
            )
            .unwrap();
        }
    }

    let (done, pg) = list_tasks(
        &store,
        owner,
        TaskListQueryParams { page: None, limit: None, status: Some(TaskStatus::Completed) },
    );
    assert_eq!(done.len(), 3);
    assert!(done.iter().all(|t| t.status == TaskStatus::Completed));
    // Newest first within the filter.
    assert_eq!(done[0].title, "t4");
    // As in the stored queries, total counts every owned task, filter or no.
    assert_eq!(pg.total, 6);

    let (all, pg_all) = list_tasks(
        &store,
        owner,
        TaskListQueryParams { page: None, limit: None, status: None },
    );
    assert_eq!(all.len(), 6);
    assert_eq!(pg_all.total, 6);
    assert_eq!(pg_all.total_pages, 1);
}

#[test]
fn task_listing_is_scoped_to_owner() {
    let mut store = Store::new();
    let a = register(&mut store, "a".to_owned(), "pw").unwrap().id;
    let b = register(&mut store, "b".to_owned(), "pw2").unwrap().id;
    for (uid, title) in [(a, "mine"), (b, "theirs")] {
        let p = create_project(
            &mut store,
            uid,
            CreateProjectPayload { name: title.to_owned(), description: None },
            NOW,
        )
        .unwrap();
        create_task(
            &mut store,
            uid,
            CreateTaskPayload {
                project_id: p.id,
                title: title.to_owned(),
                description: None,
                due_date: None,
            },
            NOW,
        )
        .unwrap();
    }

    let (mine, pg) = list_tasks(
        &store,
        a,
        TaskListQueryParams { page: None, limit: None, status: None },
    );
    assert_eq!(pg.total, 1);
    assert_eq!(mine.len(), 1);
    assert_eq!(mine[0].title, "mine");
}

#[test]
fn listing_an_empty_store_is_empty_not_an_error() {
    let mut store = Store::new();
    let owner = register(&mut store, "owner".to_owned(), "pw").unwrap().id;
    let (rows, pg) = list_projects(&store, owner, ProjectListQueryParams { page: None, limit: None });
    assert_eq!(rows.len(), 0);
    assert_eq!(pg.total, 0);
    assert_eq!(pg.total_pages, 0);
    let (tasks, tpg) = list_tasks(
        &store,
        owner,
        TaskListQueryParams { page: None, limit: None, status: None },
    );
    assert_eq!(tasks.len(), 0);
    assert_eq!(tpg.total, 0);
}

#[test]
fn extreme_page_and_limit_values_do_not_overflow() {
    assert_eq!(offset_of(u32::MAX, u32::MAX), (u32::MAX as u64 - 1) * u32::MAX as u64);
    assert_eq!(total_pages(u64::MAX, 1), u64::MAX);
    assert_eq!(total_pages(u64::MAX, 2), u64::MAX / 2 + 1);

    let mut store = Store::new();
    let owner = register(&mut store, "owner".to_owned(), "pw").unwrap().id;
    create_project(
        &mut store,
        owner,
        CreateProjectPayload { name: "only".to_owned(), description: None },
        1,
    )
    .unwrap();
    let (rows, pg) = list_projects(
        &store,
        owner,
        ProjectListQueryParams { page: Some(u32::MAX), limit: Some(u32::MAX) },
    );
    assert_eq!(rows.len(), 0);
    assert_eq!(pg.total, 1);
    assert_eq!(pg.total_pages, 1);
}

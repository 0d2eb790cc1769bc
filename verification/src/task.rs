//! Task rows, the task status with its storage-boundary string mapping,
//! and the request shapes of the task endpoints.
//!
//! A task does not store its owner: ownership is derived by joining to the
//! parent project's `user_id`. The store's invariant guarantees the parent
//! exists, so that join is total.

use vstd::prelude::*;
use crate::errors::Error;
use crate::lookup::{lemma_find_idx, lemma_find_idx_at};
use crate::pagination::{
    effective_limit, effective_page, offset_of, spec_effective_limit, spec_effective_page,
    spec_offset, spec_total_pages, total_pages, Pagination,
};
use crate::project::Project;
use crate::store::{by_task_id, project_idx, store_unchanged, task_idx, Store};
use crate::text::str_eq;

verus! {

/// The lifecycle state of a task.
///
/// The store keeps the closed variant; the string mapping below is the
/// versioned encoding used at the storage boundary, and reading an unknown
/// string is rejected rather than defaulted.
#[derive(Debug, Clone, Copy, PartialEq, Eq, Structural)]
pub enum TaskStatus {
    Pending,
    InProgress,
    Completed,
}

impl TaskStatus {
    /// The storage encoding of this status.
    pub open spec fn spec_string(self) -> Seq<char> {
        match self {
            TaskStatus::Pending => "pending"@,
            TaskStatus::InProgress => "in_progress"@,
            TaskStatus::Completed => "completed"@,
        }
    }

    /// The status a storage string decodes to, if it is a known encoding.
    pub open spec fn spec_from_string(s: Seq<char>) -> Option<TaskStatus> {
        if s == "pending"@ {
            Option::Some(TaskStatus::Pending)
        } else if s == "in_progress"@ {
            Option::Some(TaskStatus::InProgress)
        } else if s == "completed"@ {
            Option::Some(TaskStatus::Completed)
        } else {
            Option::None
        }
    }

    /// Encode this status for storage.
    pub fn to_string(&self) -> (s: String)
        ensures
            s@ == self.spec_string(),
    {
        match self {
            TaskStatus::Pending => "pending".to_owned(),
            TaskStatus::InProgress => "in_progress".to_owned(),
            TaskStatus::Completed => "completed".to_owned(),
        }
    }

    /// Decode a storage string; an unknown string is rejected.
    pub fn from_string(s: &str) -> (r: Option<TaskStatus>)
        ensures
            r == TaskStatus::spec_from_string(s@),
    {
        if str_eq(s, "pending") {
            Option::Some(TaskStatus::Pending)
        } else if str_eq(s, "in_progress") {
            Option::Some(TaskStatus::InProgress)
        } else if str_eq(s, "completed") {
            Option::Some(TaskStatus::Completed)
        } else {
            Option::None
        }
    }
}

/// Encoding a status and decoding the result gives the status back: the
/// storage mapping loses nothing, and no two statuses share an encoding.
pub proof fn lemma_status_string_round_trip(st: TaskStatus)
    ensures
        TaskStatus::spec_from_string(st.spec_string()) == Option::Some(st),
{
    reveal_strlit("pending");
    reveal_strlit("in_progress");
    reveal_strlit("completed");
    assert("pending"@.len() == 7);
    assert("in_progress"@.len() == 11);
    assert("completed"@.len() == 9);
}

/// A row of the `tasks` table. Timestamps are unix seconds.
#[derive(Debug, Clone)]
pub struct Task {
    pub id: i64,
    pub project_id: i64,
    pub title: String,
    pub description: Option<String>,
    pub status: TaskStatus,
    pub due_date: Option<i64>,
    pub created_at: i64,
    pub updated_at: i64,
}

/// The mathematical content of a task row.
pub ghost struct TaskView {
    pub id: int,
    pub project_id: int,
    pub title: Seq<char>,
    pub description: Option<Seq<char>>,
    pub status: TaskStatus,
    pub due_date: Option<int>,
    pub created_at: int,
    pub updated_at: int,
}

impl View for Task {
    type V = TaskView;

    open spec fn view(&self) -> TaskView {
        TaskView {
            id: self.id as int,
            project_id: self.project_id as int,
            title: self.title@,
            description: match self.description {
                Option::Some(d) => Option::Some(d@),
                Option::None => Option::None,
            },
            status: self.status,
            due_date: match self.due_date {
                Option::Some(d) => Option::Some(d as int),
                Option::None => Option::None,
            },
            created_at: self.created_at as int,
            updated_at: self.updated_at as int,
        }
    }
}

impl DeepView for Task {
    type V = TaskView;

    open spec fn deep_view(&self) -> TaskView {
        self.view()
    }
}

/// Body of a task-creation request. `project_id` names the parent the
/// caller must own; the new task starts out pending.
#[derive(Debug, Clone)]
pub struct CreateTaskPayload {
    pub project_id: i64,
    pub title: String,
    pub description: Option<String>,
    pub due_date: Option<i64>,
}

/// Body of a task-update request; a field left out keeps the stored value.
#[derive(Debug, Clone)]
pub struct UpdateTaskPayload {
    pub title: Option<String>,
    pub description: Option<String>,
    pub status: Option<TaskStatus>,
    pub due_date: Option<i64>,
}

/// Query string of the task list endpoint.
#[derive(Debug, Clone, Copy)]
pub struct TaskListQueryParams {
    pub page: Option<u32>,
    pub limit: Option<u32>,
    pub status: Option<TaskStatus>,
}

/// Whether `uid` owns the task `t`: the join to the parent project's
/// `user_id`. Ownership is never stored on the task itself.
pub open spec fn spec_task_owned(projects: Seq<Project>, uid: i64, t: Task) -> bool {
    let i = project_idx(projects, t.project_id);
    i >= 0 && projects[i].user_id == uid
}

/// Whether `t` passes the list endpoint's status filter.
pub open spec fn spec_status_matches(t: Task, filter: Option<TaskStatus>) -> bool {
    match filter {
        Option::Some(st) => t.status == st,
        Option::None => true,
    }
}

/// The tasks owned by `uid` (through their parent project) that pass the
/// status filter, most recently created first — the order the list
/// endpoint returns.
pub open spec fn owned_tasks(
    tasks: Seq<Task>,
    projects: Seq<Project>,
    uid: i64,
    filter: Option<TaskStatus>,
) -> Seq<TaskView>
    decreases tasks.len(),
{
    if tasks.len() == 0 {
        Seq::empty()
    } else {
        let rest = owned_tasks(tasks.subrange(1, tasks.len() as int), projects, uid, filter);
        if spec_task_owned(projects, uid, tasks[0]) && spec_status_matches(tasks[0], filter) {
            rest.push(tasks[0]@)
        } else {
            rest
        }
    }
}

/// Newest-first is `created_at`-descending: where the table's stamps are
/// nondecreasing in storage order — which holds when rows are created with
/// a nondecreasing clock — the owned listing's stamps are nonincreasing.
pub proof fn lemma_owned_tasks_sorted(
    tasks: Seq<Task>,
    projects: Seq<Project>,
    uid: i64,
    filter: Option<TaskStatus>,
)
    requires
        forall|a: int, b: int|
            0 <= a < b < tasks.len() ==> (#[trigger] tasks[a]).created_at <= (
            #[trigger] tasks[b]).created_at,
    ensures
        forall|k: int|
            0 <= k < owned_tasks(tasks, projects, uid, filter).len() ==> tasks.len() > 0 && (
            #[trigger] owned_tasks(tasks, projects, uid, filter)[k]).created_at
                >= tasks[0].created_at,
        forall|a: int, b: int|
            0 <= a < b < owned_tasks(tasks, projects, uid, filter).len() ==> (
            #[trigger] owned_tasks(tasks, projects, uid, filter)[a]).created_at >= (
            #[trigger] owned_tasks(tasks, projects, uid, filter)[b]).created_at,
    decreases tasks.len(),
{
    if tasks.len() > 0 {
        let t = tasks.subrange(1, tasks.len() as int);
        assert(forall|j: int| 0 <= j < t.len() ==> #[trigger] t[j] == tasks[j + 1]);
        lemma_owned_tasks_sorted(t, projects, uid, filter);
        let owned = owned_tasks(tasks, projects, uid, filter);
        let rest = owned_tasks(t, projects, uid, filter);
        assert forall|k: int| 0 <= k < owned.len() implies tasks.len() > 0 && (
        #[trigger] owned[k]).created_at >= tasks[0].created_at by {
            if k < rest.len() {
                assert(owned[k] == rest[k]);
                assert(rest[k].created_at >= t[0].created_at);
                assert(t[0] == tasks[1]);
            } else {
                assert(owned[k] == tasks[0]@);
            }
        }
        assert forall|a: int, b: int| 0 <= a < b < owned.len() implies (
        #[trigger] owned[a]).created_at >= (#[trigger] owned[b]).created_at by {
            if b < rest.len() {
                assert(owned[a] == rest[a] && owned[b] == rest[b]);
            } else {
                assert(owned[a] == rest[a]);
                assert(owned[b] == tasks[0]@);
                assert(rest[a].created_at >= t[0].created_at);
                assert(t[0] == tasks[1]);
            }
        }
    }
}

/// Whether a task mutation by `uid` touches anything: there is a row with
/// id `tid` *and* its parent project is owned by `uid` — the combined
/// predicate of the mutating statements.
pub open spec fn spec_can_mutate_task(
    tasks: Seq<Task>,
    projects: Seq<Project>,
    uid: i64,
    tid: i64,
) -> bool {
    let i = task_idx(tasks, tid);
    i >= 0 && spec_task_owned(projects, uid, tasks[i])
}

/// The single-task read's decision, the same policy as the project read:
/// existence first — an absent id is [`Error::TaskNotFound`] — then
/// ownership through the parent project — a foreign task is
/// [`Error::TaskUnauthorized`].
pub open spec fn spec_get_task(
    tasks: Seq<Task>,
    projects: Seq<Project>,
    uid: i64,
    tid: i64,
) -> Result<TaskView, Error> {
    let i = task_idx(tasks, tid);
    if i < 0 {
        Err(Error::TaskNotFound)
    } else if !spec_task_owned(projects, uid, tasks[i]) {
        Err(Error::TaskUnauthorized)
    } else {
        Ok(tasks[i]@)
    }
}

/// The row a task-creation request stores: fresh id, pending status, both
/// timestamps stamped `now`.
pub open spec fn spec_new_task(id: i64, payload: CreateTaskPayload, now: i64) -> TaskView {
    TaskView {
        id: id as int,
        project_id: payload.project_id as int,
        title: payload.title@,
        description: match payload.description {
            Option::Some(d) => Option::Some(d@),
            Option::None => Option::None,
        },
        status: TaskStatus::Pending,
        due_date: match payload.due_date {
            Option::Some(d) => Option::Some(d as int),
            Option::None => Option::None,
        },
        created_at: now as int,
        updated_at: now as int,
    }
}

/// The row a task update leaves behind: each given field overrides, each
/// absent field keeps the stored value; `updated_at` is restamped; id,
/// parent project and `created_at` never change.
pub open spec fn spec_updated_task(row: Task, payload: UpdateTaskPayload, now: i64) -> TaskView {
    TaskView {
        id: row.id as int,
        project_id: row.project_id as int,
        title: match payload.title {
            Option::Some(t) => t@,
            Option::None => row.title@,
        },
        description: match payload.description {
            Option::Some(d) => Option::Some(d@),
            Option::None => match row.description {
                Option::Some(d) => Option::Some(d@),
                Option::None => Option::None,
            },
        },
        status: match payload.status {
            Option::Some(s) => s,
            Option::None => row.status,
        },
        due_date: match payload.due_date {
            Option::Some(d) => Option::Some(d as int),
            Option::None => match row.due_date {
                Option::Some(d) => Option::Some(d as int),
                Option::None => Option::None,
            },
        },
        created_at: row.created_at as int,
        updated_at: now as int,
    }
}

/// An owned copy of a task row, equal to it in view.
pub fn clone_task(t: &Task) -> (r: Task)
    ensures
        r@ == t@,
{
    Task {
        id: t.id,
        project_id: t.project_id,
        title: t.title.clone(),
        description: match &t.description {
            Option::Some(d) => Option::Some(d.clone()),
            Option::None => Option::None,
        },
        status: t.status,
        due_date: t.due_date,
        created_at: t.created_at,
        updated_at: t.updated_at,
    }
}

/// Whether `uid` owns the task at `tasks[i]`, by looking its parent
/// project up.
fn task_owned(store: &Store, uid: i64, i: usize) -> (r: bool)
    requires
        i < store.tasks@.len(),
    ensures
        r == spec_task_owned(store.projects@, uid, store.tasks@[i as int]),
{
    match store.find_project(store.tasks[i].project_id) {
        Option::None => false,
        Option::Some(p) => store.projects[p].user_id == uid,
    }
}

/// Create a task under `payload.project_id` for the caller `user_id`.
///
/// The target project's ownership is checked *before* any row comes into
/// being: where the project is absent or foreign, the store is untouched
/// and the caller learns only [`Error::ProjectUnauthorized`] — so a task
/// can never be attached to a project the caller does not own.
pub fn create_task(store: &mut Store, user_id: i64, payload: CreateTaskPayload, now: i64) -> (r:
    Result<Task, Error>)
    requires
        old(store).wf(),
        old(store).next_task_id < i64::MAX,
    ensures
        final(store).wf(),
        !crate::project::spec_can_mutate_project(
            old(store).projects@,
            user_id,
            payload.project_id,
        ) ==> r == Err::<Task, Error>(Error::ProjectUnauthorized) && store_unchanged(
            *final(store),
            *old(store),
        ),
        crate::project::spec_can_mutate_project(
            old(store).projects@,
            user_id,
            payload.project_id,
        ) ==> ({
            &&& final(store).tasks@.len() == old(store).tasks@.len() + 1
            &&& forall|j: int|
                0 <= j < old(store).tasks@.len() ==> final(store).tasks@[j] == old(store).tasks@[j]
            &&& final(store).tasks@.last()@ == spec_new_task(
                old(store).next_task_id,
                payload,
                now,
            )
            &&& r matches Ok(t) && t@ == final(store).tasks@.last()@
            &&& final(store).next_task_id == old(store).next_task_id + 1
            &&& final(store).users@ == old(store).users@
            &&& final(store).projects@ == old(store).projects@
            &&& final(store).next_user_id == old(store).next_user_id
            &&& final(store).next_project_id == old(store).next_project_id
        }),
{
    let owned = match store.find_project(payload.project_id) {
        Option::None => false,
        Option::Some(p) => store.projects[p].user_id == user_id,
    };
    if !owned {
        return Err(Error::ProjectUnauthorized);
    }
    let id = store.next_task_id;
    let row = Task {
        id,
        project_id: payload.project_id,
        title: payload.title,
        description: payload.description,
        status: TaskStatus::Pending,
        due_date: payload.due_date,
        created_at: now,
        updated_at: now,
    };
    let copy = clone_task(&row);
    store.tasks.push(row);
    store.next_task_id = id + 1;
    proof {
        let ts0 = old(store).tasks@;
        let ts1 = store.tasks@;
        assert forall|i: int| 0 <= i < ts1.len() implies 1 <= (#[trigger] ts1[i]).id
            < store.next_task_id by {
            if i < ts0.len() {
                assert(ts1[i] == ts0[i]);
            }
        }
        assert forall|i: int, j: int| 0 <= i < j < ts1.len() implies (#[trigger] ts1[i]).id != (
        #[trigger] ts1[j]).id by {
            if j < ts0.len() {
                assert(ts1[i] == ts0[i] && ts1[j] == ts0[j]);
            } else {
                assert(ts1[i] == ts0[i] && ts1[j].id == id);
            }
        }
        assert forall|k: int| 0 <= k < ts1.len() implies project_idx(
            store.projects@,
            (#[trigger] ts1[k]).project_id,
        ) >= 0 by {
            if k < ts0.len() {
                assert(ts1[k] == ts0[k]);
            }
        }
    }
    Ok(copy)
}

/// Read one task by id: [`Error::TaskNotFound`] where no row has the id,
/// [`Error::TaskUnauthorized`] where the row's parent project belongs to
/// someone else, otherwise a copy of the row.
pub fn get_task_by_id(store: &Store, user_id: i64, task_id: i64) -> (r: Result<Task, Error>)
    ensures
        match r {
            Ok(t) => spec_get_task(store.tasks@, store.projects@, user_id, task_id) == Ok::<
                TaskView,
                Error,
            >(t@),
            Err(e) => spec_get_task(store.tasks@, store.projects@, user_id, task_id) == Err::<
                TaskView,
                Error,
            >(e),
        },
{
    match store.find_task(task_id) {
        Option::None => Err(Error::TaskNotFound),
        Option::Some(i) => {
            if !task_owned(store, user_id, i) {
                Err(Error::TaskUnauthorized)
            } else {
                Ok(clone_task(&store.tasks[i]))
            }
        },
    }
}

/// Update a task's title, description, status and due date. Matches on the
/// task id *and* the parent project's owner at once; where nothing matches
/// the store is untouched and the caller learns only
/// [`Error::TaskUnauthorized`].
pub fn update_task(
    store: &mut Store,
    user_id: i64,
    task_id: i64,
    payload: UpdateTaskPayload,
    now: i64,
) -> (r: Result<Task, Error>)
    requires
        old(store).wf(),
    ensures
        final(store).wf(),
        !spec_can_mutate_task(old(store).tasks@, old(store).projects@, user_id, task_id) ==> r
            == Err::<Task, Error>(Error::TaskUnauthorized) && store_unchanged(
            *final(store),
            *old(store),
        ),
        spec_can_mutate_task(old(store).tasks@, old(store).projects@, user_id, task_id) ==> ({
            let i = task_idx(old(store).tasks@, task_id);
            &&& final(store).tasks@.len() == old(store).tasks@.len()
            &&& forall|j: int|
                0 <= j < old(store).tasks@.len() && j != i ==> final(store).tasks@[j] == old(
                    store,
                ).tasks@[j]
            &&& final(store).tasks@[i]@ == spec_updated_task(old(store).tasks@[i], payload, now)
            &&& r matches Ok(t) && t@ == final(store).tasks@[i]@
            &&& final(store).users@ == old(store).users@
            &&& final(store).projects@ == old(store).projects@
            &&& final(store).next_user_id == old(store).next_user_id
            &&& final(store).next_project_id == old(store).next_project_id
            &&& final(store).next_task_id == old(store).next_task_id
        }),
{
    let i = match store.find_task(task_id) {
        Option::None => {
            return Err(Error::TaskUnauthorized);
        },
        Option::Some(i) => i,
    };
    if !task_owned(store, user_id, i) {
        return Err(Error::TaskUnauthorized);
    }
    match payload.title {
        Option::Some(t) => {
            store.tasks[i].title = t;
        },
        Option::None => {},
    }
    match payload.description {
        Option::Some(d) => {
            store.tasks[i].description = Option::Some(d);
        },
        Option::None => {},
    }
    match payload.status {
        Option::Some(s) => {
            store.tasks[i].status = s;
        },
        Option::None => {},
    }
    match payload.due_date {
        Option::Some(d) => {
            store.tasks[i].due_date = Option::Some(d);
        },
        Option::None => {},
    }
    store.tasks[i].updated_at = now;
    let copy = clone_task(&store.tasks[i]);
    proof {
        let ts0 = old(store).tasks@;
        let ts1 = store.tasks@;
        assert forall|a: int| 0 <= a < ts1.len() implies 1 <= (#[trigger] ts1[a]).id
            < store.next_task_id by {
            if a != i {
                assert(ts1[a] == ts0[a]);
            }
        }
        assert forall|a: int, b: int| 0 <= a < b < ts1.len() implies (#[trigger] ts1[a]).id != (
        #[trigger] ts1[b]).id by {
            assert(ts1[a].id == ts0[a].id && ts1[b].id == ts0[b].id);
        }
        assert forall|k: int| 0 <= k < ts1.len() implies project_idx(
            store.projects@,
            (#[trigger] ts1[k]).project_id,
        ) >= 0 by {
            assert(ts1[k].project_id == ts0[k].project_id);
        }
    }
    Ok(copy)
}

/// Delete a task. Matches on the task id *and* the parent project's owner
/// at once; where nothing matches, zero rows are affected and the caller
/// learns only [`Error::TaskUnauthorized`].
pub fn delete_task(store: &mut Store, user_id: i64, task_id: i64) -> (r: Result<(), Error>)
    requires
        old(store).wf(),
    ensures
        final(store).wf(),
        !spec_can_mutate_task(old(store).tasks@, old(store).projects@, user_id, task_id) ==> r
            == Err::<(), Error>(Error::TaskUnauthorized) && store_unchanged(
            *final(store),
            *old(store),
        ),
        spec_can_mutate_task(old(store).tasks@, old(store).projects@, user_id, task_id) ==> ({
            let i = task_idx(old(store).tasks@, task_id);
            &&& r == Ok::<(), Error>(())
            &&& final(store).tasks@ == old(store).tasks@.remove(i)
            &&& final(store).users@ == old(store).users@
            &&& final(store).projects@ == old(store).projects@
            &&& final(store).next_user_id == old(store).next_user_id
            &&& final(store).next_project_id == old(store).next_project_id
            &&& final(store).next_task_id == old(store).next_task_id
        }),
{
    let i = match store.find_task(task_id) {
        Option::None => {
            return Err(Error::TaskUnauthorized);
        },
        Option::Some(i) => i,
    };
    if !task_owned(store, user_id, i) {
        return Err(Error::TaskUnauthorized);
    }
    store.tasks.remove(i);
    proof {
        let ts0 = old(store).tasks@;
        let ts1 = store.tasks@;
        assert forall|a: int| 0 <= a < ts1.len() implies 1 <= (#[trigger] ts1[a]).id
            < store.next_task_id && project_idx(
            store.projects@,
            (#[trigger] ts1[a]).project_id,
        ) >= 0 by {
            let a0: int = if a < i as int {
                a
            } else {
                a + 1
            };
            assert(ts1[a] == ts0[a0]);
        }
        assert forall|a: int, b: int| 0 <= a < b < ts1.len() implies (#[trigger] ts1[a]).id != (
        #[trigger] ts1[b]).id by {
            let a0: int = if a < i as int {
                a
            } else {
                a + 1
            };
            let b0: int = if b < i as int {
                b
            } else {
                b + 1
            };
            assert(ts1[a] == ts0[a0] && ts1[b] == ts0[b0]);
        }
    }
    Ok(())
}

/// List the caller's tasks across all owned projects, newest first, one
/// page at a time, optionally narrowed to one status.
///
/// Scoping is structural — only tasks whose parent project carries the
/// caller's `user_id` are selected at all. As in the stored queries this
/// mirrors, the pagination block's `total` counts every owned task
/// regardless of the status filter; only the returned page is narrowed.
pub fn list_tasks(store: &Store, user_id: i64, params: TaskListQueryParams) -> (r: (
    Vec<Task>,
    Pagination,
))
    ensures
        ({
            let filtered = owned_tasks(store.tasks@, store.projects@, user_id, params.status);
            let total = owned_tasks(store.tasks@, store.projects@, user_id, Option::None);
            let pg = spec_effective_page(params.page);
            let lim = spec_effective_limit(params.limit);
            let off = spec_offset(pg, lim);
            let start = if off > filtered.len() {
                filtered.len() as int
            } else {
                off
            };
            let end = if off + lim > filtered.len() {
                filtered.len() as int
            } else {
                off + lim
            };
            &&& r.0.deep_view() == filtered.subrange(start, end)
            &&& r.1 == (Pagination {
                total: total.len() as u64,
                page: pg,
                limit: lim,
                total_pages: spec_total_pages(total.len() as int, lim as int) as u64,
            })
        }),
        (forall|a: int, b: int|
            0 <= a < b < store.tasks@.len() ==> (#[trigger] store.tasks@[a]).created_at <= (
            #[trigger] store.tasks@[b]).created_at) ==> (forall|a: int, b: int|
            0 <= a < b < r.0@.len() ==> (#[trigger] r.0@[a]).created_at >= (
            #[trigger] r.0@[b]).created_at),
{
    let ghost filtered = owned_tasks(store.tasks@, store.projects@, user_id, params.status);
    let ghost unfiltered = owned_tasks(store.tasks@, store.projects@, user_id, Option::None);
    let n = store.tasks.len();
    let mut matching: Vec<Task> = Vec::new();
    let mut owned_count: usize = 0;
    let mut idx = n;
    proof {
        assert(store.tasks@.subrange(n as int, n as int) =~= Seq::<Task>::empty());
    }
    while idx > 0
        invariant
            idx <= n,
            n == store.tasks@.len(),
            owned_count <= n - idx,
            matching.deep_view() == owned_tasks(
                store.tasks@.subrange(idx as int, n as int),
                store.projects@,
                user_id,
                params.status,
            ),
            owned_count == owned_tasks(
                store.tasks@.subrange(idx as int, n as int),
                store.projects@,
                user_id,
                Option::None,
            ).len(),
        decreases idx,
    {
        idx -= 1;
        let ghost pre = store.tasks@.subrange(idx + 1, n as int);
        let ghost cur = store.tasks@.subrange(idx as int, n as int);
        proof {
            assert(cur[0] == store.tasks@[idx as int]);
            assert(cur.subrange(1, cur.len() as int) =~= pre);
        }
        if task_owned(store, user_id, idx) {
            owned_count += 1;
            let matches_filter = match params.status {
                Option::Some(st) => store.tasks[idx].status == st,
                Option::None => true,
            };
            if matches_filter {
                matching.push(clone_task(&store.tasks[idx]));
                proof {
                    assert(matching.deep_view() =~= owned_tasks(
                        cur,
                        store.projects@,
                        user_id,
                        params.status,
                    ));
                }
            }
        }
    }
    proof {
        assert(store.tasks@.subrange(0, n as int) =~= store.tasks@);
        assert(matching.deep_view() == filtered);
        assert(matching@.len() == matching.deep_view().len());
        assert(owned_count == unfiltered.len());
    }
    let n_match = matching.len();
    let page = effective_page(params.page);
    let limit = effective_limit(params.limit);
    let off = offset_of(page, limit);
    let start: usize = if off >= n_match as u64 {
        n_match
    } else {
        off as usize
    };
    let remaining = n_match - start;
    let take: usize = if (limit as usize) < remaining {
        limit as usize
    } else {
        remaining
    };
    let mut page_vec: Vec<Task> = Vec::new();
    let mut k: usize = start;
    while k < start + take
        invariant
            start <= k <= start + take,
            start + take <= n_match,
            n_match == matching@.len(),
            matching.deep_view() == filtered,
            filtered == owned_tasks(store.tasks@, store.projects@, user_id, params.status),
            page_vec@.len() == k - start,
            forall|i: int|
                0 <= i < page_vec@.len() ==> (#[trigger] page_vec@[i])@ == filtered[start + i],
        decreases start + take - k,
    {
        let c = clone_task(&matching[k]);
        proof {
            assert(matching.deep_view()[k as int] == filtered[k as int]);
        }
        page_vec.push(c);
        k += 1;
    }
    proof {
        assert forall|i: int|
            0 <= i < page_vec.deep_view().len() implies #[trigger] page_vec.deep_view()[i]
            == filtered.subrange(start as int, (start + take) as int)[i] by {
            assert(page_vec.deep_view()[i] == page_vec@[i]@);
        }
        assert(page_vec.deep_view() =~= filtered.subrange(start as int, (start + take) as int));
        let off_s = spec_offset(page, limit);
        let endv = if off_s + limit > filtered.len() {
            filtered.len() as int
        } else {
            off_s + limit
        };
        assert(start + take == endv);
        if forall|a: int, b: int|
            0 <= a < b < store.tasks@.len() ==> (#[trigger] store.tasks@[a]).created_at <= (
            #[trigger] store.tasks@[b]).created_at {
            lemma_owned_tasks_sorted(store.tasks@, store.projects@, user_id, params.status);
            assert forall|a: int, b: int| 0 <= a < b < page_vec@.len() implies (
            #[trigger] page_vec@[a]).created_at >= (#[trigger] page_vec@[b]).created_at by {
                assert(page_vec@[a]@ == filtered[start + a]);
                assert(page_vec@[b]@ == filtered[start + b]);
                assert(filtered[start + a].created_at >= filtered[start + b].created_at);
            }
        }
    }
    let total = owned_count as u64;
    let pages = total_pages(total, limit);
    let pagination = Pagination { total, page, limit, total_pages: pages };
    (page_vec, pagination)
}

/// The task rows that survive deleting project `pid`, in their stored
/// order: what the schema's cascade leaves behind.
pub open spec fn tasks_without_project(tasks: Seq<Task>, pid: i64) -> Seq<Task>
    decreases tasks.len(),
{
    if tasks.len() == 0 {
        Seq::empty()
    } else {
        let rest = tasks_without_project(tasks.subrange(1, tasks.len() as int), pid);
        if tasks[0].project_id == pid {
            rest
        } else {
            seq![tasks[0]] + rest
        }
    }
}

/// Every survivor of the cascade is one of the original rows and does not
/// belong to the deleted project.
pub proof fn lemma_tasks_without_project(tasks: Seq<Task>, pid: i64)
    ensures
        tasks_without_project(tasks, pid).len() <= tasks.len(),
        forall|k: int|
            0 <= k < tasks_without_project(tasks, pid).len() ==> tasks.contains(
                #[trigger] tasks_without_project(tasks, pid)[k],
            ) && tasks_without_project(tasks, pid)[k].project_id != pid,
    decreases tasks.len(),
{
    if tasks.len() > 0 {
        let rest = tasks.subrange(1, tasks.len() as int);
        lemma_tasks_without_project(rest, pid);
        let surv = tasks_without_project(tasks, pid);
        let surv_r = tasks_without_project(rest, pid);
        assert forall|k: int| 0 <= k < surv.len() implies tasks.contains(#[trigger] surv[k])
            && surv[k].project_id != pid by {
            if tasks[0].project_id == pid {
                assert(surv[k] == surv_r[k]);
                assert(rest.contains(surv_r[k]));
                let j = choose|j: int| 0 <= j < rest.len() && rest[j] == surv_r[k];
                assert(tasks[j + 1] == rest[j]);
            } else {
                if k == 0 {
                    assert(surv[0] == tasks[0]);
                } else {
                    assert(surv[k] == surv_r[k - 1]);
                    assert(rest.contains(surv_r[k - 1]));
                    let j = choose|j: int| 0 <= j < rest.len() && rest[j] == surv_r[k - 1];
                    assert(tasks[j + 1] == rest[j]);
                }
            }
        }
    }
}

/// The cascade keeps task ids distinct: survivors of a table with
/// pairwise-distinct ids have pairwise-distinct ids.
pub proof fn lemma_tasks_without_project_distinct(tasks: Seq<Task>, pid: i64)
    requires
        forall|a: int, b: int|
            0 <= a < b < tasks.len() ==> (#[trigger] tasks[a]).id != (#[trigger] tasks[b]).id,
    ensures
        forall|a: int, b: int|
            0 <= a < b < tasks_without_project(tasks, pid).len() ==> (
            #[trigger] tasks_without_project(tasks, pid)[a]).id != (
            #[trigger] tasks_without_project(tasks, pid)[b]).id,
    decreases tasks.len(),
{
    if tasks.len() > 0 {
        let rest = tasks.subrange(1, tasks.len() as int);
        assert(forall|j: int| 0 <= j < rest.len() ==> #[trigger] rest[j] == tasks[j + 1]);
        lemma_tasks_without_project_distinct(rest, pid);
        lemma_tasks_without_project(rest, pid);
        let surv = tasks_without_project(tasks, pid);
        let surv_r = tasks_without_project(rest, pid);
        assert forall|a: int, b: int| 0 <= a < b < surv.len() implies (#[trigger] surv[a]).id != (
        #[trigger] surv[b]).id by {
            if tasks[0].project_id == pid {
                assert(surv[a] == surv_r[a] && surv[b] == surv_r[b]);
            } else {
                assert(b >= 1 && surv[b] == surv_r[b - 1]);
                if a == 0 {
                    assert(surv[0] == tasks[0]);
                    assert(rest.contains(surv_r[b - 1]));
                    let j = choose|j: int| 0 <= j < rest.len() && rest[j] == surv_r[b - 1];
                    assert(tasks[j + 1] == rest[j]);
                } else {
                    assert(surv[a] == surv_r[a - 1]);
                }
            }
        }
    }
}

/// Remove every task of project `pid`, keeping the rest in order.
pub fn remove_tasks_of_project(tasks: &mut Vec<Task>, pid: i64)
    ensures
        final(tasks)@ == tasks_without_project(old(tasks)@, pid),
{
    let ghost t0 = old(tasks)@;
    let mut i = tasks.len();
    proof {
        assert(t0.subrange(i as int, t0.len() as int) =~= Seq::<Task>::empty());
        assert(tasks@ =~= t0.subrange(0, i as int) + tasks_without_project(
            t0.subrange(i as int, t0.len() as int),
            pid,
        ));
    }
    while i > 0
        invariant
            i <= t0.len(),
            tasks@ == t0.subrange(0, i as int) + tasks_without_project(
                t0.subrange(i as int, t0.len() as int),
                pid,
            ),
        decreases i,
    {
        i -= 1;
        let ghost cur = t0.subrange(i as int, t0.len() as int);
        proof {
            assert(cur[0] == t0[i as int]);
            assert(cur.subrange(1, cur.len() as int) =~= t0.subrange(i + 1, t0.len() as int));
            assert(tasks@[i as int] == t0[i as int]);
        }
        if tasks[i].project_id == pid {
            tasks.remove(i);
            proof {
                assert(tasks@ =~= t0.subrange(0, i as int) + tasks_without_project(cur, pid));
            }
        } else {
            proof {
                assert(tasks@ =~= t0.subrange(0, i as int) + tasks_without_project(cur, pid));
            }
        }
    }
    proof {
        assert(tasks@ =~= tasks_without_project(t0, pid));
    }
}

} // verus!

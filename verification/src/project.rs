//! Project rows, the request shapes of the project endpoints, and the
//! project operations themselves.
//!
//! `user_id` is the root of the ownership chain: it is set from the
//! authenticated principal at creation, never changed afterwards, and every
//! authorization decision about a project — or about a task nested under
//! it — resolves to a comparison against this field.
//!
//! The error discipline differs deliberately between reading and writing.
//! Reading one project by id checks existence first ([`Error::ProjectNotFound`])
//! and ownership second ([`Error::ProjectUnauthorized`]), so a read does
//! reveal whether a foreign id exists. Updating and deleting match on
//! `id` *and* owner in one predicate, as the store's `WHERE` clause would,
//! and collapse "no such row" and "not yours" into the single
//! [`Error::ProjectUnauthorized`] — a mutation reveals nothing. Listing is
//! scoped structurally: only rows with the caller's `user_id` are ever
//! selected.

use vstd::prelude::*;
use crate::errors::Error;
use crate::lookup::{lemma_find_idx, lemma_find_idx_at};
use crate::pagination::{
    effective_limit, effective_page, offset_of, spec_effective_limit, spec_effective_page,
    spec_offset, spec_total_pages, total_pages, Pagination,
};
use crate::store::{by_project_id, project_idx, store_unchanged, Store};

verus! {

/// A row of the `projects` table.
///
/// Timestamps are unix seconds; the store's operations take the current
/// time as an argument and stamp `created_at` / `updated_at` from it.
#[derive(Debug, Clone)]
pub struct Project {
    pub id: i64,
    pub user_id: i64,
    pub name: String,
    pub description: Option<String>,
    pub created_at: i64,
    pub updated_at: i64,
}

/// The mathematical content of a project row.
pub ghost struct ProjectView {
    pub id: int,
    pub user_id: int,
    pub name: Seq<char>,
    pub description: Option<Seq<char>>,
    pub created_at: int,
    pub updated_at: int,
}

impl View for Project {
    type V = ProjectView;

    open spec fn view(&self) -> ProjectView {
        ProjectView {
            id: self.id as int,
            user_id: self.user_id as int,
            name: self.name@,
            description: match self.description {
                Option::Some(d) => Option::Some(d@),
                Option::None => Option::None,
            },
            created_at: self.created_at as int,
            updated_at: self.updated_at as int,
        }
    }
}

impl DeepView for Project {
    type V = ProjectView;

    open spec fn deep_view(&self) -> ProjectView {
        self.view()
    }
}

/// Body of a project-creation request.
#[derive(Debug, Clone)]
pub struct CreateProjectPayload {
    pub name: String,
    pub description: Option<String>,
}

/// Body of a project-update request; a field left out keeps the stored value.
#[derive(Debug, Clone)]
pub struct UpdateProjectPayload {
    pub name: Option<String>,
    pub description: Option<String>,
}

/// Query string of the project list endpoint.
#[derive(Debug, Clone, Copy)]
pub struct ProjectListQueryParams {
    pub page: Option<u32>,
    pub limit: Option<u32>,
}

/// The projects owned by `uid`, most recently created first — the order
/// the list endpoint returns.
pub open spec fn owned_projects(projects: Seq<Project>, uid: i64) -> Seq<ProjectView>
    decreases projects.len(),
{
    if projects.len() == 0 {
        Seq::empty()
    } else {
        let rest = owned_projects(projects.subrange(1, projects.len() as int), uid);
        if projects[0].user_id == uid {
            rest.push(projects[0]@)
        } else {
            rest
        }
    }
}

/// Newest-first is `created_at`-descending: where the table's stamps are
/// nondecreasing in storage order — which holds when rows are created with
/// a nondecreasing clock — the owned listing's stamps are nonincreasing.
pub proof fn lemma_owned_projects_sorted(projects: Seq<Project>, uid: i64)
    requires
        forall|a: int, b: int|
            0 <= a < b < projects.len() ==> (#[trigger] projects[a]).created_at <= (
            #[trigger] projects[b]).created_at,
    ensures
        forall|k: int|
            0 <= k < owned_projects(projects, uid).len() ==> projects.len() > 0 && (
            #[trigger] owned_projects(projects, uid)[k]).created_at >= projects[0].created_at,
        forall|a: int, b: int|
            0 <= a < b < owned_projects(projects, uid).len() ==> (#[trigger] owned_projects(
                projects,
                uid,
            )[a]).created_at >= (#[trigger] owned_projects(projects, uid)[b]).created_at,
    decreases projects.len(),
{
    if projects.len() > 0 {
        let t = projects.subrange(1, projects.len() as int);
        assert(forall|j: int| 0 <= j < t.len() ==> #[trigger] t[j] == projects[j + 1]);
        lemma_owned_projects_sorted(t, uid);
        let owned = owned_projects(projects, uid);
        let rest = owned_projects(t, uid);
        assert forall|k: int| 0 <= k < owned.len() implies projects.len() > 0 && (
        #[trigger] owned[k]).created_at >= projects[0].created_at by {
            if k < rest.len() {
                assert(owned[k] == rest[k]);
                assert(rest[k].created_at >= t[0].created_at);
                assert(t[0] == projects[1]);
            } else {
                assert(owned[k] == projects[0]@);
            }
        }
        assert forall|a: int, b: int| 0 <= a < b < owned.len() implies (
        #[trigger] owned[a]).created_at >= (#[trigger] owned[b]).created_at by {
            if b < rest.len() {
                assert(owned[a] == rest[a] && owned[b] == rest[b]);
            } else {
                assert(owned[a] == rest[a]);
                assert(owned[b] == projects[0]@);
                assert(rest[a].created_at >= t[0].created_at);
                assert(t[0] == projects[1]);
            }
        }
    }
}

/// Whether a mutation by `uid` touches anything: there is a row with id
/// `pid` *and* it is owned by `uid` — the combined predicate of the
/// mutating statements.
pub open spec fn spec_can_mutate_project(projects: Seq<Project>, uid: i64, pid: i64) -> bool {
    let i = project_idx(projects, pid);
    i >= 0 && projects[i].user_id == uid
}

/// The read path's decision: existence first, ownership second.
pub open spec fn spec_get_project(projects: Seq<Project>, uid: i64, pid: i64) -> Result<
    ProjectView,
    Error,
> {
    let i = project_idx(projects, pid);
    if i < 0 {
        Err(Error::ProjectNotFound)
    } else if projects[i].user_id != uid {
        Err(Error::ProjectUnauthorized)
    } else {
        Ok(projects[i]@)
    }
}

/// The row a creation request stores: fresh id, the caller as owner,
/// both timestamps stamped `now`.
pub open spec fn spec_new_project(
    id: i64,
    user_id: i64,
    payload: CreateProjectPayload,
    now: i64,
) -> ProjectView {
    ProjectView {
        id: id as int,
        user_id: user_id as int,
        name: payload.name@,
        description: match payload.description {
            Option::Some(d) => Option::Some(d@),
            Option::None => Option::None,
        },
        created_at: now as int,
        updated_at: now as int,
    }
}

/// The row an update request leaves behind: each given field overrides,
/// each absent field keeps the stored value; `updated_at` is restamped,
/// id, owner and `created_at` never change.
pub open spec fn spec_updated_project(
    row: Project,
    payload: UpdateProjectPayload,
    now: i64,
) -> ProjectView {
    ProjectView {
        id: row.id as int,
        user_id: row.user_id as int,
        name: match payload.name {
            Option::Some(n) => n@,
            Option::None => row.name@,
        },
        description: match payload.description {
            Option::Some(d) => Option::Some(d@),
            Option::None => match row.description {
                Option::Some(d) => Option::Some(d@),
                Option::None => Option::None,
            },
        },
        created_at: row.created_at as int,
        updated_at: now as int,
    }
}

/// An owned copy of a project row, equal to it in view.
pub fn clone_project(p: &Project) -> (r: Project)
    ensures
        r@ == p@,
{
    Project {
        id: p.id,
        user_id: p.user_id,
        name: p.name.clone(),
        description: match &p.description {
            Option::Some(d) => Option::Some(d.clone()),
            Option::None => Option::None,
        },
        created_at: p.created_at,
        updated_at: p.updated_at,
    }
}

/// Create a project owned by `user_id`: always succeeds, appends the one
/// new row and returns a copy of it.
pub fn create_project(
    store: &mut Store,
    user_id: i64,
    payload: CreateProjectPayload,
    now: i64,
) -> (r: Result<Project, Error>)
    requires
        old(store).wf(),
        old(store).next_project_id < i64::MAX,
    ensures
        final(store).wf(),
        final(store).projects@.len() == old(store).projects@.len() + 1,
        forall|j: int|
            0 <= j < old(store).projects@.len() ==> final(store).projects@[j] == old(
                store,
            ).projects@[j],
        final(store).projects@.last()@ == spec_new_project(
            old(store).next_project_id,
            user_id,
            payload,
            now,
        ),
        r matches Ok(p) && p@ == final(store).projects@.last()@,
        final(store).next_project_id == old(store).next_project_id + 1,
        final(store).users@ == old(store).users@,
        final(store).tasks@ == old(store).tasks@,
        final(store).next_user_id == old(store).next_user_id,
        final(store).next_task_id == old(store).next_task_id,
{
    let id = store.next_project_id;
    let row = Project {
        id,
        user_id,
        name: payload.name,
        description: payload.description,
        created_at: now,
        updated_at: now,
    };
    let copy = clone_project(&row);
    store.projects.push(row);
    store.next_project_id = id + 1;
    proof {
        let ps0 = old(store).projects@;
        let ps1 = store.projects@;
        assert forall|i: int| 0 <= i < ps1.len() implies 1 <= (#[trigger] ps1[i]).id
            < store.next_project_id by {
            if i < ps0.len() {
                assert(ps1[i] == ps0[i]);
            }
        }
        assert forall|i: int, j: int| 0 <= i < j < ps1.len() implies (#[trigger] ps1[i]).id != (
        #[trigger] ps1[j]).id by {
            if j < ps0.len() {
                assert(ps1[i] == ps0[i] && ps1[j] == ps0[j]);
            } else {
                assert(ps1[i] == ps0[i] && ps1[j].id == id);
            }
        }
        assert forall|k: int| 0 <= k < store.tasks@.len() implies project_idx(
            ps1,
            (#[trigger] store.tasks@[k]).project_id,
        ) >= 0 by {
            let pid = store.tasks@[k].project_id;
            lemma_find_idx(ps0, by_project_id(pid));
            let i = project_idx(ps0, pid);
            assert(ps1[i] == ps0[i]);
            assert forall|j: int| 0 <= j < i implies !(by_project_id(pid)(#[trigger] ps1[j])) by {
                assert(ps1[j] == ps0[j]);
            }
            lemma_find_idx_at(ps1, by_project_id(pid), i);
        }
    }
    Ok(copy)
}

/// Read one project by id: [`Error::ProjectNotFound`] where no row has the
/// id, [`Error::ProjectUnauthorized`] where the row belongs to someone
/// else, otherwise a copy of the row.
pub fn get_project_by_id(store: &Store, user_id: i64, project_id: i64) -> (r: Result<
    Project,
    Error,
>)
    ensures
        match r {
            Ok(p) => spec_get_project(store.projects@, user_id, project_id) == Ok::<
                ProjectView,
                Error,
            >(p@),
            Err(e) => spec_get_project(store.projects@, user_id, project_id) == Err::<
                ProjectView,
                Error,
            >(e),
        },
{
    match store.find_project(project_id) {
        Option::None => Err(Error::ProjectNotFound),
        Option::Some(i) => {
            let p = &store.projects[i];
            if p.user_id != user_id {
                Err(Error::ProjectUnauthorized)
            } else {
                Ok(clone_project(p))
            }
        },
    }
}

/// Update a project's name and description. Matches on id *and* owner at
/// once: where nothing matches — absent row or foreign owner alike — the
/// store is untouched and the caller learns only
/// [`Error::ProjectUnauthorized`].
pub fn update_project(
    store: &mut Store,
    user_id: i64,
    project_id: i64,
    payload: UpdateProjectPayload,
    now: i64,
) -> (r: Result<Project, Error>)
    requires
        old(store).wf(),
    ensures
        final(store).wf(),
        !spec_can_mutate_project(old(store).projects@, user_id, project_id) ==> r == Err::<
            Project,
            Error,
        >(Error::ProjectUnauthorized) && store_unchanged(*final(store), *old(store)),
        spec_can_mutate_project(old(store).projects@, user_id, project_id) ==> ({
            let i = project_idx(old(store).projects@, project_id);
            &&& final(store).projects@.len() == old(store).projects@.len()
            &&& forall|j: int|
                0 <= j < old(store).projects@.len() && j != i ==> final(store).projects@[j] == old(
                    store,
                ).projects@[j]
            &&& final(store).projects@[i]@ == spec_updated_project(
                old(store).projects@[i],
                payload,
                now,
            )
            &&& r matches Ok(p) && p@ == final(store).projects@[i]@
            &&& final(store).users@ == old(store).users@
            &&& final(store).tasks@ == old(store).tasks@
            &&& final(store).next_user_id == old(store).next_user_id
            &&& final(store).next_project_id == old(store).next_project_id
            &&& final(store).next_task_id == old(store).next_task_id
        }),
{
    let i = match store.find_project(project_id) {
        Option::None => {
            return Err(Error::ProjectUnauthorized);
        },
        Option::Some(i) => i,
    };
    if store.projects[i].user_id != user_id {
        return Err(Error::ProjectUnauthorized);
    }
    match payload.name {
        Option::Some(n) => {
            store.projects[i].name = n;
        },
        Option::None => {},
    }
    match payload.description {
        Option::Some(d) => {
            store.projects[i].description = Option::Some(d);
        },
        Option::None => {},
    }
    store.projects[i].updated_at = now;
    let copy = clone_project(&store.projects[i]);
    proof {
        let ps0 = old(store).projects@;
        let ps1 = store.projects@;
        assert forall|a: int| 0 <= a < ps1.len() implies 1 <= (#[trigger] ps1[a]).id
            < store.next_project_id by {
            if a != i {
                assert(ps1[a] == ps0[a]);
            }
        }
        assert forall|a: int, b: int| 0 <= a < b < ps1.len() implies (#[trigger] ps1[a]).id != (
        #[trigger] ps1[b]).id by {
            assert(ps1[a].id == ps0[a].id && ps1[b].id == ps0[b].id);
        }
        assert forall|k: int| 0 <= k < store.tasks@.len() implies project_idx(
            ps1,
            (#[trigger] store.tasks@[k]).project_id,
        ) >= 0 by {
            let pid = store.tasks@[k].project_id;
            lemma_find_idx(ps0, by_project_id(pid));
            let a = project_idx(ps0, pid);
            assert(ps1[a].id == ps0[a].id);
            assert forall|j: int| 0 <= j < a implies !(by_project_id(pid)(#[trigger] ps1[j])) by {
                assert(ps1[j].id == ps0[j].id);
            }
            lemma_find_idx_at(ps1, by_project_id(pid), a);
        }
    }
    Ok(copy)
}

/// Delete a project and, as the schema's cascade would, every task under
/// it. Matches on id *and* owner at once; where nothing matches the store
/// is untouched and the caller learns only [`Error::ProjectUnauthorized`].
pub fn delete_project(store: &mut Store, user_id: i64, project_id: i64) -> (r: Result<(), Error>)
    requires
        old(store).wf(),
    ensures
        final(store).wf(),
        !spec_can_mutate_project(old(store).projects@, user_id, project_id) ==> r == Err::<
            (),
            Error,
        >(Error::ProjectUnauthorized) && store_unchanged(*final(store), *old(store)),
        spec_can_mutate_project(old(store).projects@, user_id, project_id) ==> ({
            let i = project_idx(old(store).projects@, project_id);
            &&& r == Ok::<(), Error>(())
            &&& final(store).projects@ == old(store).projects@.remove(i)
            &&& final(store).tasks@ == crate::task::tasks_without_project(
                old(store).tasks@,
                project_id,
            )
            &&& final(store).users@ == old(store).users@
            &&& final(store).next_user_id == old(store).next_user_id
            &&& final(store).next_project_id == old(store).next_project_id
            &&& final(store).next_task_id == old(store).next_task_id
        }),
{
    let i = match store.find_project(project_id) {
        Option::None => {
            return Err(Error::ProjectUnauthorized);
        },
        Option::Some(i) => i,
    };
    if store.projects[i].user_id != user_id {
        return Err(Error::ProjectUnauthorized);
    }
    store.projects.remove(i);
    crate::task::remove_tasks_of_project(&mut store.tasks, project_id);
    proof {
        let ps0 = old(store).projects@;
        let ps1 = store.projects@;
        assert forall|a: int| 0 <= a < ps1.len() implies 1 <= (#[trigger] ps1[a]).id
            < store.next_project_id by {
            if a < i {
                assert(ps1[a] == ps0[a]);
            } else {
                assert(ps1[a] == ps0[a + 1]);
            }
        }
        assert forall|a: int, b: int| 0 <= a < b < ps1.len() implies (#[trigger] ps1[a]).id != (
        #[trigger] ps1[b]).id by {
            let a0: int = if a < i {
                a
            } else {
                a + 1
            };
            let b0: int = if b < i {
                b
            } else {
                b + 1
            };
            assert(ps1[a] == ps0[a0] && ps1[b] == ps0[b0]);
        }
        crate::task::lemma_tasks_without_project(old(store).tasks@, project_id);
        crate::task::lemma_tasks_without_project_distinct(old(store).tasks@, project_id);
        assert forall|a: int| 0 <= a < store.tasks@.len() implies 1 <= (
        #[trigger] store.tasks@[a]).id < store.next_task_id by {
            let t = store.tasks@[a];
            assert(old(store).tasks@.contains(t));
            let k0 = choose|k0: int|
                0 <= k0 < old(store).tasks@.len() && old(store).tasks@[k0] == t;
            assert(1 <= old(store).tasks@[k0].id < old(store).next_task_id);
        }
        assert forall|k: int| 0 <= k < store.tasks@.len() implies project_idx(
            ps1,
            (#[trigger] store.tasks@[k]).project_id,
        ) >= 0 by {
            let t = store.tasks@[k];
            assert(old(store).tasks@.contains(t) && t.project_id != project_id);
            let k0 = choose|k0: int|
                0 <= k0 < old(store).tasks@.len() && old(store).tasks@[k0] == t;
            assert(project_idx(ps0, t.project_id) >= 0);
            lemma_find_idx(ps0, by_project_id(t.project_id));
            let a = project_idx(ps0, t.project_id);
            assert(ps0[a].id == t.project_id);
            assert(ps0[i as int].id == project_id);
            assert(a != i as int);
            let a1: int = if a < i as int {
                a
            } else {
                a - 1
            };
            assert(ps1[a1] == ps0[a]);
            lemma_find_idx(ps1, by_project_id(t.project_id));
            if project_idx(ps1, t.project_id) < 0 {
                assert(!(by_project_id(t.project_id)(ps1[a1])));
            }
        }
    }
    Ok(())
}

/// List the caller's projects, newest first, one page at a time. Only rows
/// with the caller's `user_id` are selected at all — scoping is part of
/// the query, not an afterthought — and the pagination block counts every
/// owned row.
pub fn list_projects(store: &Store, user_id: i64, params: ProjectListQueryParams) -> (r: (
    Vec<Project>,
    Pagination,
))
    ensures
        ({
            let owned = owned_projects(store.projects@, user_id);
            let pg = spec_effective_page(params.page);
            let lim = spec_effective_limit(params.limit);
            let off = spec_offset(pg, lim);
            let start = if off > owned.len() {
                owned.len() as int
            } else {
                off
            };
            let end = if off + lim > owned.len() {
                owned.len() as int
            } else {
                off + lim
            };
            &&& r.0.deep_view() == owned.subrange(start, end)
            &&& r.1 == (Pagination {
                total: owned.len() as u64,
                page: pg,
                limit: lim,
                total_pages: spec_total_pages(owned.len() as int, lim as int) as u64,
            })
        }),
        (forall|a: int, b: int|
            0 <= a < b < store.projects@.len() ==> (#[trigger] store.projects@[a]).created_at <= (
            #[trigger] store.projects@[b]).created_at) ==> (forall|a: int, b: int|
            0 <= a < b < r.0@.len() ==> (#[trigger] r.0@[a]).created_at >= (
            #[trigger] r.0@[b]).created_at),
{
    let ghost owned = owned_projects(store.projects@, user_id);
    let n = store.projects.len();
    let mut owned_vec: Vec<Project> = Vec::new();
    let mut idx = n;
    proof {
        assert(store.projects@.subrange(n as int, n as int) =~= Seq::<Project>::empty());
    }
    while idx > 0
        invariant
            idx <= n,
            n == store.projects@.len(),
            owned_vec.deep_view() == owned_projects(
                store.projects@.subrange(idx as int, n as int),
                user_id,
            ),
        decreases idx,
    {
        idx -= 1;
        let ghost pre = store.projects@.subrange(idx + 1, n as int);
        let ghost cur = store.projects@.subrange(idx as int, n as int);
        proof {
            assert(cur[0] == store.projects@[idx as int]);
            assert(cur.subrange(1, cur.len() as int) =~= pre);
        }
        if store.projects[idx].user_id == user_id {
            owned_vec.push(clone_project(&store.projects[idx]));
            proof {
                assert(owned_vec.deep_view() =~= owned_projects(cur, user_id));
            }
        }
    }
    proof {
        assert(store.projects@.subrange(0, n as int) =~= store.projects@);
        assert(owned_vec.deep_view() == owned);
        assert(owned_vec@.len() == owned_vec.deep_view().len());
    }
    let n_owned = owned_vec.len();
    let page = effective_page(params.page);
    let limit = effective_limit(params.limit);
    let off = offset_of(page, limit);
    let start: usize = if off >= n_owned as u64 {
        n_owned
    } else {
        off as usize
    };
    let remaining = n_owned - start;
    let take: usize = if (limit as usize) < remaining {
        limit as usize
    } else {
        remaining
    };
    let mut page_vec: Vec<Project> = Vec::new();
    let mut k: usize = start;
    while k < start + take
        invariant
            start <= k <= start + take,
            start + take <= n_owned,
            n_owned == owned_vec@.len(),
            owned_vec.deep_view() == owned,
            owned == owned_projects(store.projects@, user_id),
            page_vec@.len() == k - start,
            forall|i: int|
                0 <= i < page_vec@.len() ==> (#[trigger] page_vec@[i])@ == owned[start + i],
        decreases start + take - k,
    {
        let c = clone_project(&owned_vec[k]);
        proof {
            assert(owned_vec.deep_view()[k as int] == owned[k as int]);
        }
        page_vec.push(c);
        k += 1;
    }
    proof {
        assert forall|i: int|
            0 <= i < page_vec.deep_view().len() implies #[trigger] page_vec.deep_view()[i]
            == owned.subrange(start as int, (start + take) as int)[i] by {
            assert(page_vec.deep_view()[i] == page_vec@[i]@);
        }
        assert(page_vec.deep_view() =~= owned.subrange(start as int, (start + take) as int));
        let off_s = spec_offset(page, limit);
        let endv = if off_s + limit > owned.len() {
            owned.len() as int
        } else {
            off_s + limit
        };
        assert(start + take == endv);
        if forall|a: int, b: int|
            0 <= a < b < store.projects@.len() ==> (#[trigger] store.projects@[a]).created_at <= (
            #[trigger] store.projects@[b]).created_at {
            lemma_owned_projects_sorted(store.projects@, user_id);
            assert forall|a: int, b: int| 0 <= a < b < page_vec@.len() implies (
            #[trigger] page_vec@[a]).created_at >= (#[trigger] page_vec@[b]).created_at by {
                assert(page_vec@[a]@ == owned[start + a]);
                assert(page_vec@[b]@ == owned[start + b]);
                assert(owned[start + a].created_at >= owned[start + b].created_at);
            }
        }
    }
    let total = n_owned as u64;
    let pages = total_pages(total, limit);
    let pagination = Pagination { total, page, limit, total_pages: pages };
    (page_vec, pagination)
}

} // verus!

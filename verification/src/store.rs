//! The persistent state of the tracker, modelled as an in-memory image of
//! the three tables, with the schema's invariants stated once and
//! maintained by every operation.
//!
//! [`Store::wf`] is the well-formedness the rest of the crate assumes and
//! preserves: ids are positive, unique, and below their table's next free
//! id (so a freshly assigned id collides with nothing); usernames are
//! unique; and every task's `project_id` names an existing project, which
//! makes the ownership join of the task endpoints total.

use vstd::prelude::*;
use crate::lookup::{find_idx, lemma_find_idx, lemma_find_idx_at, lemma_find_idx_none};
use crate::project::Project;
use crate::task::Task;
use crate::user::User;

verus! {

/// Matches the user row with the given id.
pub open spec fn by_user_id(id: i64) -> spec_fn(User) -> bool {
    |u: User| u.id == id
}

/// Matches the user row with the given username.
pub open spec fn by_username(name: Seq<char>) -> spec_fn(User) -> bool {
    |u: User| u.username@ == name
}

/// Matches the project row with the given id.
pub open spec fn by_project_id(id: i64) -> spec_fn(Project) -> bool {
    |p: Project| p.id == id
}

/// Matches the task row with the given id.
pub open spec fn by_task_id(id: i64) -> spec_fn(Task) -> bool {
    |t: Task| t.id == id
}

/// The index of the user row with the given id, or -1.
pub open spec fn user_idx_by_id(users: Seq<User>, id: i64) -> int {
    find_idx(users, by_user_id(id))
}

/// The index of the user row with the given username, or -1.
pub open spec fn user_idx_by_name(users: Seq<User>, name: Seq<char>) -> int {
    find_idx(users, by_username(name))
}

/// The index of the project row with the given id, or -1.
pub open spec fn project_idx(projects: Seq<Project>, id: i64) -> int {
    find_idx(projects, by_project_id(id))
}

/// The index of the task row with the given id, or -1.
pub open spec fn task_idx(tasks: Seq<Task>, id: i64) -> int {
    find_idx(tasks, by_task_id(id))
}

/// Two store values hold the same tables and the same next ids: how the
/// contracts say "nothing changed".
pub open spec fn store_unchanged(a: Store, b: Store) -> bool {
    &&& a.users@ == b.users@
    &&& a.projects@ == b.projects@
    &&& a.tasks@ == b.tasks@
    &&& a.next_user_id == b.next_user_id
    &&& a.next_project_id == b.next_project_id
    &&& a.next_task_id == b.next_task_id
}

/// The three tables of the tracker plus the next free id of each.
pub struct Store {
    pub users: Vec<User>,
    pub projects: Vec<Project>,
    pub tasks: Vec<Task>,
    pub next_user_id: i64,
    pub next_project_id: i64,
    pub next_task_id: i64,
}

impl Store {
    /// The `users` table's constraints: ids positive, unique and below the
    /// next free id; usernames unique.
    pub open spec fn users_wf(self) -> bool {
        &&& 1 <= self.next_user_id
        &&& forall|i: int|
            0 <= i < self.users@.len() ==> 1 <= (#[trigger] self.users@[i]).id
                < self.next_user_id
        &&& forall|i: int, j: int|
            0 <= i < j < self.users@.len() ==> (#[trigger] self.users@[i]).id
                != (#[trigger] self.users@[j]).id
        &&& forall|i: int, j: int|
            0 <= i < j < self.users@.len() ==> (#[trigger] self.users@[i]).username@
                != (#[trigger] self.users@[j]).username@
    }

    /// The `projects` table's constraints: ids positive, unique and below
    /// the next free id.
    pub open spec fn projects_wf(self) -> bool {
        &&& 1 <= self.next_project_id
        &&& forall|i: int|
            0 <= i < self.projects@.len() ==> 1 <= (#[trigger] self.projects@[i]).id
                < self.next_project_id
        &&& forall|i: int, j: int|
            0 <= i < j < self.projects@.len() ==> (#[trigger] self.projects@[i]).id
                != (#[trigger] self.projects@[j]).id
    }

    /// The `tasks` table's constraints: ids positive, unique and below the
    /// next free id, and every task's parent project exists.
    pub open spec fn tasks_wf(self) -> bool {
        &&& 1 <= self.next_task_id
        &&& forall|i: int|
            0 <= i < self.tasks@.len() ==> 1 <= (#[trigger] self.tasks@[i]).id
                < self.next_task_id
        &&& forall|i: int, j: int|
            0 <= i < j < self.tasks@.len() ==> (#[trigger] self.tasks@[i]).id
                != (#[trigger] self.tasks@[j]).id
        &&& forall|i: int|
            0 <= i < self.tasks@.len() ==> project_idx(
                self.projects@,
                (#[trigger] self.tasks@[i]).project_id,
            ) >= 0
    }

    /// The schema's invariants, assumed and preserved by every operation.
    pub open spec fn wf(self) -> bool {
        &&& self.users_wf()
        &&& self.projects_wf()
        &&& self.tasks_wf()
    }

    /// An empty store, ids starting at 1.
    pub fn new() -> (s: Store)
        ensures
            s.wf(),
            s.users@.len() == 0,
            s.projects@.len() == 0,
            s.tasks@.len() == 0,
            s.next_user_id == 1,
            s.next_project_id == 1,
            s.next_task_id == 1,
    {
        Store {
            users: Vec::new(),
            projects: Vec::new(),
            tasks: Vec::new(),
            next_user_id: 1,
            next_project_id: 1,
            next_task_id: 1,
        }
    }

    /// The index of the user row with the given id, if any.
    pub fn find_user_by_id(&self, id: i64) -> (r: Option<usize>)
        ensures
            match r {
                Option::Some(i) => user_idx_by_id(self.users@, id) == i && i < self.users@.len()
                    && self.users@[i as int].id == id,
                Option::None => user_idx_by_id(self.users@, id) == -1,
            },
    {
        let n = self.users.len();
        let mut i: usize = 0;
        while i < n
            invariant
                n == self.users@.len(),
                i <= n,
                forall|j: int| 0 <= j < i ==> (#[trigger] self.users@[j]).id != id,
            decreases n - i,
        {
            if self.users[i].id == id {
                proof {
                    lemma_find_idx_at(self.users@, by_user_id(id), i as int);
                }
                return Option::Some(i);
            }
            i += 1;
        }
        proof {
            lemma_find_idx_none(self.users@, by_user_id(id));
        }
        Option::None
    }

    /// The index of the user row with the given username, if any.
    pub fn find_user_by_name(&self, name: &str) -> (r: Option<usize>)
        ensures
            match r {
                Option::Some(i) => user_idx_by_name(self.users@, name@) == i && i
                    < self.users@.len() && self.users@[i as int].username@ == name@,
                Option::None => user_idx_by_name(self.users@, name@) == -1,
            },
    {
        let n = self.users.len();
        let mut i: usize = 0;
        while i < n
            invariant
                n == self.users@.len(),
                i <= n,
                forall|j: int| 0 <= j < i ==> (#[trigger] self.users@[j]).username@ != name@,
            decreases n - i,
        {
            if crate::text::str_eq(self.users[i].username.as_str(), name) {
                proof {
                    lemma_find_idx_at(self.users@, by_username(name@), i as int);
                }
                return Option::Some(i);
            }
            i += 1;
        }
        proof {
            lemma_find_idx_none(self.users@, by_username(name@));
        }
        Option::None
    }

    /// The index of the project row with the given id, if any.
    pub fn find_project(&self, id: i64) -> (r: Option<usize>)
        ensures
            match r {
                Option::Some(i) => project_idx(self.projects@, id) == i && i
                    < self.projects@.len() && self.projects@[i as int].id == id,
                Option::None => project_idx(self.projects@, id) == -1,
            },
    {
        let n = self.projects.len();
        let mut i: usize = 0;
        while i < n
            invariant
                n == self.projects@.len(),
                i <= n,
                forall|j: int| 0 <= j < i ==> (#[trigger] self.projects@[j]).id != id,
            decreases n - i,
        {
            if self.projects[i].id == id {
                proof {
                    lemma_find_idx_at(self.projects@, by_project_id(id), i as int);
                }
                return Option::Some(i);
            }
            i += 1;
        }
        proof {
            lemma_find_idx_none(self.projects@, by_project_id(id));
        }
        Option::None
    }

    /// The index of the task row with the given id, if any.
    pub fn find_task(&self, id: i64) -> (r: Option<usize>)
        ensures
            match r {
                Option::Some(i) => task_idx(self.tasks@, id) == i && i < self.tasks@.len()
                    && self.tasks@[i as int].id == id,
                Option::None => task_idx(self.tasks@, id) == -1,
            },
    {
        let n = self.tasks.len();
        let mut i: usize = 0;
        while i < n
            invariant
                n == self.tasks@.len(),
                i <= n,
                forall|j: int| 0 <= j < i ==> (#[trigger] self.tasks@[j]).id != id,
            decreases n - i,
        {
            if self.tasks[i].id == id {
                proof {
                    lemma_find_idx_at(self.tasks@, by_task_id(id), i as int);
                }
                return Option::Some(i);
            }
            i += 1;
        }
        proof {
            lemma_find_idx_none(self.tasks@, by_task_id(id));
        }
        Option::None
    }
}

/// A username that the lookup finds marks a row carrying it; one it does
/// not find occurs nowhere: how callers reason about lookups after the
/// store changed.
pub proof fn lemma_username_lookup(users: Seq<User>, name: Seq<char>)
    ensures
        user_idx_by_name(users, name) >= 0 ==> user_idx_by_name(users, name) < users.len()
            && users[user_idx_by_name(users, name)].username@ == name,
        user_idx_by_name(users, name) < 0 ==> user_idx_by_name(users, name) == -1 && (forall|
            j: int,
        |
            0 <= j < users.len() ==> (#[trigger] users[j]).username@ != name),
{
    lemma_find_idx(users, by_username(name));
}

} // verus!

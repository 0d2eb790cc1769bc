//! User rows, the request/response shapes of the user endpoints, and the
//! user operations themselves.
//!
//! These endpoints manage accounts by id. Deleting an account here is what
//! makes the middleware's per-request reload observable: the next request
//! bearing a still-valid token for the deleted id fails, because the
//! subject no longer resolves to a credential row.

use vstd::prelude::*;
use crate::errors::Error;
use crate::lookup::lemma_find_idx;
use crate::store::{
    by_username, store_unchanged, user_idx_by_id, user_idx_by_name, Store,
};

verus! {

/// A row of the `users` table: the stored credential.
///
/// `username` is unique across the table. `password` holds the salted
/// password hash, or nothing for an account created without one; a login
/// against such an account verifies against the empty string and fails
/// before any password comparison, because the empty string is not a
/// well-formed hash.
#[derive(Debug, Clone)]
pub struct User {
    pub id: i64,
    pub username: String,
    pub password: Option<String>,
}

impl User {
    /// The string a login verifies the password against: the stored hash,
    /// or the empty string where the column is empty.
    pub open spec fn spec_hash_or_empty(self) -> Seq<char> {
        match self.password {
            Option::Some(h) => h@,
            Option::None => Seq::empty(),
        }
    }
}

/// The shape user listings return: id and username, never the hash.
#[derive(Debug, Clone)]
pub struct UserForList {
    pub id: i64,
    pub username: String,
}

/// Body of a user-update request.
#[derive(Debug, Clone)]
pub struct UpdateUserPayload {
    pub username: String,
}

/// The mathematical content of a listing row.
pub ghost struct UserForListView {
    pub id: int,
    pub username: Seq<char>,
}

impl View for UserForList {
    type V = UserForListView;

    open spec fn view(&self) -> UserForListView {
        UserForListView { id: self.id as int, username: self.username@ }
    }
}

impl DeepView for UserForList {
    type V = UserForListView;

    open spec fn deep_view(&self) -> UserForListView {
        self.view()
    }
}

/// The listing rows of the whole `users` table, in stored order: id and
/// username of every account, hashes withheld.
pub open spec fn users_for_list(users: Seq<User>) -> Seq<UserForListView> {
    Seq::new(
        users.len(),
        |i: int| UserForListView { id: users[i].id as int, username: users[i].username@ },
    )
}

/// Whether renaming the user at index `i` to `name` would collide with a
/// different row's username.
pub open spec fn spec_username_conflict(users: Seq<User>, i: int, name: Seq<char>) -> bool {
    let j = user_idx_by_name(users, name);
    j >= 0 && j != i
}

/// List every account's id and username.
pub fn list_users(store: &Store) -> (r: Vec<UserForList>)
    ensures
        r.deep_view() == users_for_list(store.users@),
{
    let n = store.users.len();
    let mut out: Vec<UserForList> = Vec::new();
    let mut i: usize = 0;
    while i < n
        invariant
            i <= n,
            n == store.users@.len(),
            out@.len() == i,
            forall|j: int|
                0 <= j < i ==> (#[trigger] out@[j])@ == users_for_list(store.users@)[j],
        decreases n - i,
    {
        let u = &store.users[i];
        out.push(UserForList { id: u.id, username: u.username.clone() });
        i += 1;
    }
    proof {
        assert forall|j: int|
            0 <= j < out.deep_view().len() implies #[trigger] out.deep_view()[j] == users_for_list(
            store.users@,
        )[j] by {
            assert(out.deep_view()[j] == out@[j]@);
        }
        assert(out.deep_view() =~= users_for_list(store.users@));
    }
    out
}

/// Read one account by id: its id and username ([`Error::UserNotFound`]
/// where the id is unknown). The hash column is never returned.
pub fn get_user(store: &Store, user_id: i64) -> (r: Result<User, Error>)
    ensures
        user_idx_by_id(store.users@, user_id) < 0 ==> r == Err::<User, Error>(Error::UserNotFound),
        user_idx_by_id(store.users@, user_id) >= 0 ==> ({
            let row = store.users@[user_idx_by_id(store.users@, user_id)];
            &&& r matches Ok(u)
            &&& u.id == row.id
            &&& u.username@ == row.username@
            &&& u.password is None
        }),
{
    match store.find_user_by_id(user_id) {
        Option::None => Err(Error::UserNotFound),
        Option::Some(i) => {
            let row = &store.users[i];
            Ok(User { id: row.id, username: row.username.clone(), password: Option::None })
        },
    }
}

/// Rename an account. An unknown id fails with [`Error::UserNotFound`];
/// a username already carried by a *different* row violates the table's
/// uniqueness and surfaces as [`Error::DbError`]; both leave the store
/// untouched. On success only the one row's username changes — id and
/// stored hash stay — and the reply carries id and new username, no hash.
pub fn update_user(store: &mut Store, user_id: i64, payload: UpdateUserPayload) -> (r: Result<
    User,
    Error,
>)
    requires
        old(store).wf(),
    ensures
        final(store).wf(),
        user_idx_by_id(old(store).users@, user_id) < 0 ==> r == Err::<User, Error>(
            Error::UserNotFound,
        ) && store_unchanged(*final(store), *old(store)),
        user_idx_by_id(old(store).users@, user_id) >= 0 && spec_username_conflict(
            old(store).users@,
            user_idx_by_id(old(store).users@, user_id),
            payload.username@,
        ) ==> r == Err::<User, Error>(Error::DbError) && store_unchanged(
            *final(store),
            *old(store),
        ),
        user_idx_by_id(old(store).users@, user_id) >= 0 && !spec_username_conflict(
            old(store).users@,
            user_idx_by_id(old(store).users@, user_id),
            payload.username@,
        ) ==> ({
            let i = user_idx_by_id(old(store).users@, user_id);
            &&& final(store).users@.len() == old(store).users@.len()
            &&& forall|j: int|
                0 <= j < old(store).users@.len() && j != i ==> final(store).users@[j] == old(
                    store,
                ).users@[j]
            &&& final(store).users@[i].id == old(store).users@[i].id
            &&& final(store).users@[i].username@ == payload.username@
            &&& final(store).users@[i].password == old(store).users@[i].password
            &&& r matches Ok(u) && u.id == user_id && u.username@ == payload.username@
                && u.password is None
            &&& final(store).projects@ == old(store).projects@
            &&& final(store).tasks@ == old(store).tasks@
            &&& final(store).next_user_id == old(store).next_user_id
            &&& final(store).next_project_id == old(store).next_project_id
            &&& final(store).next_task_id == old(store).next_task_id
        }),
{
    let i = match store.find_user_by_id(user_id) {
        Option::None => {
            return Err(Error::UserNotFound);
        },
        Option::Some(i) => i,
    };
    match store.find_user_by_name(payload.username.as_str()) {
        Option::Some(j) => {
            if j != i {
                return Err(Error::DbError);
            }
        },
        Option::None => {},
    }
    let reply = User { id: user_id, username: payload.username.clone(), password: Option::None };
    store.users[i].username = payload.username;
    proof {
        let us0 = old(store).users@;
        let us1 = store.users@;
        lemma_find_idx(us0, by_username(us1[i as int].username@));
        assert forall|a: int| 0 <= a < us1.len() implies 1 <= (#[trigger] us1[a]).id
            < store.next_user_id by {
            if a != i {
                assert(us1[a] == us0[a]);
            }
        }
        assert forall|a: int, b: int| 0 <= a < b < us1.len() implies (#[trigger] us1[a]).id != (
        #[trigger] us1[b]).id by {
            assert(us1[a].id == us0[a].id && us1[b].id == us0[b].id);
        }
        assert forall|a: int, b: int| 0 <= a < b < us1.len() implies (#[trigger] us1[a]).username@
            != (#[trigger] us1[b]).username@ by {
            if a != i && b != i {
                assert(us1[a] == us0[a] && us1[b] == us0[b]);
            } else {
                let other: int = if a == i {
                    b
                } else {
                    a
                };
                assert(us1[other] == us0[other]);
                if user_idx_by_name(us0, us1[i as int].username@) >= 0 {
                    assert(us0[user_idx_by_name(us0, us1[i as int].username@)].username@ == us1[i
                        as int].username@);
                }
            }
        }
    }
    Ok(reply)
}

/// Delete an account by id: the one row disappears, everything else —
/// including any projects it owned — stays. An unknown id affects zero
/// rows and fails with [`Error::UserNotFound`].
pub fn delete_user(store: &mut Store, user_id: i64) -> (r: Result<(), Error>)
    requires
        old(store).wf(),
    ensures
        final(store).wf(),
        user_idx_by_id(old(store).users@, user_id) < 0 ==> r == Err::<(), Error>(
            Error::UserNotFound,
        ) && store_unchanged(*final(store), *old(store)),
        user_idx_by_id(old(store).users@, user_id) >= 0 ==> ({
            let i = user_idx_by_id(old(store).users@, user_id);
            &&& r == Ok::<(), Error>(())
            &&& final(store).users@ == old(store).users@.remove(i)
            &&& final(store).projects@ == old(store).projects@
            &&& final(store).tasks@ == old(store).tasks@
            &&& final(store).next_user_id == old(store).next_user_id
            &&& final(store).next_project_id == old(store).next_project_id
            &&& final(store).next_task_id == old(store).next_task_id
        }),
{
    let i = match store.find_user_by_id(user_id) {
        Option::None => {
            return Err(Error::UserNotFound);
        },
        Option::Some(i) => i,
    };
    store.users.remove(i);
    proof {
        let us0 = old(store).users@;
        let us1 = store.users@;
        assert forall|a: int| 0 <= a < us1.len() implies 1 <= (#[trigger] us1[a]).id
            < store.next_user_id by {
            let a0: int = if a < i as int {
                a
            } else {
                a + 1
            };
            assert(us1[a] == us0[a0]);
        }
        assert forall|a: int, b: int| 0 <= a < b < us1.len() implies (#[trigger] us1[a]).id != (
        #[trigger] us1[b]).id && (#[trigger] us1[a]).username@ != (
        #[trigger] us1[b]).username@ by {
            let a0: int = if a < i as int {
                a
            } else {
                a + 1
            };
            let b0: int = if b < i as int {
                b
            } else {
                b + 1
            };
            assert(us1[a] == us0[a0] && us1[b] == us0[b0]);
        }
    }
    Ok(())
}

} // verus!

//! The security laws of the tracker, stated over the same spec functions
//! the operations' contracts use, and proved once and for all.
//!
//! Each proof function here relates several operations: what registering
//! promises a later login, what the middleware rejects whatever else
//! holds, and what one principal can never do to another's rows. Laws that
//! concern a single operation — a task creation against a foreign project
//! is rejected with the store untouched, a foreign mutation affects zero
//! rows — are the `ensures` of that operation itself.

use vstd::prelude::*;
use crate::auth::{is_password_hash, password_matches, spec_login};
use crate::errors::Error;
use crate::lookup::{lemma_find_idx, lemma_find_idx_at, lemma_find_idx_none};
use crate::mw_auth::{by_subject, spec_authenticate, spec_bearer_token};
use crate::project::{spec_can_mutate_project, spec_get_project, ProjectView};
use crate::store::{
    by_project_id, by_user_id, by_username, project_idx, user_idx_by_id, user_idx_by_name,
};
use crate::token::decoded_claims;
use crate::project::Project;
use crate::user::User;

verus! {

/// A credential registered once authenticates: after registration appends
/// the row `u` for a previously unknown `username`, a login with the very
/// pair that was registered resolves to `u.id` — so by
/// [`crate::auth::login`]'s contract that login returns a token whose
/// claims carry exactly that id.
pub proof fn lemma_register_then_login(
    users0: Seq<User>,
    users1: Seq<User>,
    u: User,
    username: Seq<char>,
    password: Seq<char>,
)
    requires
        user_idx_by_name(users0, username) < 0,
        users1 == users0.push(u),
        u.username@ == username,
        u.password matches Some(h) && is_password_hash(h@) && password_matches(password, h@),
    ensures
        spec_login(users1, username, password) == Ok::<i64, Error>(u.id),
{
    lemma_find_idx(users0, by_username(username));
    assert forall|j: int| 0 <= j < users0.len() implies !(by_username(username)(
        #[trigger] users1[j],
    )) by {
        assert(users1[j] == users0[j]);
    }
    assert(users1[users0.len() as int] == u);
    lemma_find_idx_at(users1, by_username(username), users0.len() as int);
}

/// No username enumeration: a login with an unknown username and a login
/// with a wrong password against an existing, well-formed credential
/// produce the *identical* result — the same [`Error::LoginFail`], with no
/// distinguishing signal.
pub proof fn lemma_login_failures_identical(
    users: Seq<User>,
    unknown_name: Seq<char>,
    known_name: Seq<char>,
    wrong_password: Seq<char>,
)
    requires
        user_idx_by_name(users, unknown_name) < 0,
        ({
            let i = user_idx_by_name(users, known_name);
            &&& i >= 0
            &&& is_password_hash(users[i].spec_hash_or_empty())
            &&& !password_matches(wrong_password, users[i].spec_hash_or_empty())
        }),
    ensures
        spec_login(users, unknown_name, wrong_password) == spec_login(
            users,
            known_name,
            wrong_password,
        ),
        spec_login(users, unknown_name, wrong_password) == Err::<i64, Error>(Error::LoginFail),
{
}

/// An expired token is rejected whatever else holds of it: even a header
/// that parses and a signature that verifies cannot authenticate a request
/// once the token's `exp` is not in the future.
pub proof fn lemma_expired_token_rejected(
    users: Seq<User>,
    header: Option<Seq<char>>,
    secret: Seq<char>,
    now: int,
)
    requires
        ({
            &&& header matches Some(h)
            &&& spec_bearer_token(h) matches Some(tok)
            &&& decoded_claims(tok, secret) matches Some(claims)
            &&& claims.1 <= now
        }),
    ensures
        spec_authenticate(users, header, secret, now) == Err::<User, Error>(Error::AuthFail),
{
}

/// A deleted account loses access at once: after the row with `user_id`
/// is removed, any request whose token names that id as its subject is
/// rejected — however valid the token's signature and expiry — because
/// the middleware reloads the principal on every request.
pub proof fn lemma_deleted_user_rejected(
    users0: Seq<User>,
    users1: Seq<User>,
    user_id: i64,
    header: Option<Seq<char>>,
    secret: Seq<char>,
    now: int,
)
    requires
        forall|a: int, b: int|
            0 <= a < b < users0.len() ==> (#[trigger] users0[a]).id != (#[trigger] users0[b]).id,
        user_idx_by_id(users0, user_id) >= 0,
        users1 == users0.remove(user_idx_by_id(users0, user_id)),
        ({
            &&& header matches Some(h)
            &&& spec_bearer_token(h) matches Some(tok)
            &&& decoded_claims(tok, secret) matches Some(claims)
            &&& claims.0 == user_id as int
        }),
    ensures
        spec_authenticate(users1, header, secret, now) == Err::<User, Error>(Error::AuthFail),
{
    let i = user_idx_by_id(users0, user_id);
    lemma_find_idx(users0, by_user_id(user_id));
    assert forall|j: int| 0 <= j < users1.len() implies !(by_subject(user_id as int)(
        #[trigger] users1[j],
    )) by {
        let j0: int = if j < i {
            j
        } else {
            j + 1
        };
        assert(users1[j] == users0[j0]);
    }
    lemma_find_idx_none(users1, by_subject(user_id as int));
}

/// Ownership isolates principals: a project owned by `p1` is, for any
/// other principal `p2`, readable only as [`Error::ProjectUnauthorized`]
/// (the row exists, so the read path passes its existence check and fails
/// its ownership check), and matches no mutation by `p2` at all — so
/// [`crate::project::update_project`] and [`crate::project::delete_project`]
/// affect zero rows and return [`Error::ProjectUnauthorized`], by their
/// contracts.
pub proof fn lemma_foreign_project_protected(projects: Seq<Project>, p1: i64, p2: i64, i: int)
    requires
        p1 != p2,
        forall|a: int, b: int|
            0 <= a < b < projects.len() ==> (#[trigger] projects[a]).id != (
            #[trigger] projects[b]).id,
        0 <= i < projects.len(),
        projects[i].user_id == p1,
    ensures
        spec_get_project(projects, p2, projects[i].id) == Err::<ProjectView, Error>(
            Error::ProjectUnauthorized,
        ),
        !spec_can_mutate_project(projects, p2, projects[i].id),
{
    let pid = projects[i].id;
    lemma_find_idx(projects, by_project_id(pid));
    let a = project_idx(projects, pid);
    assert(projects[a].id == pid);
    assert(a == i);
}

} // verus!

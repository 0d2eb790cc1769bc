//! The error taxonomy of the tracker and its mapping to HTTP status codes
//! and client-visible messages.
//!
//! Authentication failures are deliberately coarse: a login with an unknown
//! username and a login with a wrong password both surface as [`Error::LoginFail`],
//! so the response gives no signal that would let a client enumerate
//! usernames. Database and hashing failures are collapsed into generic
//! variants whose messages withhold any internal detail.

use vstd::prelude::*;

verus! {

/// Everything a request handler can fail with.
#[derive(Debug, Clone, Copy, PartialEq, Eq, Structural)]
pub enum Error {
    /// Bad credentials at login: unknown username or wrong password.
    LoginFail,
    /// Missing, malformed, expired or forged bearer token, or a principal
    /// that no longer exists; also a signing failure while minting a token.
    AuthFail,
    /// A store constraint was violated (for instance a duplicate username);
    /// surfaced as a generic database error.
    DbError,
    /// Single-project read: no project has the requested id.
    ProjectNotFound,
    /// Ownership mismatch on a project, or a mutation that matched no
    /// owned project.
    ProjectUnauthorized,
    /// Single-task read: no task has the requested id.
    TaskNotFound,
    /// Ownership mismatch on a task read, or a task mutation that matched
    /// no task owned by the caller.
    TaskUnauthorized,
    /// No user has the requested id.
    UserNotFound,
    /// An internal failure (for instance password hashing); detail withheld.
    Internal,
}

impl Error {
    /// The HTTP status code this error is reported with.
    pub open spec fn spec_status_code(self) -> u16 {
        match self {
            Error::LoginFail => 401,
            Error::AuthFail => 401,
            Error::DbError => 500,
            Error::ProjectNotFound => 404,
            Error::ProjectUnauthorized => 403,
            Error::TaskNotFound => 404,
            Error::TaskUnauthorized => 403,
            Error::UserNotFound => 404,
            Error::Internal => 500,
        }
    }

    /// The client-visible message of the JSON error envelope.
    pub open spec fn spec_message(self) -> Seq<char> {
        match self {
            Error::LoginFail => "Login failed"@,
            Error::AuthFail => "Authentication failed"@,
            Error::DbError => "Database error"@,
            Error::ProjectNotFound => "Project not found"@,
            Error::ProjectUnauthorized => "Forbidden access to project"@,
            Error::TaskNotFound => "Task not found"@,
            Error::TaskUnauthorized => "Forbidden access to task"@,
            Error::UserNotFound => "User not found"@,
            Error::Internal => "Internal server error"@,
        }
    }

    pub fn status_code(&self) -> (code: u16)
        ensures
            code == self.spec_status_code(),
    {
        match self {
            Error::LoginFail => 401,
            Error::AuthFail => 401,
            Error::DbError => 500,
            Error::ProjectNotFound => 404,
            Error::ProjectUnauthorized => 403,
            Error::TaskNotFound => 404,
            Error::TaskUnauthorized => 403,
            Error::UserNotFound => 404,
            Error::Internal => 500,
        }
    }

    pub fn message(&self) -> (msg: String)
        ensures
            msg@ == self.spec_message(),
    {
        match self {
            Error::LoginFail => "Login failed".to_owned(),
            Error::AuthFail => "Authentication failed".to_owned(),
            Error::DbError => "Database error".to_owned(),
            Error::ProjectNotFound => "Project not found".to_owned(),
            Error::ProjectUnauthorized => "Forbidden access to project".to_owned(),
            Error::TaskNotFound => "Task not found".to_owned(),
            Error::TaskUnauthorized => "Forbidden access to task".to_owned(),
            Error::UserNotFound => "User not found".to_owned(),
            Error::Internal => "Internal server error".to_owned(),
        }
    }
}

} // verus!

//! A multi-tenant task/project tracker: credential issuing, bearer-token
//! authentication, ownership-scoped authorization over projects and the
//! tasks nested under them, and pagination for list endpoints.
//!
//! The persistent state is modelled by [`store::Store`], an in-memory image
//! of the three tables (`users`, `projects`, `tasks`) with the schema's
//! invariants stated in [`store::Store::wf`]. Every request handler's
//! decision logic is a function on that state with a full contract; the
//! HTTP plumbing and the clock live outside this crate and hand in plain
//! values.

pub mod auth;
pub mod errors;
pub mod laws;
pub mod lookup;
pub mod mw_auth;
pub mod pagination;
pub mod project;
pub mod store;
pub mod task;
pub mod text;
pub mod token;
pub mod user;

//! A dual-store persistence core for a developer-productivity tool.
//!
//! Named shell commands, key/value variables, projects, tasks and an auth
//! token are kept in a local in-memory document store (persisted by the
//! surrounding application as one JSON file) and mirrored, best effort, to a
//! remote service.  Every repository operation mutates or queries the local
//! store here and, where the policy calls for it, hands back a description of
//! the single remote POST the application should perform.

pub mod api_client;
pub mod auth;
pub mod cli;
pub mod command;
pub mod date;
pub mod flowlet_db;
pub mod json;
pub mod project;
pub mod query;
pub mod task;
pub mod util;
pub mod variable;

use vstd::prelude::*;

verus! {

} // verus!

//! The encrypted runtime cache used by `dopbase run` when the server is not
//! reachable, and the `dopbase cache` commands that inspect and clean it.

pub mod args;
pub mod handler;
pub mod store;

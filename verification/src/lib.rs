//! Verified core of the Dopbase command-line client: text rendering, the
//! encrypted runtime cache, runtime validation and command decisions.

pub mod api;
pub mod args;
pub mod client;
pub mod commands;
pub mod crypto;
pub mod models;
pub mod order;
pub mod paths;
pub mod text;

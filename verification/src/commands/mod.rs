//! Command modules: each keeps the decisions and the rendering of one
//! command family.

pub mod admin;
pub mod auth;
pub mod cache;
pub mod client;
pub mod environment;
pub mod init;
pub mod output;
pub mod prompt;
pub mod run;
pub mod secret;
pub mod server;
pub mod transfer;

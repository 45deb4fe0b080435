//! `dopbase run`: which environment a run uses, where its secrets come from
//! and what it reports before starting the child.

pub mod cache;
pub mod handler;

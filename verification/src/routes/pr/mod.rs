//! The routes for pull requests of a workspace.
//!
//! Each route is a run: it holds what is known so far, and names what is to be
//! done or looked up next. Whoever drives it does that, fills in the fact and
//! asks again, until the run is over.

pub mod attach;
pub mod comments;
pub mod common;
pub mod create;
pub mod description;
pub mod from_pr;

//! Verified core of a kanban board for coding agents: native session
//! histories, the PI RPC protocol, execution plans, git hosts and the
//! pull-request workflows built on them.

pub mod claude;
pub mod codex;
pub mod entries;
pub mod exec_plans;
pub mod git_host;
pub mod history;
pub mod json;
pub mod native_history;
pub mod pi;
pub mod replay;
pub mod routes;
pub mod sorting;
pub mod text;
pub mod tool_slots;

//! The Codex agent.

pub mod history;

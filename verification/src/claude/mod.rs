//! The `ClaudeCode` agent.

pub mod history;

//! Git hosting providers.

pub mod detection;
pub mod redaction;
pub mod types;
pub mod gitee;
pub mod gitee_cli;

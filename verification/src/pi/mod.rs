//! The PI agent: its RPC protocol, live output and persisted sessions.

pub mod normalize_logs;
pub mod history;
pub mod rpc;
pub mod executor;

//! What the server's routes decide.

pub mod conversation_history;
pub mod frontend;
pub mod pr;

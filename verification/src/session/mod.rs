//! Multi-turn conversation sessions.

pub mod manager;

pub use manager::{ChatMessage, Role, Session, SessionManager};

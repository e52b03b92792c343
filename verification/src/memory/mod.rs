//! Short-term and long-term memory of the assistant.

pub mod store;

pub use store::{ConversationSummary, LongTermMemory, MemoryEntry, MemoryStore, ShortTermMemory, UserProfile};

//! Handling of the language model's replies.

pub mod agent;
pub mod response;

pub use response::ResponseSegmenter;

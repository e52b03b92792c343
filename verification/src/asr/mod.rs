//! Streaming speech recognition.

pub mod recognizer;

pub use recognizer::{AsrEvent, AsrRecognizerBuilder};

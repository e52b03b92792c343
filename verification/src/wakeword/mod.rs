//! Wake word detection.

pub mod detector;

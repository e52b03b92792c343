//! A voice assistant's core logic: reply segmentation for speech output,
//! conversation sessions, assistant memory, tool configuration, model
//! bookkeeping and the interaction state machine.

pub mod text;
pub mod keyed;
pub mod decimal;
pub mod llm;
pub mod tts;
pub mod session;
pub mod memory;
pub mod model_manager;
pub mod tools;
pub mod asr;
pub mod wakeword;
pub mod config;
pub mod app;
pub mod audio;

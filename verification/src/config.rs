//! Settings of the assistant's parts (those without tuning numbers; the
//! language model, wake word and synthesis settings live with the
//! program).

use vstd::prelude::*;

verus! {

/// Where the speech recognition model is and how it runs.
#[derive(Debug)]
pub struct AsrConfig {
    pub encoder: String,
    pub decoder: String,
    pub joiner: String,
    pub tokens: String,
    /// Execution provider (`cpu`, `cuda`, ...).
    pub provider: String,
    /// Samples per streaming chunk.
    pub chunk_size: usize,
    pub sample_rate: i32,
}

impl Default for AsrConfig {
    fn default() -> (c: Self)
        ensures
            c.encoder@ == "./models/asr/encoder.onnx"@,
            c.decoder@ == "./models/asr/decoder.onnx"@,
            c.joiner@ == "./models/asr/joiner.onnx"@,
            c.tokens@ == "./models/asr/tokens.txt"@,
            c.provider@ == "cpu"@,
            c.chunk_size == 3200,
            c.sample_rate == 16000,
    {
        AsrConfig {
            encoder: String::from_str("./models/asr/encoder.onnx"),
            decoder: String::from_str("./models/asr/decoder.onnx"),
            joiner: String::from_str("./models/asr/joiner.onnx"),
            tokens: String::from_str("./models/asr/tokens.txt"),
            provider: String::from_str("cpu"),
            chunk_size: 3200,
            sample_rate: 16000,
        }
    }
}

/// Which tools are offered.
#[derive(Debug)]
pub struct ToolsConfig {
    /// Path of the tool servers' configuration file.
    pub mcp_config: Option<String>,
    /// Whether the built-in tools are offered.
    pub enable_builtin: bool,
}

impl Default for ToolsConfig {
    fn default() -> (c: Self)
        ensures
            c.mcp_config is None,
            c.enable_builtin,
    {
        ToolsConfig { mcp_config: None, enable_builtin: true }
    }
}

/// How conversations are kept.
#[derive(Debug)]
pub struct SessionConfig {
    /// How many messages are kept in context.
    pub max_history: usize,
    pub storage_path: String,
}

impl Default for SessionConfig {
    fn default() -> (c: Self)
        ensures
            c.max_history == 20,
            c.storage_path@ == "./data/sessions"@,
    {
        SessionConfig { max_history: 20, storage_path: String::from_str("./data/sessions") }
    }
}

/// Settings of the program as a whole.
#[derive(Debug)]
pub struct AppSettings {
    pub name: String,
    pub default_persona: String,
    /// Listen without waiting for the wake word.
    pub continuous_mode: bool,
}

impl Default for AppSettings {
    fn default() -> (c: Self)
        ensures
            c.name@ == "Chat Assistant"@,
            c.default_persona@ == "assistant"@,
            !c.continuous_mode,
    {
        AppSettings {
            name: String::from_str("Chat Assistant"),
            default_persona: String::from_str("assistant"),
            continuous_mode: false,
        }
    }
}

} // verus!

//! Tools the assistant can use: the built-in ones and those of tool
//! servers speaking the Model Context Protocol.

pub mod builtin;
pub mod json;
pub mod mcp;

pub use json::JsonValue;
pub use mcp::{McpConfig, McpError, McpServerConfig, McpTool, McpToolLoader};

//! Verified core of an AI search MCP server: configuration, request
//! planning, response decoding and access decisions.

pub mod text;
pub mod number;
pub mod error;
pub mod error_codes;
pub mod config_file;
pub mod config;
pub mod chat;
pub mod client;
pub mod mcp;
pub mod models;
pub mod middleware;
pub mod sse;
pub mod session;
pub mod daemon;
pub mod config_ui;
pub mod time_format;

//! Web search over an MCP backend.
pub mod available_models;
pub mod cache_sim;
pub mod clock;
pub mod endpoint;
pub mod json;
pub mod random;
pub mod sse;
pub mod text;
pub mod types;
pub mod websearch;

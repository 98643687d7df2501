//! The web search tool: from a messages request to a search, and from its results to a reply.
pub mod base64;
pub mod content;
pub mod flow;
pub mod mcp;
pub mod page_age;
pub mod prompt;
pub mod query;
pub mod reply;
pub mod response;
pub mod summary;

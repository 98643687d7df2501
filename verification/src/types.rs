//! The messages request.
use vstd::prelude::*;

use crate::json::{Json, JsonObject};

verus! {

/// One message of a conversation.
#[derive(Debug)]
pub struct Message {
    /// Who speaks: `user` or `assistant`.
    pub role: String,
    /// A string, or an array of content blocks.
    pub content: Json,
}

/// One block of the system prompt.
#[derive(Debug)]
pub struct SystemMessage {
    /// The text of the block.
    pub text: String,
}

/// A tool that a request offers to the model.
#[derive(Debug)]
pub struct Tool {
    /// The kind of a built-in tool, such as `web_search_20250305`.
    pub tool_type: Option<String>,
    /// The name of the tool.
    pub name: String,
    /// What the tool does.
    pub description: String,
    /// The JSON schema of the tool's input.
    pub input_schema: JsonObject,
    /// How often the tool may be used.
    pub max_uses: Option<i32>,
}

/// A messages request.
#[derive(Debug)]
pub struct MessagesRequest {
    /// The model that is asked for.
    pub model: String,
    /// The largest number of tokens to generate.
    pub max_tokens: i32,
    /// The conversation so far.
    pub messages: Vec<Message>,
    /// Whether the reply is streamed.
    pub stream: bool,
    /// The system prompt.
    pub system: Option<Vec<SystemMessage>>,
    /// The tools on offer.
    pub tools: Option<Vec<Tool>>,
    /// How the model is to choose among the tools.
    pub tool_choice: Option<Json>,
    /// The configuration of extended thinking.
    pub thinking: Option<Json>,
    /// The configuration of the output.
    pub output_config: Option<Json>,
    /// Metadata of the request.
    pub metadata: Option<Json>,
}

} // verus!

//! The models that the upstream service offers, as `GET /ListAvailableModels?origin=AI_EDITOR`
//! lists them.
use vstd::prelude::*;

verus! {

/// The response of `ListAvailableModels`.
#[derive(Debug, Clone)]
pub struct ListAvailableModelsResponse {
    /// The models; none where the response does not name any.
    pub models: Vec<UpstreamModel>,
}

/// One model of the upstream service.
#[derive(Debug, Clone)]
pub struct UpstreamModel {
    /// The identifier by which the model is asked for.
    pub model_id: String,
    /// The name for display.
    pub model_name: Option<String>,
    /// What the model is for.
    pub description: Option<String>,
    /// The limits on its tokens.
    pub token_limits: Option<TokenLimits>,
}

/// The limits on the tokens of a model.
#[derive(Debug, Clone)]
pub struct TokenLimits {
    /// The largest number of input tokens.
    pub max_input_tokens: Option<i64>,
}

} // verus!

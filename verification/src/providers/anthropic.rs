//! Request shape of the Anthropic messages protocol.

use vstd::prelude::*;
use crate::json::{array1, object2, object3, Json, JsonView};
use crate::providers::adapter::{prompt_messages, ChatRequest, ProviderAdapter};

verus! {

/// Number of tokens that a reply may take.
pub const MAX_TOKENS: u64 = 1024;

/// Builds single-prompt requests in the Anthropic shape.
pub struct AnthropicAdapter;

impl ProviderAdapter for AnthropicAdapter {
    /// The model, the prompt as the one user message, and the cap on the
    /// reply's length.
    open spec fn request_body(&self, model: Seq<char>, prompt: Seq<char>) -> JsonView {
        JsonView::Object(
            seq![
                ("model"@, JsonView::Str(model)),
                ("messages"@, prompt_messages(prompt)),
                ("max_tokens"@, JsonView::Unsigned(MAX_TOKENS)),
            ],
        )
    }

    fn build_request(&self, req: &ChatRequest) -> (r: Json) {
        let message = object2(
            "role",
            Json::string("user"),
            "content",
            Json::string(req.prompt.as_str()),
        );
        object3(
            "model",
            Json::string(req.model.as_str()),
            "messages",
            array1(message),
            "max_tokens",
            Json::Unsigned(MAX_TOKENS),
        )
    }
}

} // verus!

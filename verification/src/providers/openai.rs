//! Request shape of the OpenAI chat-completions protocol.

use vstd::prelude::*;
use crate::json::{array1, object2, Json, JsonView};
use crate::providers::adapter::{prompt_messages, ChatRequest, ProviderAdapter};

verus! {

/// Builds single-prompt requests in the OpenAI shape.
pub struct OpenAIAdapter;

impl ProviderAdapter for OpenAIAdapter {
    /// The model and the prompt as the one user message.
    open spec fn request_body(&self, model: Seq<char>, prompt: Seq<char>) -> JsonView {
        JsonView::Object(
            seq![("model"@, JsonView::Str(model)), ("messages"@, prompt_messages(prompt))],
        )
    }

    fn build_request(&self, req: &ChatRequest) -> (r: Json) {
        let message = object2(
            "role",
            Json::string("user"),
            "content",
            Json::string(req.prompt.as_str()),
        );
        object2("model", Json::string(req.model.as_str()), "messages", array1(message))
    }
}

} // verus!

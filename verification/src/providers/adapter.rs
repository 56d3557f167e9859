//! The shape of a single-prompt chat request.

use vstd::prelude::*;
use crate::json::{Json, JsonView};

verus! {

/// One prompt for one model.
pub struct ChatRequest {
    pub model: String,
    pub prompt: String,
}

/// The one-message conversation that carries `prompt` as the user's turn.
pub open spec fn prompt_messages(prompt: Seq<char>) -> JsonView {
    JsonView::Array(
        seq![
            JsonView::Object(
                seq![("role"@, JsonView::Str("user"@)), ("content"@, JsonView::Str(prompt))],
            ),
        ],
    )
}

/// Builds the body of a provider's chat request.
pub trait ProviderAdapter {
    /// The request body that this provider expects for a model and a prompt.
    spec fn request_body(&self, model: Seq<char>, prompt: Seq<char>) -> JsonView;

    /// The request body for `req`.
    fn build_request(&self, req: &ChatRequest) -> (r: Json)
        ensures
            r@ == self.request_body(req.model@, req.prompt@),
    ;
}

} // verus!

//! One turn of the model: the request that opens it and the decoder that
//! reads its reply, for either provider.

use vstd::prelude::*;
use vstd::string::StringExecFns;
use crate::anthropic_stream::{
    ended_calls, ended_content, in_order, AnthropicStream, AnthropicView,
};
use crate::history::{
    anthropic_messages, build_anthropic_messages, build_openai_messages, call_views,
    content_blocks, openai_messages,
};
use crate::json::{json_views, object5, Json, JsonView};
use crate::openai_stream::{finalized, opt_text, OpenAiStream, OpenAiView};
use crate::reply::StreamEnd;
use crate::providers::anthropic::MAX_TOKENS;
use crate::providers::registry::ProviderKind;
use crate::state::{ProviderSettings, SessionState};
use crate::stream::{decode_lossy, lossy_text, stop_event, Fed};
use crate::tool_defs::{anthropic_tool_list, anthropic_tools, openai_tool_list, openai_tools};

verus! {

/// Seconds that a request to a model may take as a whole.
pub const REQUEST_TIMEOUT_SECS: u64 = 120;

/// Where the requests to a provider go unless the session says otherwise.
pub open spec fn default_url(kind: ProviderKind) -> Seq<char> {
    match kind {
        ProviderKind::Anthropic => "https://api.anthropic.com/v1/messages"@,
        ProviderKind::OpenAI => "https://api.openai.com/v1/chat/completions"@,
    }
}

/// The name of a provider in messages.
pub open spec fn provider_name(kind: ProviderKind) -> Seq<char> {
    match kind {
        ProviderKind::Anthropic => "Anthropic"@,
        ProviderKind::OpenAI => "OpenAI"@,
    }
}

/// The body of a request in the OpenAI shape.
pub open spec fn openai_body(model: Seq<char>, messages: Seq<JsonView>) -> JsonView {
    JsonView::Object(
        seq![
            ("model"@, JsonView::Str(model)),
            ("messages"@, JsonView::Array(messages)),
            ("stream"@, JsonView::Bool(true)),
            ("tools"@, JsonView::Array(openai_tool_list())),
            ("tool_choice"@, JsonView::Str("auto"@)),
        ],
    )
}

/// The body of a request in the Anthropic shape.
pub open spec fn anthropic_body(model: Seq<char>, messages: Seq<JsonView>) -> JsonView {
    JsonView::Object(
        seq![
            ("model"@, JsonView::Str(model)),
            ("messages"@, JsonView::Array(messages)),
            ("stream"@, JsonView::Bool(true)),
            ("max_tokens"@, JsonView::Unsigned(MAX_TOKENS)),
            ("tools"@, JsonView::Array(anthropic_tool_list())),
        ],
    )
}

/// The body of the request that opens a turn: the model, the conversation
/// so far in the provider's shape, the tools on offer, and the wish for a
/// streamed reply.
pub open spec fn request_body(
    kind: ProviderKind,
    model: Seq<char>,
    log: Seq<JsonView>,
) -> JsonView {
    match kind {
        ProviderKind::Anthropic => anthropic_body(model, anthropic_messages(log)),
        ProviderKind::OpenAI => openai_body(model, openai_messages(log)),
    }
}

/// The headers that carry the API key `api_key` to a provider, by name and
/// value.
pub open spec fn auth_headers(
    kind: ProviderKind,
    api_key: Seq<char>,
) -> Seq<(Seq<char>, Seq<char>)> {
    match kind {
        ProviderKind::Anthropic => seq![
            ("x-api-key"@, api_key),
            ("anthropic-version"@, "2023-06-01"@),
        ],
        ProviderKind::OpenAI => seq![("Authorization"@, "Bearer "@ + api_key)],
    }
}

/// The views of a list of headers.
pub open spec fn header_views(headers: Seq<(String, String)>) -> Seq<(Seq<char>, Seq<char>)> {
    Seq::new(headers.len(), |i: int| (headers[i].0@, headers[i].1@))
}

/// A request to a model: where it goes, the headers it carries besides
/// those of any JSON request, and its body.
#[derive(Debug, PartialEq)]
pub struct ModelRequest {
    pub url: String,
    pub headers: Vec<(String, String)>,
    pub body: Json,
}

/// The message of a request that the provider turned down with the status
/// `status` and the body `body`.
pub open spec fn refusal(kind: ProviderKind, status: Seq<char>, body: Seq<char>) -> Seq<char> {
    provider_name(kind) + " 请求失败("@ + status + "): "@ + body
}

/// The message of a request that the provider turned down.
pub fn request_failed(kind: ProviderKind, status: &str, body: &str) -> (r: String)
    ensures
        r@ == refusal(kind, status@, body@),
{
    let mut r = match kind {
        ProviderKind::Anthropic => "Anthropic".to_string(),
        ProviderKind::OpenAI => "OpenAI".to_string(),
    };
    r.append(" 请求失败(");
    r.append(status);
    r.append("): ");
    r.append(body);
    r
}

/// The request that opens a turn of the session `session_id`: to the
/// session's base URL, or to the provider's own address where it has none.
pub fn build_request(
    state: &SessionState,
    session_id: &str,
    provider: &ProviderSettings,
) -> (r: ModelRequest)
    ensures
        r.url@ == match provider.base_url {
            Some(url) => url@,
            None => default_url(provider.provider),
        },
        header_views(r.headers@) == auth_headers(provider.provider, provider.api_key@),
        r.body@ == request_body(provider.provider, provider.model@, state.log_of(session_id@)),
{
    let url = match &provider.base_url {
        Some(url) => url.clone(),
        None => match provider.provider {
            ProviderKind::Anthropic => "https://api.anthropic.com/v1/messages".to_string(),
            ProviderKind::OpenAI => "https://api.openai.com/v1/chat/completions".to_string(),
        },
    };
    let mut headers: Vec<(String, String)> = Vec::new();
    let body = match provider.provider {
        ProviderKind::Anthropic => {
            headers.push(("x-api-key".to_string(), provider.api_key.clone()));
            headers.push(("anthropic-version".to_string(), "2023-06-01".to_string()));
            assert(header_views(headers@) =~= auth_headers(
                provider.provider,
                provider.api_key@,
            ));
            object5(
                "model",
                Json::string(provider.model.as_str()),
                "messages",
                Json::array(build_anthropic_messages(state, session_id)),
                "stream",
                Json::Bool(true),
                "max_tokens",
                Json::Unsigned(MAX_TOKENS),
                "tools",
                Json::array(anthropic_tools()),
            )
        },
        ProviderKind::OpenAI => {
            let mut bearer = "Bearer ".to_string();
            bearer.append(provider.api_key.as_str());
            headers.push(("Authorization".to_string(), bearer));
            assert(header_views(headers@) =~= auth_headers(
                provider.provider,
                provider.api_key@,
            ));
            object5(
                "model",
                Json::string(provider.model.as_str()),
                "messages",
                Json::array(build_openai_messages(state, session_id)),
                "stream",
                Json::Bool(true),
                "tools",
                Json::array(openai_tools()),
                "tool_choice",
                Json::string("auto"),
            )
        },
    };
    ModelRequest { url, headers, body }
}

/// The decoder of a streamed reply, for either provider.
pub enum ModelStream {
    Anthropic(AnthropicStream),
    OpenAI(OpenAiStream),
}

/// The value of a [`ModelStream`].
pub enum ModelStreamView {
    Anthropic(AnthropicView),
    OpenAI(OpenAiView),
}

impl View for ModelStream {
    type V = ModelStreamView;

    open spec fn view(&self) -> ModelStreamView {
        match self {
            ModelStream::Anthropic(s) => ModelStreamView::Anthropic(s@),
            ModelStream::OpenAI(s) => ModelStreamView::OpenAI(s@),
        }
    }
}

impl ModelStream {
    /// A decoder for the provider `kind` that has seen nothing.
    pub fn new(kind: ProviderKind) -> (r: ModelStream)
        ensures
            match kind {
                ProviderKind::Anthropic => r matches ModelStream::Anthropic(s) && s@.buffer.len()
                    == 0 && s@.blocks == Map::<u64, crate::anthropic_stream::BlockView>::empty(),
                ProviderKind::OpenAI => r matches ModelStream::OpenAI(s) && s@.buffer.len() == 0
                    && s@.text.len() == 0 && s@.builders.len() == 0 && !s@.started
                    && !s@.done,
            },
    {
        match kind {
            ProviderKind::Anthropic => ModelStream::Anthropic(AnthropicStream::new()),
            ProviderKind::OpenAI => ModelStream::OpenAI(OpenAiStream::new()),
        }
    }

    /// Feeds the decoder the next chunk of the reply, as the provider's
    /// decoder takes it.
    pub fn feed(&mut self, chunk: &str) -> (r: Fed)
        ensures
            match *old(self) {
                ModelStream::Anthropic(before) => *final(self) matches ModelStream::Anthropic(after)
                    && (after@, json_views(r.emitted@), opt_text(r.failure))
                    == crate::anthropic_stream::fed(before@, chunk@),
                ModelStream::OpenAI(before) => *final(self) matches ModelStream::OpenAI(after) && (
                    after@,
                    json_views(r.emitted@),
                    opt_text(r.failure),
                ) == crate::openai_stream::fed(before@, chunk@),
            },
    {
        match self {
            ModelStream::Anthropic(s) => s.feed(chunk),
            ModelStream::OpenAI(s) => s.feed(chunk),
        }
    }

    /// Feeds the decoder the next chunk of the reply as it came off the
    /// wire: the bytes are read as text, with the replacement character for
    /// what is no UTF-8, and the text is fed.
    pub fn feed_bytes(&mut self, chunk: &[u8]) -> (r: Fed)
        ensures
            match *old(self) {
                ModelStream::Anthropic(before) => *final(self) matches ModelStream::Anthropic(after)
                    && (after@, json_views(r.emitted@), opt_text(r.failure))
                    == crate::anthropic_stream::fed(before@, lossy_text(chunk@)),
                ModelStream::OpenAI(before) => *final(self) matches ModelStream::OpenAI(after) && (
                    after@,
                    json_views(r.emitted@),
                    opt_text(r.failure),
                ) == crate::openai_stream::fed(before@, lossy_text(chunk@)),
            },
    {
        let text = decode_lossy(chunk);
        self.feed(text.as_str())
    }

    /// Whether the reply has said that it is over, so that nothing more
    /// need be read: an OpenAI stream after its end mark. An Anthropic
    /// stream has no such mark and is over when the provider closes it.
    pub fn ended(&self) -> (r: bool)
        ensures
            r == (*self matches ModelStream::OpenAI(s) && s@.done),
    {
        match self {
            ModelStream::Anthropic(_) => false,
            ModelStream::OpenAI(s) => s.done,
        }
    }

    /// Ends the stream, as the provider's decoder ends it.
    pub fn finish(self) -> (r: StreamEnd)
        ensures
            match self {
                ModelStream::Anthropic(s) => {
                    &&& r.messages() == Seq::<JsonView>::empty()
                    &&& call_views(r.calls()) == ended_calls(in_order(s@.blocks))
                    &&& r.blocks() == ended_content(in_order(s@.blocks))
                },
                ModelStream::OpenAI(s) => {
                    &&& r.messages() == if s@.started {
                        seq![stop_event()]
                    } else {
                        Seq::<JsonView>::empty()
                    }
                    &&& call_views(r.calls()) == finalized(s@.builders)
                    &&& r.blocks() == content_blocks(s@.text, r.calls())
                },
            },
    {
        match self {
            ModelStream::Anthropic(s) => s.finish(),
            ModelStream::OpenAI(s) => s.finish(),
        }
    }
}

} // verus!

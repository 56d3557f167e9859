//! What crosses the boundary to the client: session records, the commands
//! that come in and the events that go out.

use vstd::prelude::*;
use crate::json::{json_views, Json, JsonView};
use crate::providers::registry::{clone_text, ProviderKind};

verus! {

/// Whether a tool call waits for the user's consent.
#[derive(Debug, Clone, Copy, PartialEq, Eq, Structural)]
pub enum PermissionMode {
    Ask,
    Auto,
}

/// Where a session stands.
#[derive(Debug, Clone, Copy, PartialEq, Eq, Structural)]
pub enum SessionStatus {
    Idle,
    Running,
    Completed,
    Error,
}

/// The record of one session. Times are milliseconds since the epoch.
#[derive(Debug, PartialEq)]
pub struct SessionInfo {
    pub id: String,
    pub title: String,
    pub status: SessionStatus,
    pub cwd: Option<String>,
    pub claude_session_id: Option<String>,
    pub provider: Option<ProviderKind>,
    pub model: Option<String>,
    pub created_at: i64,
    pub updated_at: i64,
}

impl Clone for SessionInfo {
    /// A copy with the same fields.
    fn clone(&self) -> (r: SessionInfo)
        ensures
            r == *self,
    {
        SessionInfo {
            id: self.id.clone(),
            title: self.title.clone(),
            status: self.status,
            cwd: clone_text(&self.cwd),
            claude_session_id: clone_text(&self.claude_session_id),
            provider: self.provider,
            model: clone_text(&self.model),
            created_at: self.created_at,
            updated_at: self.updated_at,
        }
    }
}

/// An event for the client.
#[allow(inconsistent_fields)]
#[derive(Debug, PartialEq)]
pub enum ServerEvent {
    SessionList { sessions: Vec<SessionInfo> },
    SessionHistory { session_id: String, status: SessionStatus, messages: Vec<Json> },
    SessionStatus {
        session_id: String,
        status: SessionStatus,
        title: Option<String>,
        cwd: Option<String>,
        error: Option<String>,
    },
    SessionDeleted { session_id: String },
    StreamMessage { session_id: String, message: Json },
    StreamUserPrompt { session_id: String, prompt: String },
    PermissionRequest { session_id: String, tool_use_id: String, tool_name: String, input: Json },
    RunnerError { session_id: Option<String>, message: String },
}

/// The value of a [`ServerEvent`].
#[allow(inconsistent_fields)]
pub enum EventView {
    SessionList { sessions: Seq<SessionInfo> },
    SessionHistory { session_id: Seq<char>, status: SessionStatus, messages: Seq<JsonView> },
    SessionStatus {
        session_id: Seq<char>,
        status: SessionStatus,
        title: Option<Seq<char>>,
        cwd: Option<Seq<char>>,
        error: Option<Seq<char>>,
    },
    SessionDeleted { session_id: Seq<char> },
    StreamMessage { session_id: Seq<char>, message: JsonView },
    StreamUserPrompt { session_id: Seq<char>, prompt: Seq<char> },
    PermissionRequest {
        session_id: Seq<char>,
        tool_use_id: Seq<char>,
        tool_name: Seq<char>,
        input: JsonView,
    },
    RunnerError { session_id: Option<Seq<char>>, message: Seq<char> },
}

/// The view of an optional string.
pub open spec fn maybe(t: Option<String>) -> Option<Seq<char>> {
    match t {
        Some(s) => Some(s@),
        None => None,
    }
}

impl View for ServerEvent {
    type V = EventView;

    open spec fn view(&self) -> EventView {
        match self {
            ServerEvent::SessionList { sessions } => EventView::SessionList { sessions: sessions@ },
            ServerEvent::SessionHistory { session_id, status, messages } => {
                EventView::SessionHistory {
                    session_id: session_id@,
                    status: *status,
                    messages: json_views(messages@),
                }
            },
            ServerEvent::SessionStatus { session_id, status, title, cwd, error } => {
                EventView::SessionStatus {
                    session_id: session_id@,
                    status: *status,
                    title: maybe(*title),
                    cwd: maybe(*cwd),
                    error: maybe(*error),
                }
            },
            ServerEvent::SessionDeleted { session_id } => EventView::SessionDeleted {
                session_id: session_id@,
            },
            ServerEvent::StreamMessage { session_id, message } => EventView::StreamMessage {
                session_id: session_id@,
                message: message@,
            },
            ServerEvent::StreamUserPrompt { session_id, prompt } => EventView::StreamUserPrompt {
                session_id: session_id@,
                prompt: prompt@,
            },
            ServerEvent::PermissionRequest { session_id, tool_use_id, tool_name, input } => {
                EventView::PermissionRequest {
                    session_id: session_id@,
                    tool_use_id: tool_use_id@,
                    tool_name: tool_name@,
                    input: input@,
                }
            },
            ServerEvent::RunnerError { session_id, message } => EventView::RunnerError {
                session_id: maybe(*session_id),
                message: message@,
            },
        }
    }
}

/// The values of a list of events.
pub open spec fn event_views(events: Seq<ServerEvent>) -> Seq<EventView> {
    Seq::new(events.len(), |i: int| events[i]@)
}

/// The event that the session `session_id` now has the status `status`;
/// `error` says why, where it is an error.
pub open spec fn status_event(
    session_id: Seq<char>,
    status: SessionStatus,
    error: Option<Seq<char>>,
) -> EventView {
    EventView::SessionStatus { session_id, status, title: None, cwd: None, error }
}

/// The event that carries `message` to the client of the session
/// `session_id`.
pub open spec fn message_event(session_id: Seq<char>, message: JsonView) -> EventView {
    EventView::StreamMessage { session_id, message }
}

/// Appends `event` to `events`.
pub fn push_event(events: &mut Vec<ServerEvent>, event: ServerEvent)
    ensures
        event_views(final(events)@) == event_views(old(events)@).push(event@),
{
    events.push(event);
    assert(event_views(events@) =~= event_views(old(events)@).push(event@));
}

/// The event that the session `session_id` now has the status `status`.
pub fn status_changed_event(
    session_id: &str,
    status: SessionStatus,
    error: Option<String>,
) -> (r: ServerEvent)
    ensures
        r@ == status_event(session_id@, status, maybe(error)),
{
    ServerEvent::SessionStatus {
        session_id: session_id.to_string(),
        status,
        title: None,
        cwd: None,
        error,
    }
}

/// The event that carries `message` to the client of the session
/// `session_id`.
pub fn stream_message(session_id: &str, message: Json) -> (r: ServerEvent)
    ensures
        r@ == message_event(session_id@, message@),
{
    ServerEvent::StreamMessage { session_id: session_id.to_string(), message }
}

/// A command from the client.
#[derive(Debug, PartialEq)]
pub enum ClientEvent {
    SessionList,
    SessionHistory { session_id: String },
    SessionStart {
        title: String,
        prompt: String,
        cwd: Option<String>,
        provider: ProviderKind,
        api_key: String,
        model: String,
        base_url: Option<String>,
        permission_mode: Option<PermissionMode>,
        allowed_tools: Option<String>,
    },
    SessionContinue { session_id: String, prompt: String },
    SessionStop { session_id: String },
    SessionDelete { session_id: String },
    PermissionResponse { session_id: String, tool_use_id: String, result: Json },
}

} // verus!

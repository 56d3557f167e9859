//! Events and commands as they go over the wire: an envelope of a `type`
//! and a `payload`, with names in camel case.

use vstd::prelude::*;
use vstd::string::StringExecFns;
use crate::events::{
    maybe, ClientEvent, EventView, PermissionMode, ServerEvent, SessionInfo, SessionStatus,
};
use crate::text::str_eq;
use crate::json::{clone_list, json_views, object2, Fields, Json, JsonView};
use crate::providers::registry::ProviderKind;

verus! {

impl SessionStatus {
    /// The name of the status on the wire.
    pub open spec fn wire_name(self) -> Seq<char> {
        match self {
            SessionStatus::Idle => "idle"@,
            SessionStatus::Running => "running"@,
            SessionStatus::Completed => "completed"@,
            SessionStatus::Error => "error"@,
        }
    }

    /// The name of the status on the wire.
    pub fn as_str(&self) -> (r: &'static str)
        ensures
            r@ == self.wire_name(),
    {
        match self {
            SessionStatus::Idle => "idle",
            SessionStatus::Running => "running",
            SessionStatus::Completed => "completed",
            SessionStatus::Error => "error",
        }
    }
}

impl PermissionMode {
    /// The name of the mode on the wire.
    pub open spec fn wire_name(self) -> Seq<char> {
        match self {
            PermissionMode::Ask => "ask"@,
            PermissionMode::Auto => "auto"@,
        }
    }

    /// The name of the mode on the wire.
    pub fn as_str(&self) -> (r: &'static str)
        ensures
            r@ == self.wire_name(),
    {
        match self {
            PermissionMode::Ask => "ask",
            PermissionMode::Auto => "auto",
        }
    }
}

/// An optional text on the wire: the text, or `null`.
pub open spec fn text_or_null(t: Option<Seq<char>>) -> JsonView {
    match t {
        Some(s) => JsonView::Str(s),
        None => JsonView::Null,
    }
}

/// The fields `fields` and then `key` with the text `t`, if there is one.
pub open spec fn with_text_if(
    fields: Seq<(Seq<char>, JsonView)>,
    key: Seq<char>,
    t: Option<Seq<char>>,
) -> Seq<(Seq<char>, JsonView)> {
    match t {
        Some(s) => fields.push((key, JsonView::Str(s))),
        None => fields,
    }
}

/// The name of an optional provider kind on the wire.
pub open spec fn kind_name(kind: Option<ProviderKind>) -> Option<Seq<char>> {
    match kind {
        Some(k) => Some(k.wire_name()),
        None => None,
    }
}

/// A session on the wire. The working directory and the upstream session
/// id are `null` where there is none; the provider and the model are left
/// out where there is none.
pub open spec fn session_value(s: SessionInfo) -> JsonView {
    let head = Seq::<(Seq<char>, JsonView)>::empty().push(("id"@, JsonView::Str(s.id@))).push(
        ("title"@, JsonView::Str(s.title@)),
    ).push(("status"@, JsonView::Str(s.status.wire_name()))).push(
        ("cwd"@, text_or_null(maybe(s.cwd))),
    ).push(("claudeSessionId"@, text_or_null(maybe(s.claude_session_id))));
    let named = with_text_if(
        with_text_if(head, "provider"@, kind_name(s.provider)),
        "model"@,
        maybe(s.model),
    );
    JsonView::Object(
        named.push(("createdAt"@, JsonView::Signed(s.created_at))).push(
            ("updatedAt"@, JsonView::Signed(s.updated_at)),
        ),
    )
}

/// The sessions of a list on the wire.
pub open spec fn session_values(s: Seq<SessionInfo>) -> Seq<JsonView> {
    Seq::new(s.len(), |i: int| session_value(s[i]))
}

/// The envelope of the event of the kind `tag` with the payload `payload`.
pub open spec fn envelope(tag: Seq<char>, payload: JsonView) -> JsonView {
    JsonView::Object(seq![("type"@, JsonView::Str(tag)), ("payload"@, payload)])
}

/// An event on the wire.
pub open spec fn event_value(e: EventView) -> JsonView {
    match e {
        EventView::SessionList { sessions } => envelope(
            "session.list"@,
            JsonView::Object(
                Seq::empty().push(("sessions"@, JsonView::Array(session_values(sessions)))),
            ),
        ),
        EventView::SessionHistory { session_id, status, messages } => envelope(
            "session.history"@,
            JsonView::Object(
                Seq::empty().push(("sessionId"@, JsonView::Str(session_id))).push(
                    ("status"@, JsonView::Str(status.wire_name())),
                ).push(("messages"@, JsonView::Array(messages))),
            ),
        ),
        EventView::SessionStatus { session_id, status, title, cwd, error } => envelope(
            "session.status"@,
            JsonView::Object(
                with_text_if(
                    with_text_if(
                        with_text_if(
                            Seq::empty().push(("sessionId"@, JsonView::Str(session_id))).push(
                                ("status"@, JsonView::Str(status.wire_name())),
                            ),
                            "title"@,
                            title,
                        ),
                        "cwd"@,
                        cwd,
                    ),
                    "error"@,
                    error,
                ),
            ),
        ),
        EventView::SessionDeleted { session_id } => envelope(
            "session.deleted"@,
            JsonView::Object(Seq::empty().push(("sessionId"@, JsonView::Str(session_id)))),
        ),
        EventView::StreamMessage { session_id, message } => envelope(
            "stream.message"@,
            JsonView::Object(
                Seq::empty().push(("sessionId"@, JsonView::Str(session_id))).push(
                    ("message"@, message),
                ),
            ),
        ),
        EventView::StreamUserPrompt { session_id, prompt } => envelope(
            "stream.user_prompt"@,
            JsonView::Object(
                Seq::empty().push(("sessionId"@, JsonView::Str(session_id))).push(
                    ("prompt"@, JsonView::Str(prompt)),
                ),
            ),
        ),
        EventView::PermissionRequest { session_id, tool_use_id, tool_name, input } => envelope(
            "permission.request"@,
            JsonView::Object(
                Seq::empty().push(("sessionId"@, JsonView::Str(session_id))).push(
                    ("toolUseId"@, JsonView::Str(tool_use_id)),
                ).push(("toolName"@, JsonView::Str(tool_name))).push(("input"@, input)),
            ),
        ),
        EventView::RunnerError { session_id, message } => envelope(
            "runner.error"@,
            JsonView::Object(
                Seq::empty().push(("sessionId"@, text_or_null(session_id))).push(
                    ("message"@, JsonView::Str(message)),
                ),
            ),
        ),
    }
}

/// An optional text on the wire.
fn text_json(t: &Option<String>) -> (r: Json)
    ensures
        r@ == text_or_null(maybe(*t)),
{
    match t {
        Some(s) => Json::string(s.as_str()),
        None => Json::Null,
    }
}

/// The fields `fields` and then `key` with the text `t`, if there is one.
fn with_text(fields: Fields, key: &str, t: &Option<String>) -> (r: Fields)
    ensures
        r@ == with_text_if(fields@, key@, maybe(*t)),
{
    match t {
        Some(s) => fields.with(key, Json::string(s.as_str())),
        None => fields,
    }
}

/// A session on the wire.
pub fn session_json(s: &SessionInfo) -> (r: Json)
    ensures
        r@ == session_value(*s),
{
    let head = Fields::new().with("id", Json::string(s.id.as_str())).with(
        "title",
        Json::string(s.title.as_str()),
    ).with("status", Json::string(s.status.as_str())).with("cwd", text_json(&s.cwd)).with(
        "claudeSessionId",
        text_json(&s.claude_session_id),
    );
    let with_provider = match s.provider {
        Some(kind) => head.with("provider", Json::string(kind.as_str())),
        None => head,
    };
    with_text(with_provider, "model", &s.model).with("createdAt", Json::Signed(s.created_at)).with(
        "updatedAt",
        Json::Signed(s.updated_at),
    ).build()
}

/// An event on the wire.
pub fn event_json(event: &ServerEvent) -> (r: Json)
    ensures
        r@ == event_value(event@),
{
    match event {
        ServerEvent::SessionList { sessions } => {
            let mut list: Vec<Json> = Vec::new();
            let mut i: usize = 0;
            while i < sessions.len()
                invariant
                    i <= sessions.len(),
                    list.len() == i,
                    forall|k: int| 0 <= k < i ==> list@[k]@ == session_value(sessions@[k]),
                decreases sessions.len() - i,
            {
                list.push(session_json(&sessions[i]));
                i += 1;
            }
            assert(json_views(list@) =~= session_values(sessions@));
            object2(
                "type",
                Json::string("session.list"),
                "payload",
                Fields::new().with("sessions", Json::array(list)).build(),
            )
        },
        ServerEvent::SessionHistory { session_id, status, messages } => object2(
            "type",
            Json::string("session.history"),
            "payload",
            Fields::new().with("sessionId", Json::string(session_id.as_str())).with(
                "status",
                Json::string(status.as_str()),
            ).with("messages", Json::array(clone_list(messages))).build(),
        ),
        ServerEvent::SessionStatus { session_id, status, title, cwd, error } => {
            let head = Fields::new().with("sessionId", Json::string(session_id.as_str())).with(
                "status",
                Json::string(status.as_str()),
            );
            object2(
                "type",
                Json::string("session.status"),
                "payload",
                with_text(
                    with_text(with_text(head, "title", title), "cwd", cwd),
                    "error",
                    error,
                ).build(),
            )
        },
        ServerEvent::SessionDeleted { session_id } => object2(
            "type",
            Json::string("session.deleted"),
            "payload",
            Fields::new().with("sessionId", Json::string(session_id.as_str())).build(),
        ),
        ServerEvent::StreamMessage { session_id, message } => object2(
            "type",
            Json::string("stream.message"),
            "payload",
            Fields::new().with("sessionId", Json::string(session_id.as_str())).with(
                "message",
                message.clone(),
            ).build(),
        ),
        ServerEvent::StreamUserPrompt { session_id, prompt } => object2(
            "type",
            Json::string("stream.user_prompt"),
            "payload",
            Fields::new().with("sessionId", Json::string(session_id.as_str())).with(
                "prompt",
                Json::string(prompt.as_str()),
            ).build(),
        ),
        ServerEvent::PermissionRequest { session_id, tool_use_id, tool_name, input } => object2(
            "type",
            Json::string("permission.request"),
            "payload",
            Fields::new().with("sessionId", Json::string(session_id.as_str())).with(
                "toolUseId",
                Json::string(tool_use_id.as_str()),
            ).with("toolName", Json::string(tool_name.as_str())).with(
                "input",
                input.clone(),
            ).build(),
        ),
        ServerEvent::RunnerError { session_id, message } => object2(
            "type",
            Json::string("runner.error"),
            "payload",
            Fields::new().with("sessionId", text_json(session_id)).with(
                "message",
                Json::string(message.as_str()),
            ).build(),
        ),
    }
}

/// The name under which every event goes to the client.
pub const SERVER_EVENT_CHANNEL: &'static str = "server-event";

/// The value of a [`ClientEvent`].
#[allow(inconsistent_fields)]
pub enum CommandView {
    SessionList,
    SessionHistory { session_id: Seq<char> },
    SessionStart {
        title: Seq<char>,
        prompt: Seq<char>,
        cwd: Option<Seq<char>>,
        provider: ProviderKind,
        api_key: Seq<char>,
        model: Seq<char>,
        base_url: Option<Seq<char>>,
        permission_mode: Option<PermissionMode>,
        allowed_tools: Option<Seq<char>>,
    },
    SessionContinue { session_id: Seq<char>, prompt: Seq<char> },
    SessionStop { session_id: Seq<char> },
    SessionDelete { session_id: Seq<char> },
    PermissionResponse { session_id: Seq<char>, tool_use_id: Seq<char>, result: JsonView },
}

impl View for ClientEvent {
    type V = CommandView;

    open spec fn view(&self) -> CommandView {
        match self {
            ClientEvent::SessionList => CommandView::SessionList,
            ClientEvent::SessionHistory { session_id } => CommandView::SessionHistory {
                session_id: session_id@,
            },
            ClientEvent::SessionStart {
                title,
                prompt,
                cwd,
                provider,
                api_key,
                model,
                base_url,
                permission_mode,
                allowed_tools,
            } => CommandView::SessionStart {
                title: title@,
                prompt: prompt@,
                cwd: maybe(*cwd),
                provider: *provider,
                api_key: api_key@,
                model: model@,
                base_url: maybe(*base_url),
                permission_mode: *permission_mode,
                allowed_tools: maybe(*allowed_tools),
            },
            ClientEvent::SessionContinue { session_id, prompt } => CommandView::SessionContinue {
                session_id: session_id@,
                prompt: prompt@,
            },
            ClientEvent::SessionStop { session_id } => CommandView::SessionStop {
                session_id: session_id@,
            },
            ClientEvent::SessionDelete { session_id } => CommandView::SessionDelete {
                session_id: session_id@,
            },
            ClientEvent::PermissionResponse { session_id, tool_use_id, result } => {
                CommandView::PermissionResponse {
                    session_id: session_id@,
                    tool_use_id: tool_use_id@,
                    result: result@,
                }
            },
        }
    }
}

/// The message for a command that lacks the field `key`.
pub open spec fn missing_field(key: Seq<char>) -> Seq<char> {
    "missing field `"@ + key + "`"@
}

/// The message for a command whose field `key` is of the wrong kind.
pub open spec fn invalid_field(key: Seq<char>) -> Seq<char> {
    "invalid value for field `"@ + key + "`"@
}

/// The message for a command of a kind that is not known.
pub open spec fn unknown_command(tag: Seq<char>) -> Seq<char> {
    "unknown command `"@ + tag + "`"@
}

/// The member `key` of the payload, if there is a payload and it has one.
pub open spec fn member(payload: Option<JsonView>, key: Seq<char>) -> Option<JsonView> {
    match payload {
        Some(p) => p.get(key),
        None => None,
    }
}

/// The text that the payload must carry under `key`.
pub open spec fn required_text(payload: Option<JsonView>, key: Seq<char>) -> Result<
    Seq<char>,
    Seq<char>,
> {
    match member(payload, key) {
        Some(JsonView::Str(t)) => Ok(t),
        Some(_) => Err(invalid_field(key)),
        None => Err(missing_field(key)),
    }
}

/// The text that the payload may carry under `key`: none where the member
/// is missing or `null`.
pub open spec fn optional_text(payload: Option<JsonView>, key: Seq<char>) -> Result<
    Option<Seq<char>>,
    Seq<char>,
> {
    match member(payload, key) {
        Some(JsonView::Str(t)) => Ok(Some(t)),
        Some(JsonView::Null) => Ok(None),
        Some(_) => Err(invalid_field(key)),
        None => Ok(None),
    }
}

/// The provider kind that the payload must name under `provider`.
pub open spec fn required_kind(payload: Option<JsonView>) -> Result<ProviderKind, Seq<char>> {
    match required_text(payload, "provider"@) {
        Ok(name) => if name == ProviderKind::Anthropic.wire_name() {
            Ok(ProviderKind::Anthropic)
        } else if name == ProviderKind::OpenAI.wire_name() {
            Ok(ProviderKind::OpenAI)
        } else {
            Err(invalid_field("provider"@))
        },
        Err(e) => Err(e),
    }
}

/// The permission mode that the payload may name under `permissionMode`.
pub open spec fn optional_mode(payload: Option<JsonView>) -> Result<
    Option<PermissionMode>,
    Seq<char>,
> {
    match optional_text(payload, "permissionMode"@) {
        Ok(Some(name)) => if name == PermissionMode::Ask.wire_name() {
            Ok(Some(PermissionMode::Ask))
        } else if name == PermissionMode::Auto.wire_name() {
            Ok(Some(PermissionMode::Auto))
        } else {
            Err(invalid_field("permissionMode"@))
        },
        Ok(None) => Ok(None),
        Err(e) => Err(e),
    }
}

/// The start of a session that the payload describes, or what is wrong with
/// the first of its fields that is not in order.
pub open spec fn start_command(payload: Option<JsonView>) -> Result<CommandView, Seq<char>> {
    let title = required_text(payload, "title"@);
    let prompt = required_text(payload, "prompt"@);
    let cwd = optional_text(payload, "cwd"@);
    let provider = required_kind(payload);
    let api_key = required_text(payload, "apiKey"@);
    let model = required_text(payload, "model"@);
    let base_url = optional_text(payload, "baseUrl"@);
    let permission_mode = optional_mode(payload);
    let allowed_tools = optional_text(payload, "allowedTools"@);
    if title is Err {
        Err(title->Err_0)
    } else if prompt is Err {
        Err(prompt->Err_0)
    } else if cwd is Err {
        Err(cwd->Err_0)
    } else if provider is Err {
        Err(provider->Err_0)
    } else if api_key is Err {
        Err(api_key->Err_0)
    } else if model is Err {
        Err(model->Err_0)
    } else if base_url is Err {
        Err(base_url->Err_0)
    } else if permission_mode is Err {
        Err(permission_mode->Err_0)
    } else if allowed_tools is Err {
        Err(allowed_tools->Err_0)
    } else {
        Ok(
            CommandView::SessionStart {
                title: title->Ok_0,
                prompt: prompt->Ok_0,
                cwd: cwd->Ok_0,
                provider: provider->Ok_0,
                api_key: api_key->Ok_0,
                model: model->Ok_0,
                base_url: base_url->Ok_0,
                permission_mode: permission_mode->Ok_0,
                allowed_tools: allowed_tools->Ok_0,
            },
        )
    }
}

/// The answer to a permission request that the payload describes.
pub open spec fn response_command(payload: Option<JsonView>) -> Result<CommandView, Seq<char>> {
    match required_text(payload, "sessionId"@) {
        Ok(session_id) => match required_text(payload, "toolUseId"@) {
            Ok(tool_use_id) => match member(payload, "result"@) {
                Some(result) => Ok(
                    CommandView::PermissionResponse { session_id, tool_use_id, result },
                ),
                None => Err(missing_field("result"@)),
            },
            Err(e) => Err(e),
        },
        Err(e) => Err(e),
    }
}

/// The command that the envelope `value` carries: its `type` says which,
/// its `payload` holds the fields. Fields that a command does not know are
/// passed over.
pub open spec fn command_of(value: JsonView) -> Result<CommandView, Seq<char>> {
    let payload = value.get("payload"@);
    match value.str_at("type"@) {
        Some(tag) => if tag == "session.list"@ {
            Ok(CommandView::SessionList)
        } else if tag == "session.history"@ {
            match required_text(payload, "sessionId"@) {
                Ok(session_id) => Ok(CommandView::SessionHistory { session_id }),
                Err(e) => Err(e),
            }
        } else if tag == "session.start"@ {
            start_command(payload)
        } else if tag == "session.continue"@ {
            match required_text(payload, "sessionId"@) {
                Ok(session_id) => match required_text(payload, "prompt"@) {
                    Ok(prompt) => Ok(CommandView::SessionContinue { session_id, prompt }),
                    Err(e) => Err(e),
                },
                Err(e) => Err(e),
            }
        } else if tag == "session.stop"@ {
            match required_text(payload, "sessionId"@) {
                Ok(session_id) => Ok(CommandView::SessionStop { session_id }),
                Err(e) => Err(e),
            }
        } else if tag == "session.delete"@ {
            match required_text(payload, "sessionId"@) {
                Ok(session_id) => Ok(CommandView::SessionDelete { session_id }),
                Err(e) => Err(e),
            }
        } else if tag == "permission.response"@ {
            response_command(payload)
        } else {
            Err(unknown_command(tag))
        },
        None => Err(missing_field("type"@)),
    }
}

/// The view of a command or of what is wrong with it.
pub open spec fn command_view(r: Result<ClientEvent, String>) -> Result<CommandView, Seq<char>> {
    match r {
        Ok(event) => Ok(event@),
        Err(e) => Err(e@),
    }
}

/// The view of a text or of what is wrong with it.
pub open spec fn text_view(r: Result<String, String>) -> Result<Seq<char>, Seq<char>> {
    match r {
        Ok(t) => Ok(t@),
        Err(e) => Err(e@),
    }
}

/// The view of an optional text or of what is wrong with it.
pub open spec fn optional_view(r: Result<Option<String>, String>) -> Result<
    Option<Seq<char>>,
    Seq<char>,
> {
    match r {
        Ok(t) => Ok(maybe(t)),
        Err(e) => Err(e@),
    }
}

/// The view of an optional value.
pub open spec fn payload_view(payload: Option<&Json>) -> Option<JsonView> {
    match payload {
        Some(p) => Some(p@),
        None => None,
    }
}

/// A message that names a field between two texts.
fn field_message(before: &str, key: &str) -> (r: String)
    ensures
        r@ == before@ + key@ + "`"@,
{
    let mut r = before.to_string();
    r.append(key);
    r.append("`");
    r
}

/// The member `key` of the payload, if there is a payload and it has one.
fn payload_member<'a>(payload: Option<&'a Json>, key: &str) -> (r: Option<&'a Json>)
    ensures
        payload_view(r) == member(payload_view(payload), key@),
{
    match payload {
        Some(p) => p.get(key),
        None => None,
    }
}

/// The text that the payload must carry under `key`.
fn read_required(payload: Option<&Json>, key: &str) -> (r: Result<String, String>)
    ensures
        text_view(r) == required_text(payload_view(payload), key@),
{
    match payload_member(payload, key) {
        Some(Json::Str(t)) => Ok(t.clone()),
        Some(_) => Err(field_message("invalid value for field `", key)),
        None => Err(field_message("missing field `", key)),
    }
}

/// The text that the payload may carry under `key`.
fn read_optional(payload: Option<&Json>, key: &str) -> (r: Result<Option<String>, String>)
    ensures
        optional_view(r) == optional_text(payload_view(payload), key@),
{
    match payload_member(payload, key) {
        Some(Json::Str(t)) => Ok(Some(t.clone())),
        Some(Json::Null) => Ok(None),
        Some(_) => Err(field_message("invalid value for field `", key)),
        None => Ok(None),
    }
}

/// The provider kind that the payload must name.
fn read_kind(payload: Option<&Json>) -> (r: Result<ProviderKind, String>)
    ensures
        match r {
            Ok(kind) => required_kind(payload_view(payload)) == Ok::<ProviderKind, Seq<char>>(kind),
            Err(e) => required_kind(payload_view(payload)) == Err::<ProviderKind, Seq<char>>(e@),
        },
{
    let name = read_required(payload, "provider")?;
    if str_eq(name.as_str(), "anthropic") {
        Ok(ProviderKind::Anthropic)
    } else if str_eq(name.as_str(), "openai") {
        Ok(ProviderKind::OpenAI)
    } else {
        Err(field_message("invalid value for field `", "provider"))
    }
}

/// The permission mode that the payload may name.
fn read_mode(payload: Option<&Json>) -> (r: Result<Option<PermissionMode>, String>)
    ensures
        match r {
            Ok(mode) => optional_mode(payload_view(payload)) == Ok::<
                Option<PermissionMode>,
                Seq<char>,
            >(mode),
            Err(e) => optional_mode(payload_view(payload)) == Err::<
                Option<PermissionMode>,
                Seq<char>,
            >(e@),
        },
{
    match read_optional(payload, "permissionMode")? {
        Some(name) => {
            if str_eq(name.as_str(), "ask") {
                Ok(Some(PermissionMode::Ask))
            } else if str_eq(name.as_str(), "auto") {
                Ok(Some(PermissionMode::Auto))
            } else {
                Err(field_message("invalid value for field `", "permissionMode"))
            }
        },
        None => Ok(None),
    }
}

/// The start of a session that the payload describes.
fn read_start(payload: Option<&Json>) -> (r: Result<ClientEvent, String>)
    ensures
        command_view(r) == start_command(payload_view(payload)),
{
    let title = read_required(payload, "title")?;
    let prompt = read_required(payload, "prompt")?;
    let cwd = read_optional(payload, "cwd")?;
    let provider = read_kind(payload)?;
    let api_key = read_required(payload, "apiKey")?;
    let model = read_required(payload, "model")?;
    let base_url = read_optional(payload, "baseUrl")?;
    let permission_mode = read_mode(payload)?;
    let allowed_tools = read_optional(payload, "allowedTools")?;
    Ok(
        ClientEvent::SessionStart {
            title,
            prompt,
            cwd,
            provider,
            api_key,
            model,
            base_url,
            permission_mode,
            allowed_tools,
        },
    )
}

/// Reads the command that the envelope `value` carries.
pub fn parse_client_event(value: &Json) -> (r: Result<ClientEvent, String>)
    ensures
        command_view(r) == command_of(value@),
{
    let payload = value.get("payload");
    let tag = match value.str_at("type") {
        Some(tag) => tag,
        None => {
            return Err(field_message("missing field `", "type"));
        },
    };
    if str_eq(tag, "session.list") {
        Ok(ClientEvent::SessionList)
    } else if str_eq(tag, "session.history") {
        let session_id = read_required(payload, "sessionId")?;
        Ok(ClientEvent::SessionHistory { session_id })
    } else if str_eq(tag, "session.start") {
        read_start(payload)
    } else if str_eq(tag, "session.continue") {
        let session_id = read_required(payload, "sessionId")?;
        let prompt = read_required(payload, "prompt")?;
        Ok(ClientEvent::SessionContinue { session_id, prompt })
    } else if str_eq(tag, "session.stop") {
        let session_id = read_required(payload, "sessionId")?;
        Ok(ClientEvent::SessionStop { session_id })
    } else if str_eq(tag, "session.delete") {
        let session_id = read_required(payload, "sessionId")?;
        Ok(ClientEvent::SessionDelete { session_id })
    } else if str_eq(tag, "permission.response") {
        let session_id = read_required(payload, "sessionId")?;
        let tool_use_id = read_required(payload, "toolUseId")?;
        match payload_member(payload, "result") {
            Some(result) => Ok(
                ClientEvent::PermissionResponse { session_id, tool_use_id, result: result.clone() },
            ),
            None => Err(field_message("missing field `", "result")),
        }
    } else {
        Err(field_message("unknown command `", tag))
    }
}

} // verus!

use open_cowork::events::{ClientEvent, PermissionMode, ServerEvent, SessionInfo, SessionStatus};
use open_cowork::json::{parse_json, stringify_value, Json};
use open_cowork::providers::registry::ProviderKind;
use open_cowork::state::{ProviderSettings, SessionState};
use open_cowork::turn::{build_request, request_failed, REQUEST_TIMEOUT_SECS};
use open_cowork::wire::{event_json, parse_client_event, session_json, SERVER_EVENT_CHANNEL};

fn j(text: &str) -> Json {
    parse_json(text).unwrap()
}

fn printed(event: &ServerEvent) -> String {
    stringify_value(&event_json(event))
}

#[test]
fn server_event_serializes() {
    let event = ServerEvent::SessionList { sessions: vec![] };
    let json = printed(&event);
    assert!(json.contains("\"type\":\"session.list\""));
}

#[test]
fn sessions_go_out_in_camel_case() {
    let session = SessionInfo {
        id: "session-1".to_string(),
        title: "T".to_string(),
        status: SessionStatus::Running,
        cwd: None,
        claude_session_id: None,
        provider: Some(ProviderKind::OpenAI),
        model: Some("m".to_string()),
        created_at: 1,
        updated_at: 2,
    };
    assert_eq!(
        j(&stringify_value(&session_json(&session))),
        j("{\"id\":\"session-1\",\"title\":\"T\",\"status\":\"running\",\"cwd\":null,\"claudeSessionId\":null,\"provider\":\"openai\",\"model\":\"m\",\"createdAt\":1,\"updatedAt\":2}")
    );
    let bare = SessionInfo {
        cwd: Some("/w".to_string()),
        provider: None,
        model: None,
        status: SessionStatus::Idle,
        created_at: -1,
        ..session.clone()
    };
    assert_eq!(
        j(&stringify_value(&session_json(&bare))),
        j("{\"id\":\"session-1\",\"title\":\"T\",\"status\":\"idle\",\"cwd\":\"/w\",\"claudeSessionId\":null,\"createdAt\":-1,\"updatedAt\":2}")
    );
    assert_eq!(
        printed(&ServerEvent::SessionList {
            sessions: vec![session.clone(), bare]
        })
        .matches("\"id\":\"session-1\"")
        .count(),
        2
    );
}

#[test]
fn status_events_leave_out_what_is_absent() {
    let bare = ServerEvent::SessionStatus {
        session_id: "s".to_string(),
        status: SessionStatus::Completed,
        title: None,
        cwd: None,
        error: None,
    };
    assert_eq!(
        printed(&bare),
        "{\"payload\":{\"sessionId\":\"s\",\"status\":\"completed\"},\"type\":\"session.status\"}"
    );
    let full = ServerEvent::SessionStatus {
        session_id: "s".to_string(),
        status: SessionStatus::Error,
        title: Some("T".to_string()),
        cwd: Some("/w".to_string()),
        error: Some("boom".to_string()),
    };
    assert_eq!(
        j(&printed(&full)),
        j("{\"type\":\"session.status\",\"payload\":{\"sessionId\":\"s\",\"status\":\"error\",\"title\":\"T\",\"cwd\":\"/w\",\"error\":\"boom\"}}")
    );
}

#[test]
fn every_event_has_its_tag_and_payload() {
    let cases = vec![
        (
            ServerEvent::SessionHistory {
                session_id: "s".to_string(),
                status: SessionStatus::Idle,
                messages: vec![Json::Unsigned(1)],
            },
            "{\"type\":\"session.history\",\"payload\":{\"sessionId\":\"s\",\"status\":\"idle\",\"messages\":[1]}}",
        ),
        (
            ServerEvent::SessionDeleted { session_id: "s".to_string() },
            "{\"type\":\"session.deleted\",\"payload\":{\"sessionId\":\"s\"}}",
        ),
        (
            ServerEvent::StreamMessage { session_id: "s".to_string(), message: j("{\"a\":1}") },
            "{\"type\":\"stream.message\",\"payload\":{\"sessionId\":\"s\",\"message\":{\"a\":1}}}",
        ),
        (
            ServerEvent::StreamUserPrompt { session_id: "s".to_string(), prompt: "hi".to_string() },
            "{\"type\":\"stream.user_prompt\",\"payload\":{\"sessionId\":\"s\",\"prompt\":\"hi\"}}",
        ),
        (
            ServerEvent::PermissionRequest {
                session_id: "s".to_string(),
                tool_use_id: "t1".to_string(),
                tool_name: "Read".to_string(),
                input: j("{\"file_path\":\"a.txt\"}"),
            },
            "{\"type\":\"permission.request\",\"payload\":{\"sessionId\":\"s\",\"toolUseId\":\"t1\",\"toolName\":\"Read\",\"input\":{\"file_path\":\"a.txt\"}}}",
        ),
        (
            ServerEvent::RunnerError { session_id: None, message: "m".to_string() },
            "{\"type\":\"runner.error\",\"payload\":{\"sessionId\":null,\"message\":\"m\"}}",
        ),
        (
            ServerEvent::RunnerError { session_id: Some("s".to_string()), message: "m".to_string() },
            "{\"type\":\"runner.error\",\"payload\":{\"sessionId\":\"s\",\"message\":\"m\"}}",
        ),
    ];
    for (event, expected) in cases {
        assert_eq!(j(&printed(&event)), j(expected));
    }
    assert_eq!(SERVER_EVENT_CHANNEL, "server-event");
}

#[test]
fn names_on_the_wire_are_lower_case() {
    assert_eq!(SessionStatus::Idle.as_str(), "idle");
    assert_eq!(SessionStatus::Running.as_str(), "running");
    assert_eq!(SessionStatus::Completed.as_str(), "completed");
    assert_eq!(SessionStatus::Error.as_str(), "error");
    assert_eq!(PermissionMode::Ask.as_str(), "ask");
    assert_eq!(PermissionMode::Auto.as_str(), "auto");
}

fn settings(kind: ProviderKind, base_url: Option<&str>) -> ProviderSettings {
    ProviderSettings {
        provider: kind,
        api_key: "sk".to_string(),
        model: "m1".to_string(),
        base_url: base_url.map(|u| u.to_string()),
        permission_mode: PermissionMode::Ask,
    }
}

#[test]
fn openai_requests_carry_a_bearer_token() {
    let mut state = SessionState::new();
    state.add_message("s", j("{\"type\":\"user_prompt\",\"prompt\":\"hi\"}"));
    let request = build_request(&state, "s", &settings(ProviderKind::OpenAI, None));
    assert_eq!(request.url, "https://api.openai.com/v1/chat/completions");
    assert_eq!(
        request.headers,
        vec![("Authorization".to_string(), "Bearer sk".to_string())]
    );
    assert_eq!(request.body.get("model").and_then(Json::as_str), Some("m1"));
    assert_eq!(request.body.get("stream"), Some(&Json::Bool(true)));
    assert_eq!(
        request.body.get("tool_choice").and_then(Json::as_str),
        Some("auto")
    );
    assert_eq!(request.body.get("max_tokens"), None);
    assert_eq!(
        request.body.get("messages"),
        Some(&Json::Array(vec![Json::Object(vec![
            ("role".to_string(), Json::string("user")),
            ("content".to_string(), Json::string("hi")),
        ])]))
    );
    assert_eq!(
        request
            .body
            .get("tools")
            .and_then(Json::as_array)
            .map(|t| t.len()),
        Some(9)
    );
    assert_eq!(REQUEST_TIMEOUT_SECS, 120);
}

#[test]
fn anthropic_requests_carry_key_and_version() {
    let mut state = SessionState::new();
    state.add_message("s", j("{\"type\":\"user_prompt\",\"prompt\":\"hi\"}"));
    let request = build_request(
        &state,
        "s",
        &settings(ProviderKind::Anthropic, Some("http://local/v1")),
    );
    assert_eq!(request.url, "http://local/v1");
    assert_eq!(
        request.headers,
        vec![
            ("x-api-key".to_string(), "sk".to_string()),
            ("anthropic-version".to_string(), "2023-06-01".to_string()),
        ]
    );
    assert_eq!(request.body.get("max_tokens"), Some(&Json::Unsigned(1024)));
    assert_eq!(request.body.get("stream"), Some(&Json::Bool(true)));
    assert_eq!(request.body.get("tool_choice"), None);
    assert_eq!(
        request
            .body
            .path(&["messages", "0", "content", "0", "text"])
            .and_then(Json::as_str),
        Some("hi")
    );
    let other = build_request(&state, "s", &settings(ProviderKind::Anthropic, None));
    assert_eq!(other.url, "https://api.anthropic.com/v1/messages");
}

#[test]
fn refusals_name_provider_status_and_body() {
    assert_eq!(
        request_failed(ProviderKind::OpenAI, "401 Unauthorized", "{\"error\":1}"),
        "OpenAI 请求失败(401 Unauthorized): {\"error\":1}"
    );
    assert_eq!(
        request_failed(ProviderKind::Anthropic, "500 Internal Server Error", ""),
        "Anthropic 请求失败(500 Internal Server Error): "
    );
}

fn command(text: &str) -> Result<ClientEvent, String> {
    parse_client_event(&j(text))
}

#[test]
fn commands_are_read_from_their_envelopes() {
    assert_eq!(
        command("{\"type\":\"session.list\"}"),
        Ok(ClientEvent::SessionList)
    );
    assert_eq!(
        command("{\"type\":\"session.list\",\"payload\":{\"extra\":1}}"),
        Ok(ClientEvent::SessionList)
    );
    assert_eq!(
        command("{\"type\":\"session.history\",\"payload\":{\"sessionId\":\"s\"}}"),
        Ok(ClientEvent::SessionHistory {
            session_id: "s".to_string()
        })
    );
    assert_eq!(
        command(
            "{\"payload\":{\"sessionId\":\"s\",\"prompt\":\"more\"},\"type\":\"session.continue\"}"
        ),
        Ok(ClientEvent::SessionContinue {
            session_id: "s".to_string(),
            prompt: "more".to_string()
        })
    );
    assert_eq!(
        command("{\"type\":\"session.stop\",\"payload\":{\"sessionId\":\"s\"}}"),
        Ok(ClientEvent::SessionStop {
            session_id: "s".to_string()
        })
    );
    assert_eq!(
        command("{\"type\":\"session.delete\",\"payload\":{\"sessionId\":\"s\",\"other\":true}}"),
        Ok(ClientEvent::SessionDelete {
            session_id: "s".to_string()
        })
    );
    assert_eq!(
        command("{\"type\":\"permission.response\",\"payload\":{\"sessionId\":\"s\",\"toolUseId\":\"t1\",\"result\":{\"behavior\":\"allow\"}}}"),
        Ok(ClientEvent::PermissionResponse {
            session_id: "s".to_string(),
            tool_use_id: "t1".to_string(),
            result: j("{\"behavior\":\"allow\"}"),
        })
    );
    assert_eq!(
        command("{\"type\":\"permission.response\",\"payload\":{\"sessionId\":\"s\",\"toolUseId\":\"t1\",\"result\":null}}"),
        Ok(ClientEvent::PermissionResponse {
            session_id: "s".to_string(),
            tool_use_id: "t1".to_string(),
            result: Json::Null,
        })
    );
}

#[test]
fn a_start_is_read_with_all_its_fields() {
    assert_eq!(
        command("{\"type\":\"session.start\",\"payload\":{\"title\":\"T\",\"prompt\":\"hi\",\"cwd\":\"/w\",\"provider\":\"openai\",\"apiKey\":\"k\",\"model\":\"m\",\"baseUrl\":\"u\",\"permissionMode\":\"auto\",\"allowedTools\":\"Read\"}}"),
        Ok(ClientEvent::SessionStart {
            title: "T".to_string(),
            prompt: "hi".to_string(),
            cwd: Some("/w".to_string()),
            provider: ProviderKind::OpenAI,
            api_key: "k".to_string(),
            model: "m".to_string(),
            base_url: Some("u".to_string()),
            permission_mode: Some(PermissionMode::Auto),
            allowed_tools: Some("Read".to_string()),
        })
    );
    assert_eq!(
        command("{\"type\":\"session.start\",\"payload\":{\"title\":\"T\",\"prompt\":\"hi\",\"cwd\":null,\"provider\":\"anthropic\",\"apiKey\":\"\",\"model\":\"m\",\"permissionMode\":\"ask\"}}"),
        Ok(ClientEvent::SessionStart {
            title: "T".to_string(),
            prompt: "hi".to_string(),
            cwd: None,
            provider: ProviderKind::Anthropic,
            api_key: String::new(),
            model: "m".to_string(),
            base_url: None,
            permission_mode: Some(PermissionMode::Ask),
            allowed_tools: None,
        })
    );
}

#[test]
fn commands_that_are_not_in_order_are_turned_down() {
    assert_eq!(command("{}"), Err("missing field `type`".to_string()));
    assert_eq!(command("[]"), Err("missing field `type`".to_string()));
    assert_eq!(
        command("{\"type\":7}"),
        Err("missing field `type`".to_string())
    );
    assert_eq!(
        command("{\"type\":\"session.rename\"}"),
        Err("unknown command `session.rename`".to_string())
    );
    assert_eq!(
        command("{\"type\":\"session.history\"}"),
        Err("missing field `sessionId`".to_string())
    );
    assert_eq!(
        command("{\"type\":\"session.history\",\"payload\":{\"sessionId\":5}}"),
        Err("invalid value for field `sessionId`".to_string())
    );
    assert_eq!(
        command("{\"type\":\"session.continue\",\"payload\":{\"sessionId\":\"s\"}}"),
        Err("missing field `prompt`".to_string())
    );
    assert_eq!(
        command("{\"type\":\"permission.response\",\"payload\":{\"sessionId\":\"s\",\"toolUseId\":\"t\"}}"),
        Err("missing field `result`".to_string())
    );
    let start = |fields: &str| {
        command(&format!(
            "{{\"type\":\"session.start\",\"payload\":{{{}}}}}",
            fields
        ))
    };
    assert_eq!(start(""), Err("missing field `title`".to_string()));
    assert_eq!(
        start("\"title\":\"T\""),
        Err("missing field `prompt`".to_string())
    );
    assert_eq!(
        start("\"title\":\"T\",\"prompt\":\"p\",\"cwd\":3"),
        Err("invalid value for field `cwd`".to_string())
    );
    assert_eq!(
        start("\"title\":\"T\",\"prompt\":\"p\""),
        Err("missing field `provider`".to_string())
    );
    assert_eq!(
        start("\"title\":\"T\",\"prompt\":\"p\",\"provider\":\"other\""),
        Err("invalid value for field `provider`".to_string())
    );
    assert_eq!(
        start("\"title\":\"T\",\"prompt\":\"p\",\"provider\":\"openai\",\"apiKey\":\"k\""),
        Err("missing field `model`".to_string())
    );
    assert_eq!(
        start("\"title\":\"T\",\"prompt\":\"p\",\"provider\":\"openai\",\"apiKey\":\"k\",\"model\":\"m\",\"permissionMode\":\"always\""),
        Err("invalid value for field `permissionMode`".to_string())
    );
}

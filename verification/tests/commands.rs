use open_cowork::commands::client_event::{
    client_event, normalize_base_url, record_user_prompt, Effect,
};
use open_cowork::commands::session::{recent_cwds, session_list};
use open_cowork::events::{ClientEvent, PermissionMode, ServerEvent, SessionStatus};
use open_cowork::history::user_prompt_message;
use open_cowork::json::Json;
use open_cowork::providers::registry::ProviderKind;
use open_cowork::state::{ProviderSettings, SessionState};
use tokio::sync::oneshot;

fn start(
    api_key: &str,
    model: &str,
    base_url: Option<&str>,
    mode: Option<PermissionMode>,
) -> ClientEvent {
    ClientEvent::SessionStart {
        title: "Title".to_string(),
        prompt: "hi".to_string(),
        cwd: Some("/work".to_string()),
        provider: ProviderKind::Anthropic,
        api_key: api_key.to_string(),
        model: model.to_string(),
        base_url: base_url.map(|u| u.to_string()),
        permission_mode: mode,
        allowed_tools: Some("Read".to_string()),
    }
}

fn runner_error(session_id: Option<&str>, message: &str) -> Vec<Effect> {
    vec![Effect::Emit {
        event: ServerEvent::RunnerError {
            session_id: session_id.map(|s| s.to_string()),
            message: message.to_string(),
        },
    }]
}

#[test]
fn a_start_without_key_or_model_is_turned_down() {
    let mut state = SessionState::new();
    for (key, model) in [("", "m"), ("  ", "m"), ("k", ""), ("k", "\n\t"), ("", "")] {
        assert_eq!(
            client_event(&mut state, start(key, model, None, None)),
            Ok(runner_error(None, "API Key 或 Model 不能为空。"))
        );
    }
    assert!(state.list_sessions().is_empty());
}

#[test]
fn a_start_creates_the_session_and_begins_its_turn() {
    let mut state = SessionState::new();
    let effects = client_event(
        &mut state,
        start(
            " key ",
            " model\n",
            Some("  https://example.test/v1  "),
            Some(PermissionMode::Auto),
        ),
    )
    .unwrap();
    let sessions = state.list_sessions();
    assert_eq!(sessions.len(), 1);
    let id = sessions[0].id.clone();
    assert!(id.starts_with("session-"));
    assert_eq!(sessions[0].status, SessionStatus::Running);
    assert_eq!(sessions[0].title, "Title");
    assert_eq!(sessions[0].model, Some("model".to_string()));
    assert_eq!(sessions[0].provider, Some(ProviderKind::Anthropic));
    let settings = ProviderSettings {
        provider: ProviderKind::Anthropic,
        api_key: "key".to_string(),
        model: "model".to_string(),
        base_url: Some("https://example.test/v1".to_string()),
        permission_mode: PermissionMode::Auto,
    };
    assert_eq!(state.get_provider(&id), Some(settings.clone()));
    assert_eq!(
        effects,
        vec![
            Effect::Emit {
                event: ServerEvent::SessionStatus {
                    session_id: id.clone(),
                    status: SessionStatus::Running,
                    title: Some("Title".to_string()),
                    cwd: Some("/work".to_string()),
                    error: None,
                }
            },
            Effect::RecordPrompt {
                session_id: id.clone(),
                prompt: "hi".to_string()
            },
            Effect::Emit {
                event: ServerEvent::StreamUserPrompt {
                    session_id: id.clone(),
                    prompt: "hi".to_string()
                }
            },
            Effect::Spawn {
                session_id: id.clone(),
                provider: settings
            },
        ]
    );
    assert!(state.get_messages(&id).is_empty());
    record_user_prompt(&mut state, &id, "hi");
    assert_eq!(state.get_messages(&id), vec![user_prompt_message("hi")]);
}

#[test]
fn a_start_asks_by_default_and_drops_an_empty_base_url() {
    let mut state = SessionState::new();
    client_event(&mut state, start("k", "m", Some("   "), None)).unwrap();
    let id = state.list_sessions()[0].id.clone();
    let settings = state.get_provider(&id).unwrap();
    assert_eq!(settings.permission_mode, PermissionMode::Ask);
    assert_eq!(settings.base_url, None);
    assert_eq!(normalize_base_url(None), None);
    assert_eq!(normalize_base_url(Some(String::new())), None);
    assert_eq!(
        normalize_base_url(Some(" u ".to_string())),
        Some("u".to_string())
    );
}

#[test]
fn a_continue_needs_its_session_and_its_settings() {
    let mut state = SessionState::new();
    assert_eq!(
        client_event(
            &mut state,
            ClientEvent::SessionContinue {
                session_id: "nobody".into(),
                prompt: "more".into()
            }
        ),
        Ok(runner_error(None, "Session not found."))
    );
    assert!(state.get_messages("nobody").is_empty());
}

#[test]
fn a_continue_sets_the_session_running_again() {
    let mut state = SessionState::new();
    let settings = ProviderSettings {
        provider: ProviderKind::OpenAI,
        api_key: "k".to_string(),
        model: "m".to_string(),
        base_url: None,
        permission_mode: PermissionMode::Ask,
    };
    let id = state
        .create_session_at("t".into(), None, settings.clone(), 5)
        .id;
    state.update_session_at(&id, SessionStatus::Completed, None, None, 6);
    let effects = client_event(
        &mut state,
        ClientEvent::SessionContinue {
            session_id: id.clone(),
            prompt: "more".into(),
        },
    )
    .unwrap();
    assert_eq!(
        state.get_session(&id).unwrap().status,
        SessionStatus::Running
    );
    assert_eq!(
        effects,
        vec![
            Effect::Emit {
                event: ServerEvent::SessionStatus {
                    session_id: id.clone(),
                    status: SessionStatus::Running,
                    title: None,
                    cwd: None,
                    error: None,
                }
            },
            Effect::RecordPrompt {
                session_id: id.clone(),
                prompt: "more".to_string()
            },
            Effect::Emit {
                event: ServerEvent::StreamUserPrompt {
                    session_id: id.clone(),
                    prompt: "more".to_string()
                }
            },
            Effect::Spawn {
                session_id: id.clone(),
                provider: settings
            },
        ]
    );
}

#[test]
fn a_stop_sets_the_session_idle() {
    let mut state = SessionState::new();
    let settings = ProviderSettings {
        provider: ProviderKind::OpenAI,
        api_key: "k".to_string(),
        model: "m".to_string(),
        base_url: None,
        permission_mode: PermissionMode::Ask,
    };
    let id = state
        .create_session_at("t".into(), Some("/w".into()), settings, 5)
        .id;
    assert_eq!(
        client_event(
            &mut state,
            ClientEvent::SessionStop {
                session_id: id.clone()
            }
        ),
        Ok(vec![Effect::Emit {
            event: ServerEvent::SessionStatus {
                session_id: id.clone(),
                status: SessionStatus::Idle,
                title: Some("t".to_string()),
                cwd: Some("/w".to_string()),
                error: None,
            }
        }])
    );
    assert_eq!(state.get_session(&id).unwrap().status, SessionStatus::Idle);
    assert_eq!(
        client_event(
            &mut state,
            ClientEvent::SessionStop {
                session_id: "nobody".into()
            }
        ),
        Err("Session not found.".to_string())
    );
}

#[test]
fn a_delete_removes_the_session_and_says_so() {
    let mut state = SessionState::new();
    client_event(&mut state, start("k", "m", None, None)).unwrap();
    let id = state.list_sessions()[0].id.clone();
    state.add_message(&id, Json::Null);
    assert_eq!(
        client_event(
            &mut state,
            ClientEvent::SessionDelete {
                session_id: id.clone()
            }
        ),
        Ok(vec![Effect::Emit {
            event: ServerEvent::SessionDeleted {
                session_id: id.clone()
            }
        }])
    );
    assert!(state.list_sessions().is_empty());
    assert!(state.get_messages(&id).is_empty());
    assert_eq!(state.get_provider(&id), None);
    assert_eq!(
        client_event(
            &mut state,
            ClientEvent::SessionContinue {
                session_id: id.clone(),
                prompt: "x".into()
            }
        ),
        Ok(runner_error(None, "Session not found."))
    );
}

#[test]
fn history_of_an_unknown_session_is_idle_and_empty() {
    let mut state = SessionState::new();
    assert_eq!(
        client_event(
            &mut state,
            ClientEvent::SessionHistory {
                session_id: "x".into()
            }
        ),
        Ok(vec![Effect::Emit {
            event: ServerEvent::SessionHistory {
                session_id: "x".to_string(),
                status: SessionStatus::Idle,
                messages: vec![],
            }
        }])
    );
    client_event(&mut state, start("k", "m", None, None)).unwrap();
    let id = state.list_sessions()[0].id.clone();
    state.add_message(&id, Json::Unsigned(1));
    assert_eq!(
        client_event(
            &mut state,
            ClientEvent::SessionHistory {
                session_id: id.clone()
            }
        ),
        Ok(vec![Effect::Emit {
            event: ServerEvent::SessionHistory {
                session_id: id,
                status: SessionStatus::Running,
                messages: vec![Json::Unsigned(1)],
            }
        }])
    );
}

#[test]
fn the_list_shows_every_session() {
    let mut state = SessionState::new();
    assert_eq!(
        client_event(&mut state, ClientEvent::SessionList),
        Ok(vec![Effect::Emit {
            event: ServerEvent::SessionList { sessions: vec![] }
        }])
    );
    client_event(&mut state, start("k", "m", None, None)).unwrap();
    let sessions = state.list_sessions();
    assert_eq!(
        session_list(&state),
        ServerEvent::SessionList {
            sessions: sessions.clone()
        }
    );
    assert_eq!(
        client_event(&mut state, ClientEvent::SessionList),
        Ok(vec![Effect::Emit {
            event: ServerEvent::SessionList { sessions }
        }])
    );
}

#[test]
fn a_permission_response_answers_the_pending_request() {
    let mut state = SessionState::new();
    let (sender, mut receiver) = oneshot::channel::<Json>();
    state.register_permission("t1".to_string(), sender).unwrap();
    let response = |result: Json| ClientEvent::PermissionResponse {
        session_id: "s".to_string(),
        tool_use_id: "t1".to_string(),
        result,
    };
    assert_eq!(
        client_event(&mut state, response(Json::Bool(true))),
        Ok(vec![])
    );
    assert_eq!(receiver.try_recv(), Ok(Json::Bool(true)));
    assert_eq!(
        client_event(&mut state, response(Json::Bool(false))),
        Ok(vec![])
    );
}

#[test]
fn recent_directories_are_listed_within_bounds() {
    let mut state = SessionState::new();
    let settings = ProviderSettings {
        provider: ProviderKind::OpenAI,
        api_key: "k".to_string(),
        model: "m".to_string(),
        base_url: None,
        permission_mode: PermissionMode::Ask,
    };
    for n in 0..30 {
        state.create_session_at("t".into(), Some(format!("/d{}", n)), settings.clone(), n);
    }
    assert_eq!(recent_cwds(&state, None).len(), 8);
    assert_eq!(recent_cwds(&state, Some(0)), vec!["/d29"]);
    assert_eq!(recent_cwds(&state, Some(3)), vec!["/d29", "/d28", "/d27"]);
    assert_eq!(recent_cwds(&state, Some(20)).len(), 20);
    assert_eq!(recent_cwds(&state, Some(1000)).len(), 20);
}

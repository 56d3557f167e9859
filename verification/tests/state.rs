use open_cowork::events::{PermissionMode, SessionInfo, SessionStatus};
use open_cowork::json::Json;
use open_cowork::providers::registry::ProviderKind;
use open_cowork::state::{contains_text, ProviderSettings, SessionState};
use tokio::sync::oneshot;

fn settings(kind: ProviderKind, mode: PermissionMode) -> ProviderSettings {
    ProviderSettings {
        provider: kind,
        api_key: "key".to_string(),
        model: "model".to_string(),
        base_url: None,
        permission_mode: mode,
    }
}

fn ask() -> ProviderSettings {
    settings(ProviderKind::OpenAI, PermissionMode::Ask)
}

#[test]
fn a_created_session_runs_under_its_id() {
    let mut state = SessionState::new();
    let session = state.create_session_at(
        "Title".to_string(),
        Some("/work".to_string()),
        settings(ProviderKind::Anthropic, PermissionMode::Auto),
        1_700_000_000_123,
    );
    assert_eq!(
        session,
        SessionInfo {
            id: "session-1700000000123".to_string(),
            title: "Title".to_string(),
            status: SessionStatus::Running,
            cwd: Some("/work".to_string()),
            claude_session_id: None,
            provider: Some(ProviderKind::Anthropic),
            model: Some("model".to_string()),
            created_at: 1_700_000_000_123,
            updated_at: 1_700_000_000_123,
        }
    );
    assert_eq!(state.get_session(&session.id), Some(session.clone()));
    assert_eq!(
        state.get_provider(&session.id),
        Some(settings(ProviderKind::Anthropic, PermissionMode::Auto))
    );
    assert!(state.get_messages(&session.id).is_empty());
    assert_eq!(state.get_session("session-1"), None);
    assert_eq!(state.get_provider("session-1"), None);
}

#[test]
fn session_ids_carry_the_sign_of_their_time() {
    let mut state = SessionState::new();
    assert_eq!(
        state.create_session_at("a".into(), None, ask(), 0).id,
        "session-0"
    );
    assert_eq!(
        state.create_session_at("b".into(), None, ask(), -5).id,
        "session--5"
    );
    assert_eq!(
        state
            .create_session_at("c".into(), None, ask(), i64::MIN)
            .id,
        "session--9223372036854775808"
    );
    assert_eq!(
        state
            .create_session_at("d".into(), None, ask(), i64::MAX)
            .id,
        "session-9223372036854775807"
    );
}

#[test]
fn a_session_created_at_the_time_of_another_takes_its_place() {
    let mut state = SessionState::new();
    let first = state.create_session_at("first".into(), None, ask(), 7);
    state.add_message(&first.id, Json::Unsigned(1));
    let second = state.create_session_at(
        "second".into(),
        None,
        settings(ProviderKind::Anthropic, PermissionMode::Auto),
        7,
    );
    assert_eq!(second.id, first.id);
    assert_eq!(state.list_sessions().len(), 1);
    assert_eq!(state.get_session(&first.id).unwrap().title, "second");
    assert_eq!(state.get_messages(&first.id), vec![Json::Unsigned(1)]);
    assert_eq!(
        state.get_provider(&first.id).unwrap().permission_mode,
        PermissionMode::Auto
    );
}

#[test]
fn sessions_are_created_at_the_present_time() {
    let before = std::time::SystemTime::now()
        .duration_since(std::time::UNIX_EPOCH)
        .unwrap()
        .as_millis() as i64;
    let mut state = SessionState::new();
    let session = state.create_session("t".into(), None, ask());
    let after = std::time::SystemTime::now()
        .duration_since(std::time::UNIX_EPOCH)
        .unwrap()
        .as_millis() as i64;
    assert!(before > 1_600_000_000_000);
    assert!(before <= session.created_at && session.created_at <= after);
    assert_eq!(session.created_at, session.updated_at);
    assert_eq!(session.id, format!("session-{}", session.created_at));
}

#[test]
fn updates_change_what_they_name() {
    let mut state = SessionState::new();
    let session = state.create_session_at("old".into(), Some("/a".into()), ask(), 10);
    let updated = state
        .update_session_at(&session.id, SessionStatus::Completed, None, None, 20)
        .unwrap();
    assert_eq!(updated.status, SessionStatus::Completed);
    assert_eq!(updated.title, "old");
    assert_eq!(updated.cwd, Some("/a".to_string()));
    assert_eq!(updated.created_at, 10);
    assert_eq!(updated.updated_at, 20);
    let renamed = state
        .update_session_at(
            &session.id,
            SessionStatus::Idle,
            Some("new".into()),
            Some("/b".into()),
            30,
        )
        .unwrap();
    assert_eq!(renamed.title, "new");
    assert_eq!(renamed.cwd, Some("/b".to_string()));
    assert_eq!(state.get_session(&session.id), Some(renamed));
    assert_eq!(
        state.update_session_at("nobody", SessionStatus::Error, None, None, 40),
        None
    );
    assert_eq!(
        state.update_session("nobody", SessionStatus::Error, None, None),
        None
    );
    let now = state
        .update_session(&session.id, SessionStatus::Running, None, None)
        .unwrap();
    assert!(now.updated_at > 30);
    state.set_status(&session.id, SessionStatus::Error);
    assert_eq!(
        state.get_session(&session.id).unwrap().status,
        SessionStatus::Error
    );
}

#[test]
fn messages_are_appended_in_order() {
    let mut state = SessionState::new();
    state.add_message("s", Json::Unsigned(1));
    state.add_message("t", Json::Unsigned(9));
    state.add_message("s", Json::Unsigned(2));
    state.add_message("s", Json::Unsigned(3));
    assert_eq!(
        state.get_messages("s"),
        vec![Json::Unsigned(1), Json::Unsigned(2), Json::Unsigned(3)]
    );
    assert_eq!(state.get_messages("t"), vec![Json::Unsigned(9)]);
    assert!(state.get_messages("u").is_empty());
}

#[test]
fn deleting_removes_session_log_and_settings() {
    let mut state = SessionState::new();
    let a = state.create_session_at("a".into(), None, ask(), 1);
    let b = state.create_session_at("b".into(), None, ask(), 2);
    state.add_message(&a.id, Json::Null);
    state.delete_session(&a.id);
    assert_eq!(state.get_session(&a.id), None);
    assert_eq!(state.get_provider(&a.id), None);
    assert!(state.get_messages(&a.id).is_empty());
    assert_eq!(state.get_session(&b.id), Some(b));
    state.delete_session("nobody");
    assert_eq!(state.list_sessions().len(), 1);
}

#[test]
fn sessions_are_listed_by_their_last_change() {
    let mut state = SessionState::new();
    let c = state.create_session_at("c".into(), None, ask(), 30);
    let a = state.create_session_at("a".into(), None, ask(), 10);
    let b = state.create_session_at("b".into(), None, ask(), 20);
    let titles: Vec<String> = state.list_sessions().into_iter().map(|s| s.title).collect();
    assert_eq!(titles, vec!["a", "b", "c"]);
    state.update_session_at(&a.id, SessionStatus::Idle, None, None, 40);
    let titles: Vec<String> = state.list_sessions().into_iter().map(|s| s.title).collect();
    assert_eq!(titles, vec!["b", "c", "a"]);
    state.update_session_at(&b.id, SessionStatus::Idle, None, None, 40);
    state.update_session_at(&c.id, SessionStatus::Idle, None, None, 40);
    let titles: Vec<String> = state.list_sessions().into_iter().map(|s| s.title).collect();
    assert_eq!(titles, vec!["c", "a", "b"]);
    assert!(SessionState::new().list_sessions().is_empty());
}

#[test]
fn recent_directories_come_once_and_newest_first() {
    let mut state = SessionState::new();
    state.create_session_at("1".into(), Some("/a".into()), ask(), 1);
    state.create_session_at("2".into(), Some("/b".into()), ask(), 2);
    state.create_session_at("3".into(), None, ask(), 3);
    state.create_session_at("4".into(), Some("/a".into()), ask(), 4);
    state.create_session_at("5".into(), Some("/c".into()), ask(), 5);
    assert_eq!(state.list_recent_cwds(10), vec!["/c", "/a", "/b"]);
    assert_eq!(state.list_recent_cwds(2), vec!["/c", "/a"]);
    assert_eq!(state.list_recent_cwds(1), vec!["/c"]);
    assert_eq!(state.list_recent_cwds(0), vec!["/c"]);
    assert!(SessionState::new().list_recent_cwds(5).is_empty());
    let mut none_first = SessionState::new();
    none_first.create_session_at("1".into(), Some("/a".into()), ask(), 1);
    none_first.create_session_at("2".into(), None, ask(), 2);
    assert!(none_first.list_recent_cwds(0).is_empty());
    assert_eq!(none_first.list_recent_cwds(1), vec!["/a"]);
}

#[test]
fn a_permission_request_is_pending_once() {
    let mut state = SessionState::new();
    let (first, mut first_answer) = oneshot::channel::<Json>();
    let (second, mut second_answer) = oneshot::channel::<Json>();
    assert_eq!(state.register_permission("t1".to_string(), first), Ok(()));
    assert_eq!(
        state.register_permission("t1".to_string(), second),
        Err("permission request already pending".to_string())
    );
    assert!(second_answer.try_recv().is_err());
    assert!(state.resolve_permission("t1", Json::Bool(true)));
    assert_eq!(first_answer.try_recv(), Ok(Json::Bool(true)));
    assert!(!state.resolve_permission("t1", Json::Bool(false)));
    let (third, mut third_answer) = oneshot::channel::<Json>();
    assert_eq!(state.register_permission("t1".to_string(), third), Ok(()));
    assert!(state.resolve_permission("t1", Json::Null));
    assert_eq!(third_answer.try_recv(), Ok(Json::Null));
}

#[test]
fn answers_find_their_own_request() {
    let mut state = SessionState::new();
    let (a, mut a_answer) = oneshot::channel::<Json>();
    let (b, mut b_answer) = oneshot::channel::<Json>();
    state.register_permission("a".to_string(), a).unwrap();
    state.register_permission("b".to_string(), b).unwrap();
    assert!(!state.resolve_permission("c", Json::Null));
    assert!(state.resolve_permission("b", Json::Unsigned(2)));
    assert!(a_answer.try_recv().is_err());
    assert_eq!(b_answer.try_recv(), Ok(Json::Unsigned(2)));
    state.delete_session("a");
    assert!(state.resolve_permission("a", Json::Unsigned(1)));
    assert_eq!(a_answer.try_recv(), Ok(Json::Unsigned(1)));
}

#[test]
fn an_answer_to_a_gone_receiver_is_dropped() {
    let mut state = SessionState::new();
    let (sender, receiver) = oneshot::channel::<Json>();
    state.register_permission("t".to_string(), sender).unwrap();
    drop(receiver);
    assert!(state.resolve_permission("t", Json::Null));
}

#[test]
fn texts_are_found_in_lists() {
    let list = vec!["a".to_string(), "b".to_string()];
    assert!(contains_text(&list, "b"));
    assert!(!contains_text(&list, "c"));
    assert!(!contains_text(&Vec::new(), ""));
}

#[test]
fn the_default_registry_is_empty() {
    let state = SessionState::default();
    assert!(state.list_sessions().is_empty());
    assert!(state.get_messages("s").is_empty());
}

#[test]
fn settings_clone() {
    assert_eq!(ask().clone(), ask());
}

#[test]
fn a_withdrawn_request_cannot_be_answered() {
    let mut state = SessionState::new();
    let (a, mut a_answer) = oneshot::channel::<Json>();
    let (b, mut b_answer) = oneshot::channel::<Json>();
    state.register_permission("a".to_string(), a).unwrap();
    state.register_permission("b".to_string(), b).unwrap();
    assert!(state.cancel_permission("a"));
    assert!(!state.cancel_permission("a"));
    assert!(!state.cancel_permission("c"));
    assert!(!state.resolve_permission("a", Json::Bool(true)));
    assert!(a_answer.try_recv().is_err());
    assert!(state.resolve_permission("b", Json::Bool(true)));
    assert_eq!(b_answer.try_recv(), Ok(Json::Bool(true)));
    let (again, _waiting) = oneshot::channel::<Json>();
    assert_eq!(state.register_permission("a".to_string(), again), Ok(()));
}

#[test]
fn sessions_created_at_different_times_have_different_ids() {
    let mut state = SessionState::new();
    let times = [-10i64, -1, 0, 1, 10, 100, 101, 1_700_000_000_000];
    for now in times {
        state.create_session_at("t".into(), None, ask(), now);
    }
    let mut ids: Vec<String> = state.list_sessions().into_iter().map(|s| s.id).collect();
    assert_eq!(ids.len(), times.len());
    ids.sort();
    ids.dedup();
    assert_eq!(ids.len(), times.len());
    for now in times {
        let id = format!("session-{}", now);
        assert_eq!(state.get_session(&id).map(|s| s.created_at), Some(now));
    }
}

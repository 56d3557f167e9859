//! The commands that a client sends, and what each of them brings about.
//!
//! A command changes the registry and makes effects due: events to send, a
//! prompt to record, a runner to start. The effects are handed back in the
//! order in which they are to happen; the caller carries them out, and
//! stops at the first event that cannot be sent.

use vstd::prelude::*;
use crate::events::{
    maybe, status_event, ClientEvent, EventView, PermissionMode, ServerEvent, SessionInfo,
    SessionStatus,
};
use crate::history::{user_prompt_message, user_prompt_record};
use crate::keyed::{lookup, values, without};
use crate::log_rules::{lemma_append_prompt, sound};
use crate::providers::registry::{clone_text, ProviderKind};
use crate::state::{by_update, session_created, status_set, ProviderSettings, SessionState};
use crate::runner::settles;
use crate::text::{trim, trimmed};

verus! {

/// One thing that a command makes due.
#[allow(inconsistent_fields)]
#[derive(Debug, PartialEq)]
pub enum Effect {
    /// Send `event` to the client.
    Emit { event: ServerEvent },
    /// Record `prompt` in the log of the session `session_id`.
    RecordPrompt { session_id: String, prompt: String },
    /// Start a runner for the session `session_id` with the settings
    /// `provider`.
    Spawn { session_id: String, provider: ProviderSettings },
}

/// The value of an [`Effect`].
#[allow(inconsistent_fields)]
pub enum EffectView {
    Emit { event: EventView },
    RecordPrompt { session_id: Seq<char>, prompt: Seq<char> },
    Spawn { session_id: Seq<char>, provider: ProviderSettings },
}

impl View for Effect {
    type V = EffectView;

    open spec fn view(&self) -> EffectView {
        match self {
            Effect::Emit { event } => EffectView::Emit { event: event@ },
            Effect::RecordPrompt { session_id, prompt } => EffectView::RecordPrompt {
                session_id: session_id@,
                prompt: prompt@,
            },
            Effect::Spawn { session_id, provider } => EffectView::Spawn {
                session_id: session_id@,
                provider: *provider,
            },
        }
    }
}

/// The values of a list of effects.
pub open spec fn effect_views(effects: Seq<Effect>) -> Seq<EffectView> {
    Seq::new(effects.len(), |i: int| effects[i]@)
}

/// The base URL that a session uses where the client gave `base_url`: the
/// trimmed text, or none where that is empty or nothing was given.
pub open spec fn normalized(base_url: Option<Seq<char>>) -> Option<Seq<char>> {
    match base_url {
        Some(value) => if trim(value).len() == 0 {
            None
        } else {
            Some(trim(value))
        },
        None => None,
    }
}

/// The base URL that a session uses where the client gave `base_url`.
pub fn normalize_base_url(base_url: Option<String>) -> (r: Option<String>)
    ensures
        maybe(r) == normalized(maybe(base_url)),
{
    match base_url {
        Some(value) => {
            let t = trimmed(value.as_str());
            if t.as_str().is_empty() {
                None
            } else {
                Some(t)
            }
        },
        None => None,
    }
}

/// The message for a start without API key or model.
pub open spec fn missing_credentials() -> Seq<char> {
    "API Key 或 Model 不能为空。"@
}

/// The message for a command that names no known session.
pub open spec fn unknown_session() -> Seq<char> {
    "Session not found."@
}

/// The message for a session whose provider settings are gone.
pub open spec fn missing_provider() -> Seq<char> {
    "Session provider config missing."@
}

/// The event that a runner could not go on, with the reason.
pub open spec fn runner_error(session_id: Option<Seq<char>>, message: Seq<char>) -> EffectView {
    EffectView::Emit { event: EventView::RunnerError { session_id, message } }
}

/// None of the effects shows the client that a session has completed or
/// failed: only a session's runner says so, as the last thing it does.
pub open spec fn unsettling(effects: Seq<EffectView>) -> bool {
    forall|i: int|
        0 <= i < effects.len() ==> !((#[trigger] effects[i]) matches EffectView::Emit { event }
            && settles(event))
}

/// The effects of a turn that begins with `prompt` in the session
/// `session_id`, after the event `status` of its being under way: the
/// prompt is recorded, then shown, and the runner starts.
pub open spec fn turn_effects(
    status: EventView,
    session_id: Seq<char>,
    prompt: Seq<char>,
    provider: ProviderSettings,
) -> Seq<EffectView> {
    seq![
        EffectView::Emit { event: status },
        EffectView::RecordPrompt { session_id, prompt },
        EffectView::Emit { event: EventView::StreamUserPrompt { session_id, prompt } },
        EffectView::Spawn { session_id, provider },
    ]
}

/// The settings with which a session starts: the API key and the model
/// trimmed, the base URL normalized, and asking as the permission mode
/// unless another is given.
pub open spec fn start_settings(
    settings: ProviderSettings,
    provider: ProviderKind,
    api_key: Seq<char>,
    model: Seq<char>,
    base_url: Option<Seq<char>>,
    permission_mode: Option<PermissionMode>,
) -> bool {
    &&& settings.provider == provider
    &&& settings.api_key@ == trim(api_key)
    &&& settings.model@ == trim(model)
    &&& maybe(settings.base_url) == normalized(base_url)
    &&& settings.permission_mode == match permission_mode {
        Some(mode) => mode,
        None => PermissionMode::Ask,
    }
}

/// The status of the session `id`; idle where it is not known.
pub open spec fn status_of(state: SessionState, id: Seq<char>) -> SessionStatus {
    match lookup(state.sessions(), id) {
        Some(session) => session.status,
        None => SessionStatus::Idle,
    }
}

/// Records `prompt` as a user's prompt in the log of the session
/// `session_id`.
pub fn record_user_prompt(state: &mut SessionState, session_id: &str, prompt: &str)
    requires
        old(state).wf(),
    ensures
        final(state).wf(),
        final(state).log_of(session_id@) == old(state).log_of(session_id@).push(
            user_prompt_record(prompt@),
        ),
        final(state).sessions() == old(state).sessions(),
        final(state).providers() == old(state).providers(),
        final(state).pending() == old(state).pending(),
        sound(old(state).log_of(session_id@)) ==> sound(final(state).log_of(session_id@)),
{
    proof {
        if sound(state.log_of(session_id@)) {
            lemma_append_prompt(state.log_of(session_id@), prompt@);
        }
    }
    state.add_message(session_id, user_prompt_message(prompt));
}

/// The effects of a turn that begins with `prompt`.
fn begin_turn(
    status: ServerEvent,
    session_id: String,
    prompt: String,
    provider: ProviderSettings,
) -> (r: Vec<Effect>)
    ensures
        effect_views(r@) == turn_effects(status@, session_id@, prompt@, provider),
        r@.len() == 4,
        r@[3] == (Effect::Spawn { session_id, provider }),
{
    let mut effects: Vec<Effect> = Vec::new();
    effects.push(Effect::Emit { event: status });
    effects.push(Effect::RecordPrompt { session_id: session_id.clone(), prompt: prompt.clone() });
    effects.push(
        Effect::Emit {
            event: ServerEvent::StreamUserPrompt { session_id: session_id.clone(), prompt },
        },
    );
    effects.push(Effect::Spawn { session_id, provider });
    assert(effect_views(effects@) =~= turn_effects(status@, session_id@, prompt@, provider));
    effects
}

/// The one effect of sending `event`.
fn emit_only(event: ServerEvent) -> (r: Vec<Effect>)
    ensures
        effect_views(r@) == seq![EffectView::Emit { event: event@ }],
{
    let mut effects: Vec<Effect> = Vec::new();
    effects.push(Effect::Emit { event });
    assert(effect_views(effects@) =~= seq![EffectView::Emit { event: event@ }]);
    effects
}

/// Carries out the command `event` on the registry and hands back the
/// effects that it makes due, in order.
///
/// - `SessionList` lists the sessions.
/// - `SessionHistory` shows the status and the log of a session; an unknown
///   session is idle and has an empty log.
/// - `SessionStart` without API key or model, white space aside, reports
///   that and changes nothing. Otherwise it creates the session and begins
///   its first turn.
/// - `SessionContinue` reports an unknown session or missing settings and
///   changes nothing. Otherwise it sets the session running and begins a
///   turn.
/// - `SessionStop` sets the session idle and shows it; for an unknown
///   session it fails.
/// - `SessionDelete` removes the session, its log and its settings.
/// - `PermissionResponse` answers the pending permission request, if there
///   is one under that id.
pub fn client_event(state: &mut SessionState, event: ClientEvent) -> (r: Result<
    Vec<Effect>,
    String,
>)
    requires
        old(state).wf(),
    ensures
        final(state).wf(),
        r matches Ok(effects) ==> unsettling(effect_views(effects@)),
        match event {
            ClientEvent::SessionList => {
                &&& *final(state) == *old(state)
                &&& r matches Ok(effects)
                &&& effect_views(effects@) == seq![
                    EffectView::Emit {
                        event: EventView::SessionList {
                            sessions: by_update(values(old(state).sessions())),
                        },
                    },
                ]
            },
            ClientEvent::SessionHistory { session_id } => {
                &&& *final(state) == *old(state)
                &&& r matches Ok(effects)
                &&& effect_views(effects@) == seq![
                    EffectView::Emit {
                        event: EventView::SessionHistory {
                            session_id: session_id@,
                            status: status_of(*old(state), session_id@),
                            messages: old(state).log_of(session_id@),
                        },
                    },
                ]
            },
            ClientEvent::SessionStart {
                title,
                prompt,
                cwd,
                provider,
                api_key,
                model,
                base_url,
                permission_mode,
                allowed_tools,
            } => if trim(api_key@).len() == 0 || trim(model@).len() == 0 {
                &&& *final(state) == *old(state)
                &&& r matches Ok(effects)
                &&& effect_views(effects@) == seq![runner_error(None, missing_credentials())]
            } else {
                &&& r matches Ok(effects)
                &&& effects@.len() == 4
                &&& effects@[3] matches Effect::Spawn { session_id, provider: settings }
                &&& start_settings(
                    settings,
                    provider,
                    api_key@,
                    model@,
                    maybe(base_url),
                    permission_mode,
                )
                &&& exists|session: SessionInfo| #[trigger]
                    session_created(*old(state), *final(state), session, title, cwd, settings)
                        && session.id@ == session_id@
                &&& effect_views(effects@) == turn_effects(
                    EventView::SessionStatus {
                        session_id: session_id@,
                        status: SessionStatus::Running,
                        title: Some(title@),
                        cwd: maybe(cwd),
                        error: None,
                    },
                    session_id@,
                    prompt@,
                    settings,
                )
            },
            ClientEvent::SessionContinue { session_id, prompt } => if lookup(
                old(state).sessions(),
                session_id@,
            ) is None {
                &&& *final(state) == *old(state)
                &&& r matches Ok(effects)
                &&& effect_views(effects@) == seq![runner_error(None, unknown_session())]
            } else {
                match lookup(old(state).providers(), session_id@) {
                    None => {
                        &&& *final(state) == *old(state)
                        &&& r matches Ok(effects)
                        &&& effect_views(effects@) == seq![
                            runner_error(Some(session_id@), missing_provider()),
                        ]
                    },
                    Some(settings) => {
                        &&& status_set(
                            *old(state),
                            *final(state),
                            session_id@,
                            SessionStatus::Running,
                        )
                        &&& r matches Ok(effects)
                        &&& effect_views(effects@) == turn_effects(
                            status_event(session_id@, SessionStatus::Running, None),
                            session_id@,
                            prompt@,
                            settings,
                        )
                    },
                }
            },
            ClientEvent::SessionStop { session_id } => match lookup(
                old(state).sessions(),
                session_id@,
            ) {
                Some(session) => {
                    &&& status_set(*old(state), *final(state), session_id@, SessionStatus::Idle)
                    &&& r matches Ok(effects)
                    &&& effect_views(effects@) == seq![
                        EffectView::Emit {
                            event: EventView::SessionStatus {
                                session_id: session.id@,
                                status: SessionStatus::Idle,
                                title: Some(session.title@),
                                cwd: maybe(session.cwd),
                                error: None,
                            },
                        },
                    ]
                },
                None => {
                    &&& *final(state) == *old(state)
                    &&& r matches Err(e)
                    &&& e@ == unknown_session()
                },
            },
            ClientEvent::SessionDelete { session_id } => {
                &&& final(state).sessions() == without(old(state).sessions(), session_id@)
                &&& final(state).logs() == without(old(state).logs(), session_id@)
                &&& final(state).providers() == without(old(state).providers(), session_id@)
                &&& final(state).pending() == old(state).pending()
                &&& r matches Ok(effects)
                &&& effect_views(effects@) == seq![
                    EffectView::Emit {
                        event: EventView::SessionDeleted { session_id: session_id@ },
                    },
                ]
            },
            ClientEvent::PermissionResponse { session_id, tool_use_id, result } => {
                &&& final(state).pending() == without(old(state).pending(), tool_use_id@)
                &&& final(state).sessions() == old(state).sessions()
                &&& final(state).logs() == old(state).logs()
                &&& final(state).providers() == old(state).providers()
                &&& r matches Ok(effects)
                &&& effects@.len() == 0
            },
        },
{
    match event {
        ClientEvent::SessionList => {
            Ok(emit_only(ServerEvent::SessionList { sessions: state.list_sessions() }))
        },
        ClientEvent::SessionHistory { session_id } => {
            let status = match state.get_session(session_id.as_str()) {
                Some(session) => session.status,
                None => SessionStatus::Idle,
            };
            let messages = state.get_messages(session_id.as_str());
            Ok(emit_only(ServerEvent::SessionHistory { session_id, status, messages }))
        },
        ClientEvent::SessionStart {
            title,
            prompt,
            cwd,
            provider,
            api_key,
            model,
            base_url,
            permission_mode,
            allowed_tools: _,
        } => {
            let api_key = trimmed(api_key.as_str());
            let model = trimmed(model.as_str());
            if api_key.as_str().is_empty() || model.as_str().is_empty() {
                return Ok(
                    emit_only(
                        ServerEvent::RunnerError {
                            session_id: None,
                            message: "API Key 或 Model 不能为空。".to_string(),
                        },
                    ),
                );
            }
            let settings = ProviderSettings {
                provider,
                api_key,
                model,
                base_url: normalize_base_url(base_url),
                permission_mode: match permission_mode {
                    Some(mode) => mode,
                    None => PermissionMode::Ask,
                },
            };
            let shown_title = title.clone();
            let shown_cwd = clone_text(&cwd);
            let session = state.create_session(title, cwd, settings.clone());
            let status = ServerEvent::SessionStatus {
                session_id: session.id.clone(),
                status: SessionStatus::Running,
                title: Some(shown_title),
                cwd: shown_cwd,
                error: None,
            };
            Ok(begin_turn(status, session.id, prompt, settings))
        },
        ClientEvent::SessionContinue { session_id, prompt } => {
            if state.get_session(session_id.as_str()).is_none() {
                return Ok(
                    emit_only(
                        ServerEvent::RunnerError {
                            session_id: None,
                            message: "Session not found.".to_string(),
                        },
                    ),
                );
            }
            let settings = match state.get_provider(session_id.as_str()) {
                Some(settings) => settings,
                None => {
                    return Ok(
                        emit_only(
                            ServerEvent::RunnerError {
                                session_id: Some(session_id),
                                message: "Session provider config missing.".to_string(),
                            },
                        ),
                    );
                },
            };
            state.set_status(session_id.as_str(), SessionStatus::Running);
            let status = ServerEvent::SessionStatus {
                session_id: session_id.clone(),
                status: SessionStatus::Running,
                title: None,
                cwd: None,
                error: None,
            };
            Ok(begin_turn(status, session_id, prompt, settings))
        },
        ClientEvent::SessionStop { session_id } => {
            match state.update_session(session_id.as_str(), SessionStatus::Idle, None, None) {
                Some(session) => Ok(
                    emit_only(
                        ServerEvent::SessionStatus {
                            session_id: session.id,
                            status: session.status,
                            title: Some(session.title),
                            cwd: session.cwd,
                            error: None,
                        },
                    ),
                ),
                None => Err("Session not found.".to_string()),
            }
        },
        ClientEvent::SessionDelete { session_id } => {
            state.delete_session(session_id.as_str());
            Ok(emit_only(ServerEvent::SessionDeleted { session_id }))
        },
        ClientEvent::PermissionResponse { session_id: _, tool_use_id, result } => {
            let _ = state.resolve_permission(tool_use_id.as_str(), result);
            Ok(Vec::new())
        },
    }
}

} // verus!

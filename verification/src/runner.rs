//! The session runner: the loop of model turns and tool calls of one
//! session, as a machine of steps.
//!
//! The machine decides; its caller acts. Each step writes to the registry,
//! hands back the events that are now due, in order, and says what is to
//! be done next: run a turn of the model, ask the user for permission, run
//! a tool, or call the machine again. The caller sends the events, does
//! what was asked and reports what came of it with the next step.

use vstd::prelude::*;
use crate::config::{must_stop, should_stop_tool_loop};
use crate::events::{
    event_views, message_event, push_event, status_changed_event, status_event, stream_message,
    EventView, PermissionMode, ServerEvent, SessionStatus,
};
use crate::history::{build_tool_result_message, record, tool_result_message, ToolCall};
use crate::json::{json_views, object1, object2, stringify, stringify_value, Json, JsonView};
use crate::keyed::{has_key, lookup};
use crate::log_rules::{called, lemma_append_reply, lemma_append_result, names_call, sound};
use crate::reply::StreamEnd;
use crate::providers::registry::clone_text;
use crate::state::{status_set, status_set_withdrawn, SessionState};
use crate::text::str_eq;
use crate::tools::ToolExecutionResult;

verus! {

/// Seconds that a permission request waits for its answer.
pub const PERMISSION_TIMEOUT_SECS: u64 = 600;

/// The name of the tool that puts a question to the user.
pub open spec fn ask_user_tool() -> Seq<char> {
    "AskUserQuestion"@
}

/// The message of a run that was stopped by the cap on its turns.
pub open spec fn ceiling_message() -> Seq<char> {
    "工具调用循环次数过多，已停止。"@
}

/// Whether a call of the tool `name` waits for the user's answer under the
/// permission mode `mode`: always when asking is the mode, and for the tool
/// that puts a question to the user in any mode.
pub open spec fn asks(mode: PermissionMode, name: Seq<char>) -> bool {
    !(mode == PermissionMode::Auto && name != ask_user_tool())
}

/// Whether a call of the tool `name` waits for the user's answer under the
/// permission mode `mode`.
pub fn needs_permission(mode: PermissionMode, name: &str) -> (r: bool)
    ensures
        r == asks(mode, name@),
{
    !(mode == PermissionMode::Auto && !str_eq(name, "AskUserQuestion"))
}

/// The tool that puts a question to the user waits for the answer in every
/// permission mode.
pub proof fn lemma_ask_user_always_asks(mode: PermissionMode)
    ensures
        asks(mode, ask_user_tool()),
{
}

/// The permission that stands for the user's consent where none is asked:
/// the call is allowed with its input as it is.
pub open spec fn granted(input: JsonView) -> JsonView {
    JsonView::Object(seq![("behavior"@, JsonView::Str("allow"@)), ("updatedInput"@, input)])
}

/// The permission that stands for the user's consent where none is asked.
pub fn auto_permission(input: &Json) -> (r: Json)
    ensures
        r@ == granted(input@),
{
    object2("behavior", Json::string("allow"), "updatedInput", input.clone())
}

/// Whether the answer `permission` allows the call: its `behavior` is
/// `allow`. An answer without one denies.
pub open spec fn allows(permission: JsonView) -> bool {
    permission.str_at("behavior"@) == Some("allow"@)
}

/// What a denial tells the model: the `message` of the answer, or the
/// standard text.
pub open spec fn denial_text(permission: JsonView) -> Seq<char> {
    match permission.str_at("message"@) {
        Some(m) => m,
        None => "User denied the request."@,
    }
}

/// The input with which an allowed call runs: the `updatedInput` of the
/// answer if it has one, else the input of the call.
pub open spec fn effective(permission: JsonView, input: JsonView) -> JsonView {
    match permission.get("updatedInput"@) {
        Some(v) => v,
        None => input,
    }
}

/// Whether the answer `permission` allows the call.
pub fn permission_allows(permission: &Json) -> (r: bool)
    ensures
        r == allows(permission@),
{
    match permission.str_at("behavior") {
        Some(b) => str_eq(b, "allow"),
        None => false,
    }
}

/// What a denial tells the model.
pub fn denial_message(permission: &Json) -> (r: String)
    ensures
        r@ == denial_text(permission@),
{
    match permission.str_at("message") {
        Some(m) => m.to_string(),
        None => "User denied the request.".to_string(),
    }
}

/// The input with which an allowed call runs.
pub fn effective_input(permission: &Json, input: &Json) -> (r: Json)
    ensures
        r@ == effective(permission@, input@),
{
    match permission.get("updatedInput") {
        Some(v) => v.clone(),
        None => input.clone(),
    }
}

/// What became of a permission request.
#[derive(Debug, PartialEq)]
pub enum PermissionWait {
    /// The client answered.
    Answered(Json),
    /// The channel closed without an answer.
    Closed,
    /// No answer came in time.
    TimedOut,
    /// The request could not be filed; the text says why.
    Refused(String),
}

/// The answer that a permission request ended with, or the message of its
/// failure.
pub open spec fn wait_outcome(wait: PermissionWait) -> Result<JsonView, Seq<char>> {
    match wait {
        PermissionWait::Answered(v) => Ok(v@),
        PermissionWait::Closed => Err("Permission channel closed."@),
        PermissionWait::TimedOut => Err("Permission request timed out."@),
        PermissionWait::Refused(e) => Err(e@),
    }
}

/// Whether the request that ended as `wait` is still filed and has to be
/// withdrawn: one that nobody answered, in time or at all. An answered
/// request left the registry with its answer, and a refused one never
/// entered it: the entry under its id is another request's.
pub open spec fn withdraws(wait: PermissionWait) -> bool {
    wait is Closed || wait is TimedOut
}

/// Whether the request that ended as `wait` has to be withdrawn.
pub fn leaves_request(wait: &PermissionWait) -> (r: bool)
    ensures
        r == withdraws(*wait),
{
    match wait {
        PermissionWait::Closed => true,
        PermissionWait::TimedOut => true,
        _ => false,
    }
}

/// The view of an answer or a failure.
pub open spec fn answer_view(r: Result<Json, String>) -> Result<JsonView, Seq<char>> {
    match r {
        Ok(v) => Ok(v@),
        Err(e) => Err(e@),
    }
}

/// The answer that a permission request ended with, or the message of its
/// failure.
pub fn permission_reply(wait: PermissionWait) -> (r: Result<Json, String>)
    ensures
        answer_view(r) == wait_outcome(wait),
{
    match wait {
        PermissionWait::Answered(v) => Ok(v),
        PermissionWait::Closed => Err("Permission channel closed.".to_string()),
        PermissionWait::TimedOut => Err("Permission request timed out.".to_string()),
        PermissionWait::Refused(e) => Err(e),
    }
}

/// Where the runner stands.
#[derive(Debug, Clone, Copy, PartialEq, Eq, Structural)]
pub enum Phase {
    /// Before a turn of the model.
    TurnStart,
    /// A turn of the model is under way.
    Streaming,
    /// A turn has ended; its tool calls are not yet looked at.
    TurnEnd,
    /// Between two tool calls of a turn.
    Dispatch,
    /// A tool call waits for the user's answer.
    AwaitingPermission,
    /// A tool runs.
    Executing,
    /// The run is over.
    Finished,
}

/// What the caller is to do next.
#[allow(inconsistent_fields)]
#[derive(Debug, PartialEq)]
pub enum RunnerAction {
    /// Call [`Runner::resume`].
    Resume,
    /// Run a turn of the model and report it with [`Runner::turn_ended`].
    Stream,
    /// File a permission request under `tool_use_id`, send `request`, wait
    /// for the answer and report it with [`Runner::permission_answered`].
    AskPermission { tool_use_id: String, request: ServerEvent },
    /// Run the tool `name` on `input` in `cwd` and report what it gave with
    /// [`Runner::tool_finished`].
    Execute { name: String, input: Json, cwd: Option<String> },
    /// Stop: the run is over, with this outcome.
    Done { outcome: Result<(), String> },
    /// Nothing: the report did not fit where the runner stands, and was
    /// passed over.
    Ignored,
}

/// The value of a [`RunnerAction`].
#[allow(inconsistent_fields)]
pub enum ActionView {
    Resume,
    Stream,
    AskPermission { tool_use_id: Seq<char>, request: EventView },
    Execute { name: Seq<char>, input: JsonView, cwd: Option<Seq<char>> },
    Done { outcome: Result<(), Seq<char>> },
    Ignored,
}

/// The view of an optional string.
pub open spec fn dir_view(t: Option<String>) -> Option<Seq<char>> {
    match t {
        Some(s) => Some(s@),
        None => None,
    }
}

impl View for RunnerAction {
    type V = ActionView;

    open spec fn view(&self) -> ActionView {
        match self {
            RunnerAction::Resume => ActionView::Resume,
            RunnerAction::Stream => ActionView::Stream,
            RunnerAction::AskPermission { tool_use_id, request } => ActionView::AskPermission {
                tool_use_id: tool_use_id@,
                request: request@,
            },
            RunnerAction::Execute { name, input, cwd } => ActionView::Execute {
                name: name@,
                input: input@,
                cwd: dir_view(*cwd),
            },
            RunnerAction::Done { outcome } => ActionView::Done {
                outcome: match outcome {
                    Ok(_) => Ok(()),
                    Err(e) => Err(e@),
                },
            },
            RunnerAction::Ignored => ActionView::Ignored,
        }
    }
}

/// What a step gave: the events to send, in order, and what to do next.
#[derive(Debug, PartialEq)]
pub struct Step {
    pub events: Vec<ServerEvent>,
    pub action: RunnerAction,
}

/// The runner of one session.
#[derive(Debug, PartialEq)]
pub struct Runner {
    /// The session that is run.
    pub session_id: String,
    /// The cap on the turns of the model; 0 for none.
    pub max_iterations: usize,
    /// The turns begun so far.
    pub iterations: usize,
    /// Where the runner stands.
    pub phase: Phase,
    /// The tool calls of the turn that ended last.
    pub calls: Vec<ToolCall>,
    /// How many of them have been dealt with.
    pub next: usize,
    /// The working directory of the session, as read when the calls came.
    pub cwd: Option<String>,
    /// The permission mode of the session, as read when the calls came.
    pub permission_mode: PermissionMode,
}

/// The event says that a session has completed or failed.
pub open spec fn settles(event: EventView) -> bool {
    event matches EventView::SessionStatus { status, .. } && (status == SessionStatus::Completed
        || status == SessionStatus::Error)
}

/// No event of `events` says that a session has completed or failed.
pub open spec fn quiet(events: Seq<EventView>) -> bool {
    forall|i: int| 0 <= i < events.len() ==> !settles(#[trigger] events[i])
}

/// Of the events `events` only the last may say that a session has
/// completed or failed.
pub open spec fn quiet_but_last(events: Seq<EventView>) -> bool {
    forall|i: int| 0 <= i < events.len() - 1 ==> !settles(#[trigger] events[i])
}

/// The events of one step keep the order of a run. A runner that has
/// finished stays so and sends nothing. One that goes on sends no event
/// that says that the session has completed or failed. One that finishes
/// sends that event once, as its last.
pub open spec fn orderly(before: Phase, after: Phase, events: Seq<EventView>) -> bool {
    if before == Phase::Finished {
        after == Phase::Finished && events.len() == 0
    } else if after == Phase::Finished {
        events.len() > 0 && settles(events.last()) && quiet_but_last(events)
    } else {
        quiet(events)
    }
}

/// One step of a runner as the client sees it: the phases before and after
/// it, and the events that it sent.
pub struct StepView {
    pub before: Phase,
    pub after: Phase,
    pub events: Seq<EventView>,
}

/// The steps are those of one run: each is orderly, and each begins in the
/// phase in which the one before it ended.
pub open spec fn one_run(steps: Seq<StepView>) -> bool {
    &&& forall|i: int|
        0 <= i < steps.len() ==> orderly(
            (#[trigger] steps[i]).before,
            steps[i].after,
            steps[i].events,
        )
    &&& forall|i: int, j: int|
        0 <= i && j == i + 1 && j < steps.len() ==> (#[trigger] steps[j]).before == (
        #[trigger] steps[i]).after
}

/// The events that the steps sent, in order.
pub open spec fn run_events(steps: Seq<StepView>) -> Seq<EventView>
    decreases steps.len(),
{
    if steps.len() == 0 {
        seq![]
    } else {
        run_events(steps.drop_last()) + steps.last().events
    }
}

/// Once a run has said that its session has completed or failed, it sends
/// nothing more: among the events of a run, however many steps it takes
/// and whatever is reported to it, only the last can say so, and then the
/// runner has finished.
pub proof fn lemma_nothing_follows_the_end(steps: Seq<StepView>)
    requires
        one_run(steps),
    ensures
        quiet_but_last(run_events(steps)),
        !quiet(run_events(steps)) ==> steps.len() > 0 && steps.last().after == Phase::Finished,
    decreases steps.len(),
{
    if steps.len() > 0 {
        let head = steps.drop_last();
        let step = steps.last();
        assert(one_run(head)) by {
            assert forall|i: int| 0 <= i < head.len() implies orderly(
                (#[trigger] head[i]).before,
                head[i].after,
                head[i].events,
            ) by {
                assert(head[i] == steps[i]);
            }
            assert forall|i: int, j: int| 0 <= i && j == i + 1 && j < head.len() implies (
            #[trigger] head[j]).before == (#[trigger] head[i]).after by {
                assert(head[j] == steps[j]);
                assert(head[i] == steps[i]);
            }
        }
        lemma_nothing_follows_the_end(head);
        let sent = run_events(head);
        let all = run_events(steps);
        assert(all == sent + step.events);
        assert(orderly(step.before, step.after, step.events));
        if step.before == Phase::Finished {
            assert(all =~= sent);
        } else {
            if head.len() > 0 {
                let k = head.len() - 1;
                assert(steps[k + 1].before == steps[k].after);
                assert(head.last() == steps[k]);
            }
            assert(quiet(sent));
            assert forall|i: int| 0 <= i < all.len() - 1 implies !settles(#[trigger] all[i]) by {
                if i < sent.len() {
                    assert(all[i] == sent[i]);
                } else {
                    assert(all[i] == step.events[i - sent.len()]);
                }
            }
            if step.after != Phase::Finished {
                assert forall|i: int| 0 <= i < all.len() implies !settles(#[trigger] all[i]) by {
                    if i < sent.len() {
                        assert(all[i] == sent[i]);
                    } else {
                        assert(all[i] == step.events[i - sent.len()]);
                    }
                }
            }
        }
    }
}

/// The events that carry the messages `messages` to the client of the
/// session `session_id`, in order.
pub open spec fn message_events(session_id: Seq<char>, messages: Seq<JsonView>) -> Seq<EventView> {
    Seq::new(messages.len(), |i: int| message_event(session_id, messages[i]))
}

/// The working directory of the session `id`, if it is known and has one.
pub open spec fn session_cwd(state: SessionState, id: Seq<char>) -> Option<Seq<char>> {
    match lookup(state.sessions(), id) {
        Some(session) => dir_view(session.cwd),
        None => None,
    }
}

/// The permission mode of the session `id`; asking where none is known.
pub open spec fn session_mode(state: SessionState, id: Seq<char>) -> PermissionMode {
    match lookup(state.providers(), id) {
        Some(settings) => settings.permission_mode,
        None => PermissionMode::Ask,
    }
}

/// The registry `post` is the registry `pre` with `message` appended to the
/// log of the session `id`.
pub open spec fn logged(
    pre: SessionState,
    post: SessionState,
    id: Seq<char>,
    message: JsonView,
) -> bool {
    &&& post.log_of(id) == pre.log_of(id).push(message)
    &&& post.sessions() == pre.sessions()
    &&& post.providers() == pre.providers()
    &&& post.pending() == pre.pending()
}

/// The request for permission that goes to the client for `call`.
pub open spec fn permission_request(session_id: Seq<char>, call: ToolCall) -> EventView {
    EventView::PermissionRequest {
        session_id,
        tool_use_id: call.id@,
        tool_name: call.name@,
        input: call.input@,
    }
}

/// What a tool's outcome is recorded as: its content and whether it failed.
/// A tool that could not be run counts as failed, with the reason as its
/// content.
pub open spec fn outcome_view(outcome: Result<ToolExecutionResult, String>) -> (Seq<char>, bool) {
    match outcome {
        Ok(result) => (result.content@, result.is_error),
        Err(e) => (e@, true),
    }
}

impl Runner {
    /// A runner for the session `session_id` that has begun no turn, under
    /// the cap `max_iterations` on its turns.
    pub fn new(session_id: String, max_iterations: usize) -> (r: Runner)
        ensures
            r.session_id == session_id,
            r.max_iterations == max_iterations,
            r.iterations == 0,
            r.phase == Phase::TurnStart,
            r.calls@.len() == 0,
            r.next == 0,
    {
        Runner {
            session_id,
            max_iterations,
            iterations: 0,
            phase: Phase::TurnStart,
            calls: Vec::new(),
            next: 0,
            cwd: None,
            permission_mode: PermissionMode::Ask,
        }
    }

    /// The runner stands as it stood, but for its phase, its count of turns
    /// and its place among the calls.
    pub open spec fn same_run(self, before: Runner) -> bool {
        &&& self.session_id == before.session_id
        &&& self.max_iterations == before.max_iterations
        &&& self.calls == before.calls
        &&& self.cwd == before.cwd
        &&& self.permission_mode == before.permission_mode
    }

    /// Whether the runner holds tool calls of a turn that are not yet all
    /// dealt with.
    pub open spec fn holds_calls(self) -> bool {
        ||| self.phase == Phase::TurnEnd
        ||| self.phase == Phase::Dispatch
        ||| self.phase == Phase::AwaitingPermission
        ||| self.phase == Phase::Executing
    }

    /// The log of the runner's session in `state` is sound, and every tool
    /// call that the runner holds was made by a reply in it. This holds
    /// from step to step as long as nothing but the runner writes to the
    /// log.
    pub open spec fn tracks(self, state: SessionState) -> bool {
        &&& sound(state.log_of(self.session_id@))
        &&& self.holds_calls() ==> forall|i: int|
            0 <= i < self.calls@.len() ==> called(
                state.log_of(self.session_id@),
                (#[trigger] self.calls@[i]).id@,
            )
    }

    /// Ends the run in failure: the session is marked as failed, and the
    /// event of that is due.
    fn fail(&mut self, state: &mut SessionState, message: String) -> (step: Step)
        requires
            old(state).wf(),
        ensures
            final(state).wf(),
            final(self).same_run(*old(self)),
            final(self).iterations == old(self).iterations,
            final(self).next == old(self).next,
            final(self).phase == Phase::Finished,
            status_set(*old(state), *final(state), old(self).session_id@, SessionStatus::Error),
            event_views(step.events@) == seq![
                status_event(old(self).session_id@, SessionStatus::Error, Some(message@)),
            ],
            step.action@ == (ActionView::Done { outcome: Err(message@) }),
            old(self).tracks(*old(state)) ==> final(self).tracks(*final(state)),
    {
        state.set_status(self.session_id.as_str(), SessionStatus::Error);
        let mut events: Vec<ServerEvent> = Vec::new();
        assert(event_views(events@) =~= Seq::<EventView>::empty());
        push_event(
            &mut events,
            status_changed_event(
                self.session_id.as_str(),
                SessionStatus::Error,
                Some(message.clone()),
            ),
        );
        self.phase = Phase::Finished;
        Step { events, action: RunnerAction::Done { outcome: Err(message) } }
    }

    /// Records the result of the call that is being dealt with, makes the
    /// event that carries it due and moves on to the next call.
    fn record_result(
        &mut self,
        state: &mut SessionState,
        content: &str,
        is_error: bool,
    ) -> (step: Step)
        requires
            old(state).wf(),
            old(self).next < old(self).calls@.len(),
        ensures
            final(state).wf(),
            final(self).same_run(*old(self)),
            final(self).iterations == old(self).iterations,
            final(self).next == old(self).next + 1,
            final(self).phase == Phase::Dispatch,
            logged(
                *old(state),
                *final(state),
                old(self).session_id@,
                tool_result_message(
                    old(self).calls@[old(self).next as int].id@,
                    content@,
                    is_error,
                ),
            ),
            event_views(step.events@) == seq![
                message_event(
                    old(self).session_id@,
                    tool_result_message(
                        old(self).calls@[old(self).next as int].id@,
                        content@,
                        is_error,
                    ),
                ),
            ],
            step.action@ == ActionView::Resume,
            old(self).holds_calls() && old(self).tracks(*old(state)) ==> final(self).tracks(
                *final(state),
            ),
    {
        let ghost log = state.log_of(self.session_id@);
        let ghost id = self.calls@[self.next as int].id@;
        proof {
            if self.holds_calls() && self.tracks(*state) {
                lemma_append_result(log, id, content@, is_error);
                let next = log.push(tool_result_message(id, content@, is_error));
                assert forall|i: int| 0 <= i < self.calls@.len() implies called(
                    next,
                    (#[trigger] self.calls@[i]).id@,
                ) by {
                    assert(called(log, self.calls@[i].id@));
                }
            }
        }
        let message = build_tool_result_message(
            self.calls[self.next].id.as_str(),
            content,
            is_error,
        );
        state.add_message(self.session_id.as_str(), message.clone());
        let mut events: Vec<ServerEvent> = Vec::new();
        assert(event_views(events@) =~= Seq::<EventView>::empty());
        push_event(&mut events, stream_message(self.session_id.as_str(), message));
        assert(self.next < self.calls.len());
        self.next = self.next + 1;
        self.phase = Phase::Dispatch;
        Step { events, action: RunnerAction::Resume }
    }

    /// A step that passes the report over.
    fn ignore(&self) -> (step: Step)
        ensures
            step.events@.len() == 0,
            step.action@ == ActionView::Ignored,
    {
        Step { events: Vec::new(), action: RunnerAction::Ignored }
    }

    /// Goes on from where the runner stands by itself.
    ///
    /// Before a turn: stops the run as failed if the cap on turns is
    /// reached, else counts the turn and asks for it. After a turn: ends
    /// the run as completed if the model called no tool, else reads the
    /// session's working directory and permission mode and turns to the
    /// calls. Between calls: asks for the next call to be run or to be
    /// permitted, or turns to the next turn when none is left. In any
    /// other phase the call is passed over.
    pub fn resume(&mut self, state: &mut SessionState) -> (step: Step)
        requires
            old(state).wf(),
        ensures
            final(state).wf(),
            final(self).session_id == old(self).session_id,
            final(self).max_iterations == old(self).max_iterations,
            final(self).calls == old(self).calls,
            old(self).tracks(*old(state)) ==> final(self).tracks(*final(state)),
            orderly(old(self).phase, final(self).phase, event_views(step.events@)),
            !(old(self).phase == Phase::TurnEnd && old(self).calls@.len() > 0) ==> {
                &&& final(self).cwd == old(self).cwd
                &&& final(self).permission_mode == old(self).permission_mode
                &&& final(self).next == old(self).next
            },
            old(self).phase != Phase::TurnStart ==> final(self).iterations == old(self).iterations,
            match old(self).phase {
                Phase::TurnStart => if must_stop(
                    old(self).iterations as nat,
                    old(self).max_iterations as nat,
                ) {
                    &&& final(self).phase == Phase::Finished
                    &&& status_set(
                        *old(state),
                        *final(state),
                        old(self).session_id@,
                        SessionStatus::Error,
                    )
                    &&& event_views(step.events@) == seq![
                        status_event(
                            old(self).session_id@,
                            SessionStatus::Error,
                            Some(ceiling_message()),
                        ),
                    ]
                    &&& step.action@ == (ActionView::Done { outcome: Err(ceiling_message()) })
                } else {
                    &&& final(self).phase == Phase::Streaming
                    &&& final(self).iterations == if old(self).iterations < usize::MAX {
                        old(self).iterations + 1
                    } else {
                        old(self).iterations as int
                    }
                    &&& *final(state) == *old(state)
                    &&& step.events@.len() == 0
                    &&& step.action@ == ActionView::Stream
                },
                Phase::TurnEnd => if old(self).calls@.len() == 0 {
                    &&& final(self).phase == Phase::Finished
                    &&& status_set(
                        *old(state),
                        *final(state),
                        old(self).session_id@,
                        SessionStatus::Completed,
                    )
                    &&& event_views(step.events@) == seq![
                        status_event(old(self).session_id@, SessionStatus::Completed, None),
                    ]
                    &&& step.action@ == (ActionView::Done { outcome: Ok(()) })
                } else {
                    &&& final(self).phase == Phase::Dispatch
                    &&& final(self).next == 0
                    &&& final(self).iterations == old(self).iterations
                    &&& dir_view(final(self).cwd) == session_cwd(*old(state), old(self).session_id@)
                    &&& final(self).permission_mode == session_mode(
                        *old(state),
                        old(self).session_id@,
                    )
                    &&& *final(state) == *old(state)
                    &&& step.events@.len() == 0
                    &&& step.action@ == ActionView::Resume
                },
                Phase::Dispatch => {
                    &&& final(self).same_run(*old(self))
                    &&& final(self).iterations == old(self).iterations
                    &&& final(self).next == old(self).next
                    &&& *final(state) == *old(state)
                    &&& step.events@.len() == 0
                    &&& if old(self).next >= old(self).calls@.len() {
                        &&& final(self).phase == Phase::TurnStart
                        &&& step.action@ == ActionView::Resume
                    } else if asks(
                        old(self).permission_mode,
                        old(self).calls@[old(self).next as int].name@,
                    ) {
                        &&& final(self).phase == Phase::AwaitingPermission
                        &&& step.action@ == (ActionView::AskPermission {
                            tool_use_id: old(self).calls@[old(self).next as int].id@,
                            request: permission_request(
                                old(self).session_id@,
                                old(self).calls@[old(self).next as int],
                            ),
                        })
                    } else {
                        &&& final(self).phase == Phase::Executing
                        &&& step.action@ == (ActionView::Execute {
                            name: old(self).calls@[old(self).next as int].name@,
                            input: old(self).calls@[old(self).next as int].input@,
                            cwd: dir_view(old(self).cwd),
                        })
                    }
                },
                _ => {
                    &&& *final(self) == *old(self)
                    &&& *final(state) == *old(state)
                    &&& step.events@.len() == 0
                    &&& step.action@ == ActionView::Ignored
                },
            },
    {
        match self.phase {
            Phase::TurnStart => {
                if should_stop_tool_loop(self.iterations, self.max_iterations) {
                    self.fail(state, "工具调用循环次数过多，已停止。".to_string())
                } else {
                    if self.iterations < usize::MAX {
                        self.iterations = self.iterations + 1;
                    }
                    self.phase = Phase::Streaming;
                    Step { events: Vec::new(), action: RunnerAction::Stream }
                }
            },
            Phase::TurnEnd => {
                if self.calls.len() == 0 {
                    state.set_status(self.session_id.as_str(), SessionStatus::Completed);
                    let mut events: Vec<ServerEvent> = Vec::new();
                    assert(event_views(events@) =~= Seq::<EventView>::empty());
                    push_event(
                        &mut events,
                        status_changed_event(
                            self.session_id.as_str(),
                            SessionStatus::Completed,
                            None,
                        ),
                    );
                    self.phase = Phase::Finished;
                    Step { events, action: RunnerAction::Done { outcome: Ok(()) } }
                } else {
                    self.cwd = match state.get_session(self.session_id.as_str()) {
                        Some(session) => session.cwd,
                        None => None,
                    };
                    self.permission_mode = match state.get_provider(self.session_id.as_str()) {
                        Some(settings) => settings.permission_mode,
                        None => PermissionMode::Ask,
                    };
                    self.next = 0;
                    self.phase = Phase::Dispatch;
                    Step { events: Vec::new(), action: RunnerAction::Resume }
                }
            },
            Phase::Dispatch => {
                if self.next >= self.calls.len() {
                    self.phase = Phase::TurnStart;
                    return Step { events: Vec::new(), action: RunnerAction::Resume };
                }
                let call = &self.calls[self.next];
                if needs_permission(self.permission_mode, call.name.as_str()) {
                    let request = ServerEvent::PermissionRequest {
                        session_id: self.session_id.clone(),
                        tool_use_id: call.id.clone(),
                        tool_name: call.name.clone(),
                        input: call.input.clone(),
                    };
                    let action = RunnerAction::AskPermission {
                        tool_use_id: call.id.clone(),
                        request,
                    };
                    self.phase = Phase::AwaitingPermission;
                    Step { events: Vec::new(), action }
                } else {
                    let action = RunnerAction::Execute {
                        name: call.name.clone(),
                        input: call.input.clone(),
                        cwd: clone_text(&self.cwd),
                    };
                    self.phase = Phase::Executing;
                    Step { events: Vec::new(), action }
                }
            },
            _ => self.ignore(),
        }
    }

    /// Takes the end of a turn of the model in.
    ///
    /// A failed turn ends the run as failed, with the failure as its
    /// message. A turn that ended well has its reply recorded, unless the
    /// reply has no block; the last messages of the stream are due, and
    /// after them the reply. The tool calls of the turn are kept for the
    /// steps to come. In any phase but that of a turn under way the report
    /// is passed over.
    pub fn turn_ended(
        &mut self,
        state: &mut SessionState,
        outcome: Result<StreamEnd, String>,
    ) -> (step: Step)
        requires
            old(state).wf(),
        ensures
            final(state).wf(),
            final(self).session_id == old(self).session_id,
            final(self).max_iterations == old(self).max_iterations,
            final(self).iterations == old(self).iterations,
            final(self).next == old(self).next,
            final(self).cwd == old(self).cwd,
            final(self).permission_mode == old(self).permission_mode,
            old(self).tracks(*old(state)) ==> final(self).tracks(*final(state)),
            orderly(old(self).phase, final(self).phase, event_views(step.events@)),
            if old(self).phase == Phase::Streaming {
                match outcome {
                    Ok(end) => {
                        &&& final(self).phase == Phase::TurnEnd
                        &&& final(self).calls@ == end.calls()
                        &&& step.action@ == ActionView::Resume
                        &&& if end.blocks().len() == 0 {
                            &&& *final(state) == *old(state)
                            &&& event_views(step.events@) == message_events(
                                old(self).session_id@,
                                end.messages(),
                            )
                        } else {
                            &&& logged(
                                *old(state),
                                *final(state),
                                old(self).session_id@,
                                record("assistant"@, end.blocks()),
                            )
                            &&& event_views(step.events@) == message_events(
                                old(self).session_id@,
                                end.messages(),
                            ).push(
                                message_event(
                                    old(self).session_id@,
                                    record("assistant"@, end.blocks()),
                                ),
                            )
                        }
                    },
                    Err(message) => {
                        &&& final(self).phase == Phase::Finished
                        &&& status_set(
                            *old(state),
                            *final(state),
                            old(self).session_id@,
                            SessionStatus::Error,
                        )
                        &&& event_views(step.events@) == seq![
                            status_event(
                                old(self).session_id@,
                                SessionStatus::Error,
                                Some(message@),
                            ),
                        ]
                        &&& step.action@ == (ActionView::Done { outcome: Err(message@) })
                    },
                }
            } else {
                &&& *final(self) == *old(self)
                &&& *final(state) == *old(state)
                &&& step.events@.len() == 0
                &&& step.action@ == ActionView::Ignored
            },
    {
        if self.phase != Phase::Streaming {
            return self.ignore();
        }
        match outcome {
            Ok(end) => {
                let ghost log = state.log_of(self.session_id@);
                let (emitted, content_blocks, tool_calls) = end.into_parts();
                let mut events: Vec<ServerEvent> = Vec::new();
                let ghost due = message_events(self.session_id@, json_views(emitted@));
                let mut i: usize = 0;
                assert(event_views(events@) =~= due.take(0));
                while i < emitted.len()
                    invariant
                        i <= emitted.len(),
                        due == message_events(self.session_id@, json_views(emitted@)),
                        event_views(events@) == due.take(i as int),
                    decreases emitted.len() - i,
                {
                    push_event(
                        &mut events,
                        stream_message(self.session_id.as_str(), emitted[i].clone()),
                    );
                    i += 1;
                    assert(due.take(i as int) =~= due.take(i - 1).push(due[i - 1]));
                }
                assert(due.take(i as int) =~= due);
                let ghost blocks = json_views(content_blocks@);
                if content_blocks.len() > 0 {
                    let assistant = object2(
                        "type",
                        Json::string("assistant"),
                        "message",
                        object1("content", Json::array(content_blocks)),
                    );
                    state.add_message(self.session_id.as_str(), assistant.clone());
                    push_event(&mut events, stream_message(self.session_id.as_str(), assistant));
                    proof {
                        if sound(log) {
                            lemma_append_reply(log, blocks);
                        }
                    }
                } else {
                    proof {
                        if tool_calls@.len() > 0 {
                            assert(names_call(blocks, tool_calls@[0].id@));
                        }
                    }
                }
                proof {
                    let evs = event_views(events@);
                    assert forall|k: int| 0 <= k < evs.len() implies !settles(
                        #[trigger] evs[k],
                    ) by {
                        if k < due.len() {
                            assert(evs[k] == due[k]);
                        }
                    }
                }
                self.calls = tool_calls;
                self.phase = Phase::TurnEnd;
                Step { events, action: RunnerAction::Resume }
            },
            Err(message) => self.fail(state, message),
        }
    }

    /// Takes what became of a permission request in.
    ///
    /// A request that failed ends the run as failed; one that nobody
    /// answered is withdrawn first, so that its id is free again and a late
    /// answer finds nothing to answer. A denial is recorded
    /// as the failed result of the call, with the reason that the answer
    /// gives. An allowed call to the tool that puts a question to the user
    /// is over at once: its result is the input that the answer carries,
    /// as text. Any other allowed call is to be run on that input. Where
    /// no call awaits an answer the report is passed over.
    pub fn permission_answered(
        &mut self,
        state: &mut SessionState,
        wait: PermissionWait,
    ) -> (step: Step)
        requires
            old(state).wf(),
        ensures
            final(state).wf(),
            final(self).session_id == old(self).session_id,
            final(self).max_iterations == old(self).max_iterations,
            final(self).iterations == old(self).iterations,
            final(self).calls == old(self).calls,
            final(self).cwd == old(self).cwd,
            final(self).permission_mode == old(self).permission_mode,
            old(self).tracks(*old(state)) ==> final(self).tracks(*final(state)),
            orderly(old(self).phase, final(self).phase, event_views(step.events@)),
            old(self).phase == Phase::AwaitingPermission && old(self).next < old(self).calls@.len()
                && withdraws(wait) ==> !has_key(
                final(state).pending(),
                old(self).calls@[old(self).next as int].id@,
            ),
            if old(self).phase == Phase::AwaitingPermission && old(self).next < old(
                self,
            ).calls@.len() {
                let call = old(self).calls@[old(self).next as int];
                match wait_outcome(wait) {
                    Err(message) => {
                        &&& final(self).phase == Phase::Finished
                        &&& final(self).next == old(self).next
                        &&& if withdraws(wait) {
                            status_set_withdrawn(
                                *old(state),
                                *final(state),
                                old(self).session_id@,
                                SessionStatus::Error,
                                call.id@,
                            )
                        } else {
                            status_set(
                                *old(state),
                                *final(state),
                                old(self).session_id@,
                                SessionStatus::Error,
                            )
                        }
                        &&& event_views(step.events@) == seq![
                            status_event(
                                old(self).session_id@,
                                SessionStatus::Error,
                                Some(message),
                            ),
                        ]
                        &&& step.action@ == (ActionView::Done { outcome: Err(message) })
                    },
                    Ok(permission) => if !allows(permission) {
                        &&& final(self).phase == Phase::Dispatch
                        &&& final(self).next == old(self).next + 1
                        &&& logged(
                            *old(state),
                            *final(state),
                            old(self).session_id@,
                            tool_result_message(call.id@, denial_text(permission), true),
                        )
                        &&& event_views(step.events@) == seq![
                            message_event(
                                old(self).session_id@,
                                tool_result_message(call.id@, denial_text(permission), true),
                            ),
                        ]
                        &&& step.action@ == ActionView::Resume
                    } else if call.name@ == ask_user_tool() {
                        &&& final(self).phase == Phase::Dispatch
                        &&& final(self).next == old(self).next + 1
                        &&& logged(
                            *old(state),
                            *final(state),
                            old(self).session_id@,
                            tool_result_message(
                                call.id@,
                                stringify(effective(permission, call.input@)),
                                false,
                            ),
                        )
                        &&& event_views(step.events@) == seq![
                            message_event(
                                old(self).session_id@,
                                tool_result_message(
                                    call.id@,
                                    stringify(effective(permission, call.input@)),
                                    false,
                                ),
                            ),
                        ]
                        &&& step.action@ == ActionView::Resume
                    } else {
                        &&& final(self).phase == Phase::Executing
                        &&& final(self).next == old(self).next
                        &&& *final(state) == *old(state)
                        &&& step.events@.len() == 0
                        &&& step.action@ == (ActionView::Execute {
                            name: call.name@,
                            input: effective(permission, call.input@),
                            cwd: dir_view(old(self).cwd),
                        })
                    },
                }
            } else {
                &&& *final(self) == *old(self)
                &&& *final(state) == *old(state)
                &&& step.events@.len() == 0
                &&& step.action@ == ActionView::Ignored
            },
    {
        if self.phase != Phase::AwaitingPermission || self.next >= self.calls.len() {
            return self.ignore();
        }
        let withdrawn = leaves_request(&wait);
        let permission = match permission_reply(wait) {
            Ok(permission) => permission,
            Err(message) => {
                if withdrawn {
                    state.cancel_permission(self.calls[self.next].id.as_str());
                }
                return self.fail(state, message);
            },
        };
        if !permission_allows(&permission) {
            let reason = denial_message(&permission);
            return self.record_result(state, reason.as_str(), true);
        }
        let input = effective_input(&permission, &self.calls[self.next].input);
        if str_eq(self.calls[self.next].name.as_str(), "AskUserQuestion") {
            let answer = stringify_value(&input);
            return self.record_result(state, answer.as_str(), false);
        }
        let action = RunnerAction::Execute {
            name: self.calls[self.next].name.clone(),
            input,
            cwd: clone_text(&self.cwd),
        };
        self.phase = Phase::Executing;
        Step { events: Vec::new(), action }
    }

    /// Takes what a tool gave in: it is recorded as the result of the call,
    /// a tool that could not be run as a failed result with the reason as
    /// its content, and the runner moves on to the next call. No outcome of
    /// a tool ends the run. Where no tool runs the report is passed over.
    pub fn tool_finished(
        &mut self,
        state: &mut SessionState,
        outcome: Result<ToolExecutionResult, String>,
    ) -> (step: Step)
        requires
            old(state).wf(),
        ensures
            final(state).wf(),
            final(self).session_id == old(self).session_id,
            final(self).max_iterations == old(self).max_iterations,
            final(self).iterations == old(self).iterations,
            final(self).calls == old(self).calls,
            final(self).cwd == old(self).cwd,
            final(self).permission_mode == old(self).permission_mode,
            old(self).tracks(*old(state)) ==> final(self).tracks(*final(state)),
            final(self).phase == Phase::Finished ==> old(self).phase == Phase::Finished,
            orderly(old(self).phase, final(self).phase, event_views(step.events@)),
            if old(self).phase == Phase::Executing && old(self).next < old(self).calls@.len() {
                let call = old(self).calls@[old(self).next as int];
                &&& final(self).phase == Phase::Dispatch
                &&& final(self).next == old(self).next + 1
                &&& logged(
                    *old(state),
                    *final(state),
                    old(self).session_id@,
                    tool_result_message(call.id@, outcome_view(outcome).0, outcome_view(outcome).1),
                )
                &&& event_views(step.events@) == seq![
                    message_event(
                        old(self).session_id@,
                        tool_result_message(
                            call.id@,
                            outcome_view(outcome).0,
                            outcome_view(outcome).1,
                        ),
                    ),
                ]
                &&& step.action@ == ActionView::Resume
            } else {
                &&& *final(self) == *old(self)
                &&& *final(state) == *old(state)
                &&& step.events@.len() == 0
                &&& step.action@ == ActionView::Ignored
            },
    {
        if self.phase != Phase::Executing || self.next >= self.calls.len() {
            return self.ignore();
        }
        match outcome {
            Ok(result) => self.record_result(state, result.content.as_str(), result.is_error),
            Err(e) => self.record_result(state, e.as_str(), true),
        }
    }
}

} // verus!

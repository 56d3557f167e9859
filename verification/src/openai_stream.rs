//! Decoder of a streamed reply in the OpenAI chat-completions protocol.
//!
//! The reply arrives as server-sent events whose payloads are JSON deltas.
//! A delta may carry a piece of the reply's text and pieces of tool calls;
//! the pieces of one tool call share an index.

use vstd::prelude::*;
use vstd::string::StringExecFns;
use crate::history::{build_content_blocks, call_views, content_blocks, ToolCall};
use crate::json::{
    json_parsed, json_views, parse, parse_tool_input, push_json, tool_input, Json, JsonView,
};
use crate::log_rules::{lemma_openai_blocks_name_calls, names_call};
use crate::reply::StreamEnd;
use crate::sse::{
    drain_sse_events, drained_events, drained_rest, event_ends_stream, event_payloads,
    has_end_mark, payloads,
};
use crate::stream::{
    start_event, stop_event, stream_event_message, text_delta_message, text_event, Fed,
};
use crate::text::{decimal, extend_strings, lines, push_decimal, views};

verus! {

/// A tool call as far as it has arrived.
#[derive(Debug, PartialEq)]
pub struct ToolCallBuilder {
    pub id: Option<String>,
    pub name: Option<String>,
    pub arguments: String,
}

/// The value of a [`ToolCallBuilder`].
pub struct BuilderView {
    pub id: Option<Seq<char>>,
    pub name: Option<Seq<char>>,
    pub arguments: Seq<char>,
}

/// The view of an optional string.
pub open spec fn opt_text(t: Option<String>) -> Option<Seq<char>> {
    match t {
        Some(s) => Some(s@),
        None => None,
    }
}

impl View for ToolCallBuilder {
    type V = BuilderView;

    open spec fn view(&self) -> BuilderView {
        BuilderView {
            id: opt_text(self.id),
            name: opt_text(self.name),
            arguments: self.arguments@,
        }
    }
}

/// A builder of which nothing has arrived.
pub open spec fn empty_builder() -> BuilderView {
    BuilderView { id: None, name: None, arguments: Seq::empty() }
}

impl Default for ToolCallBuilder {
    /// A builder of which nothing has arrived.
    fn default() -> (r: ToolCallBuilder)
        ensures
            r@ == empty_builder(),
    {
        ToolCallBuilder { id: None, name: None, arguments: String::new() }
    }
}

/// The values of a list of builders.
pub open spec fn builder_views(s: Seq<ToolCallBuilder>) -> Seq<BuilderView> {
    Seq::new(s.len(), |i: int| s[i]@)
}

/// The state of the decoder: the text not yet cut into events, the text of
/// the reply so far, the tool calls so far by index, whether any text has
/// arrived, and whether the end mark has been met.
pub struct OpenAiStream {
    pub buffer: String,
    pub assistant_text: String,
    pub tool_builders: Vec<ToolCallBuilder>,
    pub started: bool,
    pub done: bool,
}

/// The value of an [`OpenAiStream`].
pub struct OpenAiView {
    pub buffer: Seq<char>,
    pub text: Seq<char>,
    pub builders: Seq<BuilderView>,
    pub started: bool,
    pub done: bool,
}

impl View for OpenAiStream {
    type V = OpenAiView;

    open spec fn view(&self) -> OpenAiView {
        OpenAiView {
            buffer: self.buffer@,
            text: self.assistant_text@,
            builders: builder_views(self.tool_builders@),
            started: self.started,
            done: self.done,
        }
    }
}

/// The message of the failure for a tool call whose index no list can hold.
pub open spec fn index_failure() -> Seq<char> {
    "Tool call index out of range."@
}

/// The builders `builders`, with empty ones added so that `index` is among
/// them.
pub open spec fn widened(builders: Seq<BuilderView>, index: int) -> Seq<BuilderView> {
    if builders.len() <= index {
        builders + Seq::new((index + 1 - builders.len()) as nat, |i: int| empty_builder())
    } else {
        builders
    }
}

/// The index that the piece `call` of a tool call names; 0 if it names
/// none.
pub open spec fn call_index(call: JsonView) -> u64 {
    match call.get("index"@) {
        Some(v) => match v.as_u64() {
            Some(n) => n,
            None => 0,
        },
        None => 0,
    }
}

/// The text under the two steps `a`, `b` of `v`, if there is a string.
pub open spec fn text_at2(v: JsonView, a: Seq<char>, b: Seq<char>) -> Option<Seq<char>> {
    match v.child2(a, b) {
        Some(t) => t.as_str(),
        None => None,
    }
}

/// The builder `builder` with the piece `call` laid over it: an id and a
/// name replace what was there, arguments are appended.
pub open spec fn overlaid(builder: BuilderView, call: JsonView) -> BuilderView {
    BuilderView {
        id: match call.str_at("id"@) {
            Some(id) => Some(id),
            None => builder.id,
        },
        name: match text_at2(call, "function"@, "name"@) {
            Some(name) => Some(name),
            None => builder.name,
        },
        arguments: match text_at2(call, "function"@, "arguments"@) {
            Some(more) => builder.arguments + more,
            None => builder.arguments,
        },
    }
}

/// The builders after the piece `call`: widened to its index, with the
/// piece laid over the builder there. An index that no list can hold is a
/// failure and changes nothing.
pub open spec fn with_call(builders: Seq<BuilderView>, call: JsonView) -> (
    Seq<BuilderView>,
    Option<Seq<char>>,
) {
    let index = call_index(call) as int;
    if index >= usize::MAX {
        (builders, Some(index_failure()))
    } else {
        let wide = widened(builders, index);
        (wide.update(index, overlaid(wide[index], call)), None)
    }
}

/// The builders after the pieces `calls`, taken in order up to the first
/// failure.
pub open spec fn with_calls(builders: Seq<BuilderView>, calls: Seq<JsonView>) -> (
    Seq<BuilderView>,
    Option<Seq<char>>,
)
    decreases calls.len(),
{
    if calls.len() == 0 {
        (builders, None)
    } else {
        let before = with_calls(builders, calls.drop_last());
        if before.1 is Some {
            before
        } else {
            with_call(before.0, calls.last())
        }
    }
}

/// The state after the text of `delta`, if it carries any, and the
/// messages that report it: the start of the text block before the first
/// piece, and the piece itself.
pub open spec fn after_content(s: OpenAiView, delta: JsonView) -> (OpenAiView, Seq<JsonView>) {
    match delta.str_at("content"@) {
        Some(content) => (
            OpenAiView {
                buffer: s.buffer,
                text: s.text + content,
                builders: s.builders,
                started: true,
                done: s.done,
            },
            if s.started {
                seq![text_event(content)]
            } else {
                seq![start_event(), text_event(content)]
            },
        ),
        None => (s, seq![]),
    }
}

/// The pieces of tool calls that `delta` carries.
pub open spec fn delta_calls(delta: JsonView) -> Option<Seq<JsonView>> {
    match delta.get("tool_calls"@) {
        Some(calls) => calls.as_array(),
        None => None,
    }
}

/// The state after one payload, the messages that report it and the failure
/// that it ran into, if any. The payload counts through its delta, found
/// under `choices`, `0`, `delta`; one without is passed over.
pub open spec fn applied(s: OpenAiView, payload: JsonView) -> (
    OpenAiView,
    Seq<JsonView>,
    Option<Seq<char>>,
) {
    match payload.child3("choices"@, "0"@, "delta"@) {
        Some(delta) => {
            let (s1, emitted) = after_content(s, delta);
            match delta_calls(delta) {
                Some(calls) => {
                    let (builders, failure) = with_calls(s1.builders, calls);
                    (
                        OpenAiView {
                            buffer: s1.buffer,
                            text: s1.text,
                            builders: builders,
                            started: s1.started,
                            done: s1.done,
                        },
                        emitted,
                        failure,
                    )
                },
                None => (s1, emitted, None),
            }
        },
        None => (s, seq![], None),
    }
}

/// The state after the payload texts `texts`, taken in order up to the
/// first failure, with the messages that report them. A text that is not
/// JSON is a failure with the parser's message.
pub open spec fn fed_payloads(s: OpenAiView, texts: Seq<Seq<char>>) -> (
    OpenAiView,
    Seq<JsonView>,
    Option<Seq<char>>,
)
    decreases texts.len(),
{
    if texts.len() == 0 {
        (s, seq![], None)
    } else {
        let before = fed_payloads(s, texts.drop_last());
        if before.2 is Some {
            before
        } else {
            match json_parsed(texts.last()) {
                Ok(payload) => {
                    let step = applied(before.0, payload);
                    (step.0, before.1 + step.1, step.2)
                },
                Err(e) => (before.0, before.1, Some(e)),
            }
        }
    }
}

/// The payload texts of the events `events`, in order, up to the first end
/// mark, and whether an end mark was met. Neither the rest of the event that
/// holds the mark nor any event after it counts.
pub open spec fn stream_payloads(events: Seq<Seq<char>>) -> (Seq<Seq<char>>, bool)
    decreases events.len(),
{
    if events.len() == 0 {
        (seq![], false)
    } else {
        let before = stream_payloads(events.drop_last());
        if before.1 {
            before
        } else {
            (before.0 + payloads(lines(events.last())), has_end_mark(lines(events.last())))
        }
    }
}

/// The state after the chunk `chunk` has been fed, with the messages that
/// report it and the failure that stopped it, if any. A decoder that has met
/// the end mark takes nothing more in: the chunk changes nothing and reports
/// nothing. Otherwise the chunk joins the buffer, the complete events leave
/// it, and their payloads up to the first end mark are taken in.
pub open spec fn fed(s: OpenAiView, chunk: Seq<char>) -> (
    OpenAiView,
    Seq<JsonView>,
    Option<Seq<char>>,
) {
    if s.done {
        (s, seq![], None)
    } else {
        let text = s.buffer + chunk;
        let cut = stream_payloads(drained_events(text));
        fed_payloads(
            OpenAiView {
                buffer: drained_rest(text),
                text: s.text,
                builders: s.builders,
                started: s.started,
                done: cut.1,
            },
            cut.0,
        )
    }
}

/// The name of a tool call that arrived without one.
pub open spec fn unknown_tool() -> Seq<char> {
    "UnknownTool"@
}

/// The id of the tool call at index `index` that arrived without one.
pub open spec fn default_call_id(index: nat) -> Seq<char> {
    "tool-"@ + decimal(index)
}

/// The tool call that the builder `builder` at index `index` stands for.
pub open spec fn finalized_call(builder: BuilderView, index: nat) -> (
    Seq<char>,
    Seq<char>,
    JsonView,
) {
    (
        match builder.id {
            Some(id) => id,
            None => default_call_id(index),
        },
        match builder.name {
            Some(name) => name,
            None => unknown_tool(),
        },
        tool_input(builder.arguments),
    )
}

/// The tool calls that the builders stand for, in order.
pub open spec fn finalized(builders: Seq<BuilderView>) -> Seq<(Seq<char>, Seq<char>, JsonView)> {
    Seq::new(builders.len(), |i: int| finalized_call(builders[i], i as nat))
}

/// The tool calls that the builders stand for: a call without a name is
/// `UnknownTool`, one without an id is `tool-<index>`, and the arguments
/// are read as JSON.
pub fn finalize_tool_calls(builders: Vec<ToolCallBuilder>) -> (calls: Vec<ToolCall>)
    ensures
        call_views(calls@) == finalized(builder_views(builders@)),
{
    let mut calls: Vec<ToolCall> = Vec::new();
    let mut idx: usize = 0;
    while idx < builders.len()
        invariant
            idx <= builders.len(),
            calls.len() == idx,
            forall|k: int|
                0 <= k < idx ==> #[trigger] call_views(calls@)[k] == finalized_call(
                    builders@[k]@,
                    k as nat,
                ),
        decreases builders.len() - idx,
    {
        let builder = &builders[idx];
        let name = match &builder.name {
            Some(name) => name.clone(),
            None => "UnknownTool".to_string(),
        };
        let id = match &builder.id {
            Some(id) => id.clone(),
            None => {
                let mut id = "tool-".to_string();
                push_decimal(&mut id, idx as u64);
                id
            },
        };
        let input = parse_tool_input(builder.arguments.as_str());
        let ghost before = calls@;
        calls.push(ToolCall { id, name, input });
        assert forall|k: int| 0 <= k < idx + 1 implies #[trigger] call_views(calls@)[k]
            == finalized_call(builders@[k]@, k as nat) by {
            if k < idx {
                assert(call_views(before)[k] == finalized_call(builders@[k]@, k as nat));
                assert(calls@[k] == before[k]);
            }
        }
        idx += 1;
    }
    assert(call_views(calls@) =~= finalized(builder_views(builders@)));
    calls
}

impl OpenAiStream {
    /// A decoder that has seen nothing.
    pub fn new() -> (r: OpenAiStream)
        ensures
            r@ == (OpenAiView {
                buffer: Seq::empty(),
                text: Seq::empty(),
                builders: Seq::empty(),
                started: false,
                done: false,
            }),
    {
        let r = OpenAiStream {
            buffer: String::new(),
            assistant_text: String::new(),
            tool_builders: Vec::new(),
            started: false,
            done: false,
        };
        assert(builder_views(r.tool_builders@) =~= Seq::<BuilderView>::empty());
        r
    }

    /// Lays the piece `call` of a tool call over the builder at its index,
    /// after widening the list to hold that index.
    pub fn apply_call(&mut self, call: &Json) -> (failure: Option<String>)
        ensures
            final(self)@.buffer == old(self)@.buffer,
            final(self)@.text == old(self)@.text,
            final(self)@.started == old(self)@.started,
            final(self)@.done == old(self)@.done,
            (final(self)@.builders, opt_text(failure)) == with_call(old(self)@.builders, call@),
    {
        let index64: u64 = match call.get("index") {
            Some(v) => match v.as_u64() {
                Some(n) => n,
                None => 0,
            },
            None => 0,
        };
        if index64 >= usize::MAX as u64 {
            return Some("Tool call index out of range.".to_string());
        }
        let index: usize = index64 as usize;
        let ghost start = builder_views(self.tool_builders@);
        while self.tool_builders.len() <= index
            invariant
                index < usize::MAX,
                self.buffer == old(self).buffer,
                self.assistant_text == old(self).assistant_text,
                self.started == old(self).started,
                self.done == old(self).done,
                start == builder_views(old(self).tool_builders@),
                start.len() <= self.tool_builders.len(),
                self.tool_builders.len() <= index + 1 || self.tool_builders.len() == start.len(),
                builder_views(self.tool_builders@) == start + Seq::new(
                    (self.tool_builders.len() - start.len()) as nat,
                    |i: int| empty_builder(),
                ),
            decreases index + 1 - self.tool_builders.len(),
        {
            let ghost before = builder_views(self.tool_builders@);
            self.tool_builders.push(ToolCallBuilder::default());
            assert(builder_views(self.tool_builders@) =~= before.push(empty_builder()));
            assert(builder_views(self.tool_builders@) =~= start + Seq::new(
                (self.tool_builders.len() - start.len()) as nat,
                |i: int| empty_builder(),
            ));
        }
        let ghost wide = builder_views(self.tool_builders@);
        assert(wide =~= widened(start, index as int)) by {
            if start.len() > index {
                assert(start + Seq::new(0nat, |i: int| empty_builder()) =~= start);
            }
        }
        let old_builder = self.tool_builders.remove(index);
        let id = match call.str_at("id") {
            Some(id) => Some(id.to_string()),
            None => old_builder.id,
        };
        let name = match call.child2("function", "name") {
            Some(t) => match t.as_str() {
                Some(name) => Some(name.to_string()),
                None => old_builder.name,
            },
            None => old_builder.name,
        };
        let mut arguments = old_builder.arguments;
        match call.child2("function", "arguments") {
            Some(t) => match t.as_str() {
                Some(more) => {
                    arguments.append(more);
                },
                None => {},
            },
            None => {},
        }
        let builder = ToolCallBuilder { id, name, arguments };
        assert(builder@ == overlaid(wide[index as int], call@));
        self.tool_builders.insert(index, builder);
        assert(builder_views(self.tool_builders@) =~= wide.update(index as int, builder@));
        None
    }

    /// Takes one parsed payload in: appends the text of its delta, lays its
    /// pieces of tool calls over the builders, and hands back the messages
    /// that report the text.
    pub fn apply_payload(&mut self, payload: &Json) -> (r: Fed)
        ensures
            (final(self)@, json_views(r.emitted@), opt_text(r.failure)) == applied(
                old(self)@,
                payload@,
            ),
    {
        let mut emitted: Vec<Json> = Vec::new();
        assert(json_views(emitted@) =~= Seq::<JsonView>::empty());
        let delta = match payload.child3("choices", "0", "delta") {
            Some(delta) => delta,
            None => {
                return Fed { emitted, failure: None };
            },
        };
        match delta.str_at("content") {
            Some(content) => {
                if !self.started {
                    self.started = true;
                    push_json(&mut emitted, stream_event_message("content_block_start", None));
                }
                self.assistant_text.append(content);
                push_json(&mut emitted, text_delta_message(content));
                assert(json_views(emitted@) =~= after_content(old(self)@, delta@).1);
            },
            None => {},
        }
        let ghost s1 = self@;
        assert(s1 == after_content(old(self)@, delta@).0);
        let calls = match delta.get("tool_calls") {
            Some(calls) => match calls.as_array() {
                Some(calls) => calls,
                None => {
                    return Fed { emitted, failure: None };
                },
            },
            None => {
                return Fed { emitted, failure: None };
            },
        };
        let ghost all = json_views(calls@);
        let mut i: usize = 0;
        assert(all.take(0) =~= Seq::<JsonView>::empty());
        while i < calls.len()
            invariant
                i <= calls.len(),
                all == json_views(calls@),
                payload@.child3("choices"@, "0"@, "delta"@) == Some(delta@),
                delta_calls(delta@) == Some(all),
                s1 == after_content(old(self)@, delta@).0,
                json_views(emitted@) == after_content(old(self)@, delta@).1,
                self@.buffer == s1.buffer,
                self@.text == s1.text,
                self@.started == s1.started,
                self@.done == s1.done,
                (self@.builders, None::<Seq<char>>) == with_calls(s1.builders, all.take(i as int)),
            decreases calls.len() - i,
        {
            proof {
                assert(all.take(i + 1).drop_last() =~= all.take(i as int));
                assert(all.take(i + 1).last() == calls@[i as int]@);
            }
            let failure = self.apply_call(&calls[i]);
            if failure.is_some() {
                proof {
                    lemma_calls_fail(s1.builders, all, i + 1);
                }
                return Fed { emitted, failure };
            }
            i += 1;
        }
        assert(all.take(i as int) =~= all);
        Fed { emitted, failure: None }
    }

    /// Feeds the decoder the next chunk of the reply. Complete events leave
    /// the buffer; their payloads are parsed and taken in, in order, up to
    /// the first failure. The end mark ends the stream: what follows it,
    /// in this chunk or a later one, is not looked at.
    pub fn feed(&mut self, chunk: &str) -> (r: Fed)
        ensures
            (final(self)@, json_views(r.emitted@), opt_text(r.failure)) == fed(old(self)@, chunk@),
    {
        if self.done {
            let emitted: Vec<Json> = Vec::new();
            assert(json_views(emitted@) =~= Seq::<JsonView>::empty());
            return Fed { emitted, failure: None };
        }
        self.buffer.append(chunk);
        let events = drain_sse_events(&mut self.buffer);
        let mut texts: Vec<String> = Vec::new();
        let mut ended = false;
        let mut i: usize = 0;
        assert(views(texts@) =~= Seq::<Seq<char>>::empty());
        assert(views(events@).take(0) =~= Seq::<Seq<char>>::empty());
        while i < events.len() && !ended
            invariant
                i <= events.len(),
                (views(texts@), ended) == stream_payloads(views(events@).take(i as int)),
            decreases events.len() - i,
        {
            proof {
                assert(views(events@).take(i + 1).drop_last() =~= views(events@).take(i as int));
                assert(views(events@).take(i + 1).last() == events@[i as int]@);
            }
            extend_strings(&mut texts, event_payloads(events[i].as_str()));
            ended = event_ends_stream(events[i].as_str());
            i += 1;
        }
        proof {
            if ended {
                lemma_stream_ends(views(events@), i as int);
            } else {
                assert(views(events@).take(i as int) =~= views(events@));
            }
        }
        self.done = ended;
        let ghost s0 = self@;
        let ghost all = views(texts@);
        let mut emitted: Vec<Json> = Vec::new();
        let mut k: usize = 0;
        assert(json_views(emitted@) =~= Seq::<JsonView>::empty());
        assert(all.take(0) =~= Seq::<Seq<char>>::empty());
        while k < texts.len()
            invariant
                k <= texts.len(),
                all == views(texts@),
                fed(old(self)@, chunk@) == fed_payloads(s0, all),
                (self@, json_views(emitted@), None::<Seq<char>>) == fed_payloads(
                    s0,
                    all.take(k as int),
                ),
            decreases texts.len() - k,
        {
            proof {
                assert(all.take(k + 1).drop_last() =~= all.take(k as int));
                assert(all.take(k + 1).last() == texts@[k as int]@);
            }
            match parse(texts[k].as_str()) {
                Ok(payload) => {
                    let step = self.apply_payload(&payload);
                    let ghost before = json_views(emitted@);
                    let mut more = step.emitted;
                    let ghost added = json_views(more@);
                    emitted.append(&mut more);
                    assert(json_views(emitted@) =~= before + added);
                    if step.failure.is_some() {
                        proof {
                            lemma_payloads_fail(s0, all, k + 1);
                        }
                        return Fed { emitted, failure: step.failure };
                    }
                },
                Err(e) => {
                    proof {
                        lemma_payloads_fail(s0, all, k + 1);
                    }
                    return Fed { emitted, failure: Some(e) };
                },
            }
            k += 1;
        }
        assert(all.take(k as int) =~= all);
        Fed { emitted, failure: None }
    }

    /// Ends the stream: reports the end of the text block if any text
    /// arrived, and hands back the tool calls and the blocks of the reply.
    pub fn finish(self) -> (r: StreamEnd)
        ensures
            r.messages() == if self@.started {
                seq![stop_event()]
            } else {
                Seq::<JsonView>::empty()
            },
            call_views(r.calls()) == finalized(self@.builders),
            r.blocks() == content_blocks(self@.text, r.calls()),
    {
        let mut emitted: Vec<Json> = Vec::new();
        assert(json_views(emitted@) =~= Seq::<JsonView>::empty());
        if self.started {
            push_json(&mut emitted, stream_event_message("content_block_stop", None));
        }
        let tool_calls = finalize_tool_calls(self.tool_builders);
        let content_blocks = build_content_blocks(self.assistant_text.as_str(), &tool_calls);
        proof {
            assert forall|i: int| 0 <= i < tool_calls@.len() implies names_call(
                json_views(content_blocks@),
                (#[trigger] tool_calls@[i]).id@,
            ) by {
                lemma_openai_blocks_name_calls(self@.text, tool_calls@, i);
            }
        }
        StreamEnd::assemble(emitted, content_blocks, tool_calls)
    }
}

/// Once a piece has failed, the pieces after it change nothing.
proof fn lemma_calls_fail(builders: Seq<BuilderView>, calls: Seq<JsonView>, n: int)
    requires
        0 <= n <= calls.len(),
        with_calls(builders, calls.take(n)).1 is Some,
    ensures
        with_calls(builders, calls) == with_calls(builders, calls.take(n)),
    decreases calls.len() - n,
{
    if n < calls.len() {
        assert(calls.drop_last().take(n) =~= calls.take(n));
        lemma_calls_fail(builders, calls.drop_last(), n);
    } else {
        assert(calls.take(n) =~= calls);
    }
}

/// Payloads change neither the buffer nor whether the end mark has been
/// met.
pub proof fn lemma_payloads_keep_frame(s: OpenAiView, texts: Seq<Seq<char>>)
    ensures
        fed_payloads(s, texts).0.buffer == s.buffer,
        fed_payloads(s, texts).0.done == s.done,
    decreases texts.len(),
{
    if texts.len() > 0 {
        lemma_payloads_keep_frame(s, texts.drop_last());
    }
}

/// The end mark ends the stream. After a chunk the decoder is done exactly
/// if it was before or the chunk completed an event that holds the mark;
/// and a decoder that is done stays as it is whatever is fed to it, and
/// reports nothing.
pub proof fn lemma_end_mark_ends_stream(s: OpenAiView, chunk: Seq<char>, later: Seq<char>)
    ensures
        fed(s, chunk).0.done == (s.done || stream_payloads(
            drained_events(s.buffer + chunk),
        ).1),
        fed(s, chunk).0.done ==> fed(fed(s, chunk).0, later) == (
            fed(s, chunk).0,
            Seq::<JsonView>::empty(),
            None::<Seq<char>>,
        ),
{
    if !s.done {
        let text = s.buffer + chunk;
        let cut = stream_payloads(drained_events(text));
        lemma_payloads_keep_frame(
            OpenAiView {
                buffer: drained_rest(text),
                text: s.text,
                builders: s.builders,
                started: s.started,
                done: cut.1,
            },
            cut.0,
        );
    }
}

/// Once the end mark has been met, the events after it change nothing.
proof fn lemma_stream_ends(events: Seq<Seq<char>>, n: int)
    requires
        0 <= n <= events.len(),
        stream_payloads(events.take(n)).1,
    ensures
        stream_payloads(events) == stream_payloads(events.take(n)),
    decreases events.len() - n,
{
    if n < events.len() {
        assert(events.drop_last().take(n) =~= events.take(n));
        lemma_stream_ends(events.drop_last(), n);
    } else {
        assert(events.take(n) =~= events);
    }
}

/// Once a payload has failed, the payloads after it change nothing.
proof fn lemma_payloads_fail(s: OpenAiView, texts: Seq<Seq<char>>, n: int)
    requires
        0 <= n <= texts.len(),
        fed_payloads(s, texts.take(n)).2 is Some,
    ensures
        fed_payloads(s, texts) == fed_payloads(s, texts.take(n)),
    decreases texts.len() - n,
{
    if n < texts.len() {
        assert(texts.drop_last().take(n) =~= texts.take(n));
        lemma_payloads_fail(s, texts.drop_last(), n);
    } else {
        assert(texts.take(n) =~= texts);
    }
}

} // verus!

//! The message log, and the conversation that each provider is shown in
//! its place.
//!
//! A log holds records of three kinds, told apart by their `type`:
//! `user_prompt` with a `prompt`, `assistant` with the blocks of a reply
//! under `message.content`, and `user` with tool results under
//! `message.content`.

use vstd::prelude::*;
use vstd::string::StringExecFns;
use crate::json::{
    array1, clone_list, extend_json, json_views, object1, object2, object3, object4, push_json,
    stringify, stringify_value, Json, JsonView,
};
use crate::state::SessionState;
use crate::text::{blank, is_blank, str_eq};

verus! {

/// What a model asks the runner to do: one call of a tool.
#[derive(Debug, PartialEq)]
pub struct ToolCall {
    pub id: String,
    pub name: String,
    pub input: Json,
}

impl Clone for ToolCall {
    /// A copy with the same id, name and input.
    fn clone(&self) -> (r: ToolCall)
        ensures
            r.id == self.id,
            r.name == self.name,
            r.input@ == self.input@,
    {
        ToolCall { id: self.id.clone(), name: self.name.clone(), input: self.input.clone() }
    }
}

/// A tool call as plain values: its id, the tool's name and the input.
pub open spec fn call_view(call: ToolCall) -> (Seq<char>, Seq<char>, JsonView) {
    (call.id@, call.name@, call.input@)
}

/// The tool calls of a list as plain values.
pub open spec fn call_views(calls: Seq<ToolCall>) -> Seq<(Seq<char>, Seq<char>, JsonView)> {
    Seq::new(calls.len(), |i: int| call_view(calls[i]))
}

/// The blocks of a record, found under `message.content`, if they form an
/// array.
pub open spec fn content_of(item: JsonView) -> Option<Seq<JsonView>> {
    match item.child2("message"@, "content"@) {
        Some(content) => content.as_array(),
        None => None,
    }
}

/// Whether `block` is of the kind `kind`.
pub open spec fn is_kind(block: JsonView, kind: Seq<char>) -> bool {
    block.str_at("type"@) == Some(kind)
}

/// The text member `key` of `block`, or the empty text.
pub open spec fn text_or_empty(block: JsonView, key: Seq<char>) -> Seq<char> {
    match block.str_at(key) {
        Some(t) => t,
        None => Seq::empty(),
    }
}

/// A block of text.
pub open spec fn text_block(text: Seq<char>) -> JsonView {
    JsonView::Object(seq![("type"@, JsonView::Str("text"@)), ("text"@, JsonView::Str(text))])
}

/// The block that records a tool call in an assistant's reply.
pub open spec fn tool_use_block(id: Seq<char>, name: Seq<char>, input: JsonView) -> JsonView {
    JsonView::Object(
        seq![
            ("type"@, JsonView::Str("tool_use"@)),
            ("id"@, JsonView::Str(id)),
            ("name"@, JsonView::Str(name)),
            ("input"@, input),
        ],
    )
}

/// The blocks of tool calls, in order.
pub open spec fn tool_use_blocks(calls: Seq<ToolCall>) -> Seq<JsonView> {
    Seq::new(calls.len(), |i: int| tool_use_block(calls[i].id@, calls[i].name@, calls[i].input@))
}

/// The blocks of a reply with the text `text` and the tool calls `calls`:
/// the text first, unless it is blank, then one block for each call.
pub open spec fn content_blocks(text: Seq<char>, calls: Seq<ToolCall>) -> Seq<JsonView> {
    if is_blank(text) {
        tool_use_blocks(calls)
    } else {
        seq![text_block(text)] + tool_use_blocks(calls)
    }
}

/// The text that a failed tool reports when it gave none.
pub open spec fn failure_text() -> Seq<char> {
    "Tool execution failed."@
}

/// The content of a tool result: what the tool gave, but the standard
/// failure text where a failed tool gave only white space.
pub open spec fn safe_content(content: Seq<char>, is_error: bool) -> Seq<char> {
    if is_error && is_blank(content) {
        failure_text()
    } else {
        content
    }
}

/// The block that records the result of the tool call `tool_use_id`.
pub open spec fn tool_result_block(
    tool_use_id: Seq<char>,
    content: Seq<char>,
    is_error: bool,
) -> JsonView {
    JsonView::Object(
        seq![
            ("type"@, JsonView::Str("tool_result"@)),
            ("tool_use_id"@, JsonView::Str(tool_use_id)),
            ("content"@, JsonView::Str(safe_content(content, is_error))),
            ("is_error"@, JsonView::Bool(is_error)),
        ],
    )
}

/// A record of the kind `kind` whose content is `blocks`.
pub open spec fn record(kind: Seq<char>, blocks: Seq<JsonView>) -> JsonView {
    JsonView::Object(
        seq![
            ("type"@, JsonView::Str(kind)),
            ("message"@, JsonView::Object(seq![("content"@, JsonView::Array(blocks))])),
        ],
    )
}

/// The log record of the result of the tool call `tool_use_id`.
pub open spec fn tool_result_message(
    tool_use_id: Seq<char>,
    content: Seq<char>,
    is_error: bool,
) -> JsonView {
    record("user"@, seq![tool_result_block(tool_use_id, content, is_error)])
}

/// The log record of a user's prompt.
pub open spec fn user_prompt_record(prompt: Seq<char>) -> JsonView {
    JsonView::Object(
        seq![("type"@, JsonView::Str("user_prompt"@)), ("prompt"@, JsonView::Str(prompt))],
    )
}

/// A turn of a conversation: who speaks and what.
pub open spec fn turn(role: Seq<char>, content: JsonView) -> JsonView {
    JsonView::Object(seq![("role"@, JsonView::Str(role)), ("content"@, content)])
}

/// The log record of the result of the tool call `tool_use_id`: a `user`
/// record with one `tool_result` block. A failed tool that gave only white
/// space is recorded with the standard failure text.
pub fn build_tool_result_message(tool_use_id: &str, content: &str, is_error: bool) -> (r: Json)
    ensures
        r@ == tool_result_message(tool_use_id@, content@, is_error),
{
    let safe = if is_error && blank(content) {
        Json::string("Tool execution failed.")
    } else {
        Json::string(content)
    };
    let block = object4(
        "type",
        Json::string("tool_result"),
        "tool_use_id",
        Json::string(tool_use_id),
        "content",
        safe,
        "is_error",
        Json::Bool(is_error),
    );
    object2("type", Json::string("user"), "message", object1("content", array1(block)))
}

/// The log record of a user's prompt.
pub fn user_prompt_message(prompt: &str) -> (r: Json)
    ensures
        r@ == user_prompt_record(prompt@),
{
    object2("type", Json::string("user_prompt"), "prompt", Json::string(prompt))
}

/// The blocks of a reply with the text `text` and the tool calls
/// `tool_calls`.
pub fn build_content_blocks(text: &str, tool_calls: &Vec<ToolCall>) -> (r: Vec<Json>)
    ensures
        json_views(r@) == content_blocks(text@, tool_calls@),
{
    let mut blocks: Vec<Json> = Vec::new();
    assert(json_views(blocks@) =~= Seq::<JsonView>::empty());
    if !blank(text) {
        push_json(&mut blocks, object2("type", Json::string("text"), "text", Json::string(text)));
    }
    let ghost head = json_views(blocks@);
    let mut i: usize = 0;
    while i < tool_calls.len()
        invariant
            i <= tool_calls.len(),
            json_views(blocks@) == head + tool_use_blocks(tool_calls@.take(i as int)),
        decreases tool_calls.len() - i,
    {
        let call = &tool_calls[i];
        let block = object4(
            "type",
            Json::string("tool_use"),
            "id",
            Json::string(call.id.as_str()),
            "name",
            Json::string(call.name.as_str()),
            "input",
            call.input.clone(),
        );
        push_json(&mut blocks, block);
        i += 1;
        assert(tool_use_blocks(tool_calls@.take(i as int)) =~= tool_use_blocks(
            tool_calls@.take(i - 1),
        ).push(block@));
    }
    assert(tool_calls@.take(i as int) =~= tool_calls@);
    assert(Seq::<JsonView>::empty() + tool_use_blocks(tool_calls@) =~= tool_use_blocks(
        tool_calls@,
    ));
    blocks
}

/// The blocks of `item`, found under `message.content`, if they form an
/// array.
pub fn record_content(item: &Json) -> (r: Option<&Vec<Json>>)
    ensures
        match r {
            Some(blocks) => content_of(item@) == Some(json_views(blocks@)),
            None => content_of(item@) is None,
        },
{
    match item.child2("message", "content") {
        Some(content) => content.as_array(),
        None => None,
    }
}

/// Whether `block` is of the kind `kind`.
pub fn has_kind(block: &Json, kind: &str) -> (r: bool)
    ensures
        r == is_kind(block@, kind@),
{
    match block.str_at("type") {
        Some(t) => str_eq(t, kind),
        None => false,
    }
}

/// The text member `key` of `block`, or the empty text.
pub fn member_text(block: &Json, key: &str) -> (r: Json)
    ensures
        r@ == JsonView::Str(text_or_empty(block@, key@)),
{
    match block.str_at(key) {
        Some(t) => Json::string(t),
        None => Json::empty_string(),
    }
}

/// The text of one block of a reply: its `text` if it is a text block,
/// nothing otherwise.
pub open spec fn block_text(block: JsonView) -> Seq<char> {
    if is_kind(block, "text"@) {
        text_or_empty(block, "text"@)
    } else {
        Seq::empty()
    }
}

/// The text of a reply: the texts of its text blocks, one after the other.
pub open spec fn assistant_text(blocks: Seq<JsonView>) -> Seq<char>
    decreases blocks.len(),
{
    if blocks.len() == 0 {
        Seq::empty()
    } else {
        assistant_text(blocks.drop_last()) + block_text(blocks.last())
    }
}

/// The member `key` of `block`, or `fallback` if it has none.
pub open spec fn member_or(block: JsonView, key: Seq<char>, fallback: JsonView) -> JsonView {
    match block.get(key) {
        Some(v) => v,
        None => fallback,
    }
}

/// A tool call in the OpenAI shape, made from a `tool_use` block: the input
/// goes in as text.
pub open spec fn openai_call(block: JsonView) -> JsonView {
    JsonView::Object(
        seq![
            ("id"@, JsonView::Str(text_or_empty(block, "id"@))),
            ("type"@, JsonView::Str("function"@)),
            (
                "function"@,
                JsonView::Object(
                    seq![
                        ("name"@, JsonView::Str(text_or_empty(block, "name"@))),
                        (
                            "arguments"@,
                            JsonView::Str(stringify(member_or(block, "input"@, JsonView::Null))),
                        ),
                    ],
                ),
            ),
        ],
    )
}

/// The tool calls of a reply in the OpenAI shape: one for each `tool_use`
/// block, in order.
pub open spec fn assistant_calls(blocks: Seq<JsonView>) -> Seq<JsonView>
    decreases blocks.len(),
{
    if blocks.len() == 0 {
        seq![]
    } else if is_kind(blocks.last(), "tool_use"@) {
        assistant_calls(blocks.drop_last()).push(openai_call(blocks.last()))
    } else {
        assistant_calls(blocks.drop_last())
    }
}

/// The assistant's turn in the OpenAI shape for a reply with the blocks
/// `blocks`: its text and, if there are any, its tool calls. A reply
/// without tool calls and with blank text gives no turn.
pub open spec fn assistant_turn(blocks: Seq<JsonView>) -> Seq<JsonView> {
    let text = assistant_text(blocks);
    let calls = assistant_calls(blocks);
    if calls.len() > 0 {
        seq![
            JsonView::Object(
                seq![
                    ("role"@, JsonView::Str("assistant"@)),
                    ("content"@, JsonView::Str(text)),
                    ("tool_calls"@, JsonView::Array(calls)),
                ],
            ),
        ]
    } else if !is_blank(text) {
        seq![turn("assistant"@, JsonView::Str(text))]
    } else {
        seq![]
    }
}

/// A tool's turn in the OpenAI shape, made from a `tool_result` block: the
/// content goes in as text.
pub open spec fn tool_message(block: JsonView) -> JsonView {
    JsonView::Object(
        seq![
            ("role"@, JsonView::Str("tool"@)),
            ("tool_call_id"@, JsonView::Str(text_or_empty(block, "tool_use_id"@))),
            (
                "content"@,
                JsonView::Str(
                    stringify(member_or(block, "content"@, JsonView::Str(Seq::empty()))),
                ),
            ),
        ],
    )
}

/// The tools' turns in the OpenAI shape: one for each `tool_result` block,
/// in order. Other blocks are left out.
pub open spec fn tool_messages(blocks: Seq<JsonView>) -> Seq<JsonView>
    decreases blocks.len(),
{
    if blocks.len() == 0 {
        seq![]
    } else if is_kind(blocks.last(), "tool_result"@) {
        tool_messages(blocks.drop_last()).push(tool_message(blocks.last()))
    } else {
        tool_messages(blocks.drop_last())
    }
}

/// The turns in the OpenAI shape that one log record gives.
pub open spec fn openai_record(item: JsonView) -> Seq<JsonView> {
    if is_kind(item, "user_prompt"@) {
        match item.str_at("prompt"@) {
            Some(prompt) => seq![turn("user"@, JsonView::Str(prompt))],
            None => seq![],
        }
    } else if is_kind(item, "assistant"@) {
        match content_of(item) {
            Some(blocks) => assistant_turn(blocks),
            None => seq![],
        }
    } else if is_kind(item, "user"@) {
        match content_of(item) {
            Some(blocks) => tool_messages(blocks),
            None => seq![],
        }
    } else {
        seq![]
    }
}

/// The conversation in the OpenAI shape that the log `log` stands for: the
/// turns of its records, in order.
pub open spec fn openai_messages(log: Seq<JsonView>) -> Seq<JsonView>
    decreases log.len(),
{
    if log.len() == 0 {
        seq![]
    } else {
        openai_messages(log.drop_last()) + openai_record(log.last())
    }
}

/// The text with which a member of `block` goes into an OpenAI turn.
fn member_as_text(block: &Json, key: &str, fallback: Json) -> (r: Json)
    ensures
        r@ == JsonView::Str(stringify(member_or(block@, key@, fallback@))),
{
    match block.get(key) {
        Some(v) => Json::Str(stringify_value(v)),
        None => Json::Str(stringify_value(&fallback)),
    }
}

/// Appends to `out` the assistant's turn for a reply with the blocks
/// `blocks`.
fn push_assistant_turn(out: &mut Vec<Json>, blocks: &Vec<Json>)
    ensures
        json_views(final(out)@) == json_views(old(out)@) + assistant_turn(json_views(blocks@)),
{
    let ghost all = json_views(blocks@);
    let mut text = String::new();
    let mut calls: Vec<Json> = Vec::new();
    let mut i: usize = 0;
    assert(json_views(calls@) =~= Seq::<JsonView>::empty());
    assert(all.take(0) =~= Seq::<JsonView>::empty());
    while i < blocks.len()
        invariant
            i <= blocks.len(),
            all == json_views(blocks@),
            text@ == assistant_text(all.take(i as int)),
            json_views(calls@) == assistant_calls(all.take(i as int)),
        decreases blocks.len() - i,
    {
        let block = &blocks[i];
        proof {
            assert(all.take(i + 1).drop_last() =~= all.take(i as int));
            assert(all.take(i + 1).last() == block@);
        }
        if has_kind(block, "text") {
            match block.str_at("text") {
                Some(part) => {
                    text.append(part);
                },
                None => {
                    assert(text@ + Seq::<char>::empty() =~= text@);
                },
            }
        } else {
            assert(text@ + Seq::<char>::empty() =~= text@);
        }
        if has_kind(block, "tool_use") {
            let call = object3(
                "id",
                member_text(block, "id"),
                "type",
                Json::string("function"),
                "function",
                object2(
                    "name",
                    member_text(block, "name"),
                    "arguments",
                    member_as_text(block, "input", Json::Null),
                ),
            );
            push_json(&mut calls, call);
        }
        i += 1;
    }
    assert(all.take(i as int) =~= all);
    if calls.len() > 0 {
        let message = object3(
            "role",
            Json::string("assistant"),
            "content",
            Json::string(text.as_str()),
            "tool_calls",
            Json::array(calls),
        );
        push_json(out, message);
        assert(json_views(old(out)@).push(message@) =~= json_views(old(out)@) + seq![message@]);
    } else if !blank(text.as_str()) {
        let message = object2(
            "role",
            Json::string("assistant"),
            "content",
            Json::string(text.as_str()),
        );
        push_json(out, message);
        assert(json_views(old(out)@).push(message@) =~= json_views(old(out)@) + seq![message@]);
    } else {
        assert(json_views(old(out)@) + Seq::<JsonView>::empty() =~= json_views(old(out)@));
    }
}

/// Appends to `out` the tools' turns for the blocks `blocks`.
fn push_tool_messages(out: &mut Vec<Json>, blocks: &Vec<Json>)
    ensures
        json_views(final(out)@) == json_views(old(out)@) + tool_messages(json_views(blocks@)),
{
    let ghost all = json_views(blocks@);
    let ghost head = json_views(out@);
    let mut i: usize = 0;
    assert(all.take(0) =~= Seq::<JsonView>::empty());
    assert(head + Seq::<JsonView>::empty() =~= head);
    while i < blocks.len()
        invariant
            i <= blocks.len(),
            all == json_views(blocks@),
            json_views(out@) == head + tool_messages(all.take(i as int)),
        decreases blocks.len() - i,
    {
        let block = &blocks[i];
        proof {
            assert(all.take(i + 1).drop_last() =~= all.take(i as int));
            assert(all.take(i + 1).last() == block@);
        }
        if has_kind(block, "tool_result") {
            let message = object3(
                "role",
                Json::string("tool"),
                "tool_call_id",
                member_text(block, "tool_use_id"),
                "content",
                member_as_text(block, "content", Json::empty_string()),
            );
            let ghost before = tool_messages(all.take(i as int));
            push_json(out, message);
            assert((head + before).push(message@) =~= head + before.push(message@));
        }
        i += 1;
    }
    assert(all.take(i as int) =~= all);
}

/// Appends to `out` the turns in the OpenAI shape that the record `item`
/// gives.
fn push_openai_record(out: &mut Vec<Json>, item: &Json)
    ensures
        json_views(final(out)@) == json_views(old(out)@) + openai_record(item@),
{
    let ghost head = json_views(out@);
    if has_kind(item, "user_prompt") {
        match item.str_at("prompt") {
            Some(prompt) => {
                let message = object2(
                    "role",
                    Json::string("user"),
                    "content",
                    Json::string(prompt),
                );
                push_json(out, message);
                assert(head.push(message@) =~= head + seq![message@]);
            },
            None => {
                assert(head + Seq::<JsonView>::empty() =~= head);
            },
        }
    } else if has_kind(item, "assistant") {
        match record_content(item) {
            Some(blocks) => {
                push_assistant_turn(out, blocks);
            },
            None => {
                assert(head + Seq::<JsonView>::empty() =~= head);
            },
        }
    } else if has_kind(item, "user") {
        match record_content(item) {
            Some(blocks) => {
                push_tool_messages(out, blocks);
            },
            None => {
                assert(head + Seq::<JsonView>::empty() =~= head);
            },
        }
    } else {
        assert(head + Seq::<JsonView>::empty() =~= head);
    }
}

/// The conversation in the OpenAI shape that the log `history` stands for.
pub fn openai_messages_of(history: &Vec<Json>) -> (r: Vec<Json>)
    ensures
        json_views(r@) == openai_messages(json_views(history@)),
{
    let ghost all = json_views(history@);
    let mut out: Vec<Json> = Vec::new();
    let mut i: usize = 0;
    assert(json_views(out@) =~= Seq::<JsonView>::empty());
    assert(all.take(0) =~= Seq::<JsonView>::empty());
    while i < history.len()
        invariant
            i <= history.len(),
            all == json_views(history@),
            json_views(out@) == openai_messages(all.take(i as int)),
        decreases history.len() - i,
    {
        proof {
            assert(all.take(i + 1).drop_last() =~= all.take(i as int));
            assert(all.take(i + 1).last() == history@[i as int]@);
        }
        push_openai_record(&mut out, &history[i]);
        i += 1;
    }
    assert(all.take(i as int) =~= all);
    out
}

/// Every block of `blocks` is of the kind `kind`; true of no blocks.
pub open spec fn all_kind(blocks: Seq<JsonView>, kind: Seq<char>) -> bool {
    forall|i: int| 0 <= i < blocks.len() ==> is_kind(#[trigger] blocks[i], kind)
}

/// The turns `out` once the tool results held back in `pending` are let go:
/// they follow as one user turn, if there are any.
pub open spec fn flushed(out: Seq<JsonView>, pending: Seq<JsonView>) -> Seq<JsonView> {
    if pending.len() == 0 {
        out
    } else {
        out.push(turn("user"@, JsonView::Array(pending)))
    }
}

/// One step of the walk through the log for the Anthropic shape. The state
/// is the turns made so far and the tool results held back. A prompt and a
/// reply let the held results go and add their own turn; a `user` record of
/// tool results only is held back with them; any other `user` record with
/// blocks lets them go and adds its turn.
pub open spec fn anthropic_step(state: (Seq<JsonView>, Seq<JsonView>), item: JsonView) -> (
    Seq<JsonView>,
    Seq<JsonView>,
) {
    let (out, pending) = state;
    if is_kind(item, "user_prompt"@) {
        match item.str_at("prompt"@) {
            Some(prompt) => (
                flushed(out, pending).push(
                    turn("user"@, JsonView::Array(seq![text_block(prompt)])),
                ),
                seq![],
            ),
            None => (flushed(out, pending), seq![]),
        }
    } else if is_kind(item, "assistant"@) {
        match content_of(item) {
            Some(blocks) => (
                flushed(out, pending).push(turn("assistant"@, JsonView::Array(blocks))),
                seq![],
            ),
            None => (flushed(out, pending), seq![]),
        }
    } else if is_kind(item, "user"@) {
        match content_of(item) {
            Some(blocks) => if all_kind(blocks, "tool_result"@) {
                (out, pending + blocks)
            } else {
                (flushed(out, pending).push(turn("user"@, JsonView::Array(blocks))), seq![])
            },
            None => (out, pending),
        }
    } else {
        (out, pending)
    }
}

/// The walk through the whole log: the turns made and the tool results
/// still held back at its end.
pub open spec fn anthropic_walk(log: Seq<JsonView>) -> (Seq<JsonView>, Seq<JsonView>)
    decreases log.len(),
{
    if log.len() == 0 {
        (seq![], seq![])
    } else {
        anthropic_step(anthropic_walk(log.drop_last()), log.last())
    }
}

/// The conversation in the Anthropic shape that the log `log` stands for:
/// the turns of the walk, and the tool results held back at its end as a
/// last user turn.
pub open spec fn anthropic_messages(log: Seq<JsonView>) -> Seq<JsonView> {
    flushed(anthropic_walk(log).0, anthropic_walk(log).1)
}

/// A `user` record that holds tool results and nothing else.
pub open spec fn is_tool_result_record(item: JsonView) -> bool {
    &&& is_kind(item, "user"@)
    &&& content_of(item) matches Some(blocks)
    &&& all_kind(blocks, "tool_result"@)
}

/// The blocks of a run of records, one record's after the other's.
pub open spec fn run_blocks(run: Seq<JsonView>) -> Seq<JsonView>
    decreases run.len(),
{
    if run.len() == 0 {
        seq![]
    } else {
        match content_of(run.last()) {
            Some(blocks) => run_blocks(run.drop_last()) + blocks,
            None => run_blocks(run.drop_last()),
        }
    }
}

/// The three kinds of records have different names.
proof fn lemma_kinds_differ()
    ensures
        "user"@ != "user_prompt"@,
        "user"@ != "assistant"@,
        "user_prompt"@ != "assistant"@,
{
    reveal_strlit("user");
    reveal_strlit("user_prompt");
    reveal_strlit("assistant");
    assert("user"@.len() == 4);
    assert("user_prompt"@.len() == 11);
    assert("assistant"@.len() == 9);
}

/// A run of `user` records of tool results adds no turn of its own: the walk
/// holds all their blocks back together, so that they leave as one user
/// turn, however many records brought them.
pub proof fn lemma_tool_results_coalesce(log: Seq<JsonView>, run: Seq<JsonView>)
    requires
        forall|i: int| 0 <= i < run.len() ==> is_tool_result_record(#[trigger] run[i]),
    ensures
        anthropic_walk(log + run) == (
            anthropic_walk(log).0,
            anthropic_walk(log).1 + run_blocks(run),
        ),
        anthropic_messages(log + run) == flushed(
            anthropic_walk(log).0,
            anthropic_walk(log).1 + run_blocks(run),
        ),
    decreases run.len(),
{
    lemma_kinds_differ();
    if run.len() == 0 {
        assert(log + run =~= log);
        assert(anthropic_walk(log).1 + run_blocks(run) =~= anthropic_walk(log).1);
    } else {
        let prefix = run.drop_last();
        let item = run.last();
        assert(is_tool_result_record(item));
        assert forall|i: int| 0 <= i < prefix.len() implies is_tool_result_record(
            #[trigger] prefix[i],
        ) by {
            assert(prefix[i] == run[i]);
        }
        lemma_tool_results_coalesce(log, prefix);
        assert((log + run).drop_last() =~= log + prefix);
        assert((log + run).last() == item);
        let blocks = content_of(item)->Some_0;
        assert((anthropic_walk(log).1 + run_blocks(prefix)) + blocks =~= anthropic_walk(log).1 + (
        run_blocks(prefix) + blocks));
    }
}

/// A `user` record whose blocks are not all tool results lets the results
/// held back go as one user turn and adds its own turn after it.
pub proof fn lemma_other_user_record_flushes(log: Seq<JsonView>, item: JsonView)
    requires
        is_kind(item, "user"@),
        content_of(item) matches Some(blocks) && !all_kind(blocks, "tool_result"@),
    ensures
        anthropic_walk(log.push(item)) == (
            flushed(anthropic_walk(log).0, anthropic_walk(log).1).push(
                turn("user"@, JsonView::Array(content_of(item)->Some_0)),
            ),
            Seq::<JsonView>::empty(),
        ),
{
    lemma_kinds_differ();
    assert(log.push(item).drop_last() =~= log);
}

/// A `user` record with blocks that are not all tool results.
pub open spec fn is_other_user_record(item: JsonView) -> bool {
    &&& is_kind(item, "user"@)
    &&& content_of(item) matches Some(blocks)
    &&& !all_kind(blocks, "tool_result"@)
}

/// A record that lets the tool results held back go: a prompt, a reply, or
/// a `user` record whose blocks are not all tool results.
pub open spec fn flushes(item: JsonView) -> bool {
    ||| is_kind(item, "user_prompt"@)
    ||| is_kind(item, "assistant"@)
    ||| is_other_user_record(item)
}

/// A step of the walk takes no turn back; and after a record that flushes
/// nothing is held back, and the turns begin with those that were made and
/// held back before it.
pub proof fn lemma_step_keeps_turns(state: (Seq<JsonView>, Seq<JsonView>), item: JsonView)
    ensures
        state.0.is_prefix_of(anthropic_step(state, item).0),
        flushes(item) ==> anthropic_step(state, item).1.len() == 0 && flushed(
            state.0,
            state.1,
        ).is_prefix_of(anthropic_step(state, item).0),
{
    lemma_kinds_differ();
}

/// What follows in the log takes no turn back: the turns that the walk has
/// made of a log stay, in their places, whatever records come after.
pub proof fn lemma_turns_stay(log: Seq<JsonView>, rest: Seq<JsonView>)
    ensures
        anthropic_walk(log).0.is_prefix_of(anthropic_walk(log + rest).0),
        anthropic_walk(log).0.is_prefix_of(anthropic_messages(log + rest)),
    decreases rest.len(),
{
    if rest.len() == 0 {
        assert(log + rest =~= log);
    } else {
        lemma_turns_stay(log, rest.drop_last());
        assert((log + rest).drop_last() =~= log + rest.drop_last());
        assert((log + rest).last() == rest.last());
        lemma_step_keeps_turns(anthropic_walk(log + rest.drop_last()), rest.last());
    }
}

/// A run of tool-result records becomes one user turn, wherever in the log
/// it stands. The run begins the log or follows a record that flushes, it
/// holds at least one block, and the record `next` after it flushes. Then
/// the conversation holds, right after the turns made of what came before
/// the run, one user turn with the blocks of the whole run in their order;
/// and so it stays whatever follows in the log.
pub proof fn lemma_run_is_one_turn(
    before: Seq<JsonView>,
    run: Seq<JsonView>,
    next: JsonView,
    rest: Seq<JsonView>,
)
    requires
        before.len() == 0 || flushes(before.last()),
        forall|i: int| 0 <= i < run.len() ==> is_tool_result_record(#[trigger] run[i]),
        run_blocks(run).len() > 0,
        flushes(next),
    ensures
        anthropic_walk(before).1.len() == 0,
        anthropic_walk((before + run).push(next)).1.len() == 0,
        anthropic_walk(before).0.push(
            turn("user"@, JsonView::Array(run_blocks(run))),
        ).is_prefix_of(anthropic_walk((before + run).push(next)).0),
        anthropic_walk(before).0.push(
            turn("user"@, JsonView::Array(run_blocks(run))),
        ).is_prefix_of(anthropic_messages((before + run).push(next) + rest)),
{
    if before.len() > 0 {
        lemma_step_keeps_turns(anthropic_walk(before.drop_last()), before.last());
    }
    lemma_tool_results_coalesce(before, run);
    assert(anthropic_walk(before).1 + run_blocks(run) =~= run_blocks(run));
    let whole = (before + run).push(next);
    assert(whole.drop_last() =~= before + run);
    lemma_step_keeps_turns(anthropic_walk(before + run), next);
    lemma_turns_stay(whole, rest);
}

/// Tool results are not merged across another record. Where a record of
/// tool results, a `user` record with a block that is no tool result and
/// another record of tool results follow one another, after a record that
/// flushes and before one, the conversation holds three user turns, one
/// after the other: the blocks of the first, of the second and of the
/// third record.
pub proof fn lemma_results_stay_apart(
    before: Seq<JsonView>,
    first: JsonView,
    other: JsonView,
    second: JsonView,
    rest: Seq<JsonView>,
)
    requires
        before.len() == 0 || flushes(before.last()),
        is_tool_result_record(first) && content_of(first)->Some_0.len() > 0,
        is_other_user_record(other),
        is_tool_result_record(second) && content_of(second)->Some_0.len() > 0,
        rest.len() == 0 || flushes(rest[0]),
    ensures
        ({
            let made = anthropic_walk(before).0;
            let all = anthropic_messages(before.push(first).push(other).push(second) + rest);
            made.push(turn("user"@, JsonView::Array(content_of(first)->Some_0))).push(
                turn("user"@, JsonView::Array(content_of(other)->Some_0)),
            ).push(turn("user"@, JsonView::Array(content_of(second)->Some_0))).is_prefix_of(all)
        }),
{
    let one = Seq::<JsonView>::empty().push(first);
    let two = Seq::<JsonView>::empty().push(second);
    assert(one.drop_last() =~= Seq::<JsonView>::empty());
    assert(two.drop_last() =~= Seq::<JsonView>::empty());
    assert(run_blocks(one.drop_last()) =~= Seq::<JsonView>::empty());
    assert(run_blocks(two.drop_last()) =~= Seq::<JsonView>::empty());
    assert(run_blocks(one) =~= content_of(first)->Some_0);
    assert(run_blocks(two) =~= content_of(second)->Some_0);
    let made = anthropic_walk(before).0;
    let middle = before.push(first).push(other);
    assert(before + one =~= before.push(first));
    lemma_run_is_one_turn(before, one, other, Seq::empty());
    lemma_tool_results_coalesce(before, one);
    assert(anthropic_walk(before).1 + run_blocks(one) =~= run_blocks(one));
    lemma_other_user_record_flushes(before.push(first), other);
    let turns = made.push(turn("user"@, JsonView::Array(content_of(first)->Some_0))).push(
        turn("user"@, JsonView::Array(content_of(other)->Some_0)),
    );
    assert(anthropic_walk(middle) == (turns, Seq::<JsonView>::empty()));
    assert(middle + two =~= middle.push(second));
    let whole = middle.push(second) + rest;
    if rest.len() == 0 {
        lemma_tool_results_coalesce(middle, two);
        assert(whole =~= middle + two);
        assert(anthropic_walk(middle).1 + run_blocks(two) =~= run_blocks(two));
    } else {
        assert(whole =~= (middle + two).push(rest[0]) + rest.drop_first());
        lemma_run_is_one_turn(middle, two, rest[0], rest.drop_first());
    }
}

/// Whether every block of `blocks` is of the kind `kind`.
pub fn every_kind(blocks: &Vec<Json>, kind: &str) -> (r: bool)
    ensures
        r == all_kind(json_views(blocks@), kind@),
{
    let ghost all = json_views(blocks@);
    let mut i: usize = 0;
    while i < blocks.len()
        invariant
            i <= blocks.len(),
            all == json_views(blocks@),
            forall|j: int| 0 <= j < i ==> is_kind(#[trigger] all[j], kind@),
        decreases blocks.len() - i,
    {
        if !has_kind(&blocks[i], kind) {
            assert(!is_kind(all[i as int], kind@));
            return false;
        }
        i += 1;
    }
    true
}

/// Lets the tool results held back in `pending` go: they are appended to
/// `output` as one user turn, if there are any, and `pending` is emptied.
fn flush_tool_results(pending: &mut Vec<Json>, output: &mut Vec<Json>)
    ensures
        json_views(final(output)@) == flushed(json_views(old(output)@), json_views(old(pending)@)),
        json_views(final(pending)@) == Seq::<JsonView>::empty(),
{
    assert(json_views(old(pending)@).len() == old(pending)@.len());
    if pending.len() == 0 {
        assert(json_views(pending@) =~= Seq::<JsonView>::empty());
        return ;
    }
    let mut taken: Vec<Json> = Vec::new();
    std::mem::swap(pending, &mut taken);
    assert(json_views(pending@) =~= Seq::<JsonView>::empty());
    push_json(output, object2("role", Json::string("user"), "content", Json::array(taken)));
}

/// The conversation in the Anthropic shape that the log `history` stands
/// for.
pub fn anthropic_messages_of(history: &Vec<Json>) -> (r: Vec<Json>)
    ensures
        json_views(r@) == anthropic_messages(json_views(history@)),
{
    let ghost all = json_views(history@);
    let mut messages: Vec<Json> = Vec::new();
    let mut pending: Vec<Json> = Vec::new();
    let mut i: usize = 0;
    assert(json_views(messages@) =~= Seq::<JsonView>::empty());
    assert(json_views(pending@) =~= Seq::<JsonView>::empty());
    assert(all.take(0) =~= Seq::<JsonView>::empty());
    while i < history.len()
        invariant
            i <= history.len(),
            all == json_views(history@),
            (json_views(messages@), json_views(pending@)) == anthropic_walk(all.take(i as int)),
        decreases history.len() - i,
    {
        let item = &history[i];
        proof {
            assert(all.take(i + 1).drop_last() =~= all.take(i as int));
            assert(all.take(i + 1).last() == item@);
        }
        if has_kind(item, "user_prompt") {
            flush_tool_results(&mut pending, &mut messages);
            match item.str_at("prompt") {
                Some(prompt) => {
                    let block = object2("type", Json::string("text"), "text", Json::string(prompt));
                    push_json(
                        &mut messages,
                        object2("role", Json::string("user"), "content", array1(block)),
                    );
                },
                None => {},
            }
        } else if has_kind(item, "assistant") {
            flush_tool_results(&mut pending, &mut messages);
            match record_content(item) {
                Some(blocks) => {
                    push_json(
                        &mut messages,
                        object2(
                            "role",
                            Json::string("assistant"),
                            "content",
                            Json::array(clone_list(blocks)),
                        ),
                    );
                },
                None => {},
            }
        } else if has_kind(item, "user") {
            match record_content(item) {
                Some(blocks) => {
                    if every_kind(blocks, "tool_result") {
                        extend_json(&mut pending, blocks);
                    } else {
                        flush_tool_results(&mut pending, &mut messages);
                        push_json(
                            &mut messages,
                            object2(
                                "role",
                                Json::string("user"),
                                "content",
                                Json::array(clone_list(blocks)),
                            ),
                        );
                    }
                },
                None => {},
            }
        }
        i += 1;
    }
    assert(all.take(i as int) =~= all);
    flush_tool_results(&mut pending, &mut messages);
    messages
}

/// The conversation in the OpenAI shape for the session `session_id`, made
/// from its message log.
pub fn build_openai_messages(state: &SessionState, session_id: &str) -> (r: Vec<Json>)
    ensures
        json_views(r@) == openai_messages(state.log_of(session_id@)),
{
    let history = state.get_messages(session_id);
    openai_messages_of(&history)
}

/// The conversation in the Anthropic shape for the session `session_id`,
/// made from its message log.
pub fn build_anthropic_messages(state: &SessionState, session_id: &str) -> (r: Vec<Json>)
    ensures
        json_views(r@) == anthropic_messages(state.log_of(session_id@)),
{
    let history = state.get_messages(session_id);
    anthropic_messages_of(&history)
}

} // verus!

//! What holds of a message log that only the runner writes to.
//!
//! The runner writes three kinds of records: the user's prompts, the
//! assistant's replies and the results of tool calls. Two things hold of
//! every log made of such writes, and are proved here: no reply is recorded
//! without a block, and every tool result answers a tool call that an
//! earlier reply made.

use vstd::prelude::*;
use crate::anthropic_stream::{ended_calls, ended_content, BlockView};
use crate::history::{
    content_blocks, content_of, is_kind, record, tool_result_block, tool_result_message,
    tool_use_block, tool_use_blocks, user_prompt_record, ToolCall,
};
use crate::json::{lookup, JsonView};

verus! {

/// The record `item` is a reply that calls a tool under the id `id`.
pub open spec fn calls_tool(item: JsonView, id: Seq<char>) -> bool {
    &&& is_kind(item, "assistant"@)
    &&& content_of(item) matches Some(blocks)
    &&& exists|j: int|
        0 <= j < blocks.len() && is_kind(#[trigger] blocks[j], "tool_use"@) && blocks[j].str_at(
            "id"@,
        ) == Some(id)
}

/// Some record of `log` before index `upto` is a reply that calls a tool
/// under the id `id`.
pub open spec fn called_before(log: Seq<JsonView>, upto: int, id: Seq<char>) -> bool {
    exists|k: int| 0 <= k < upto && k < log.len() && calls_tool(#[trigger] log[k], id)
}

/// Some record of `log` is a reply that calls a tool under the id `id`.
pub open spec fn called(log: Seq<JsonView>, id: Seq<char>) -> bool {
    called_before(log, log.len() as int, id)
}

/// The record at index `i` of `log` holds no tool result but for tool calls
/// that earlier replies made.
pub open spec fn answers_calls(log: Seq<JsonView>, i: int) -> bool {
    is_kind(log[i], "user"@) ==> (content_of(log[i]) matches Some(blocks) ==> forall|j: int|
        0 <= j < blocks.len() && is_kind(#[trigger] blocks[j], "tool_result"@) ==> (
        blocks[j].str_at("tool_use_id"@) matches Some(id) ==> called_before(log, i, id)))
}

/// Every tool result in `log` answers a tool call that an earlier reply
/// made.
pub open spec fn results_answer_calls(log: Seq<JsonView>) -> bool {
    forall|i: int| 0 <= i < log.len() ==> #[trigger] answers_calls(log, i)
}

/// No reply in `log` is without a block.
pub open spec fn replies_have_blocks(log: Seq<JsonView>) -> bool {
    forall|i: int|
        0 <= i < log.len() && is_kind(#[trigger] log[i], "assistant"@) ==> (content_of(
            log[i],
        ) matches Some(blocks) ==> blocks.len() > 0)
}

/// The log is as the runner keeps it.
pub open spec fn sound(log: Seq<JsonView>) -> bool {
    results_answer_calls(log) && replies_have_blocks(log)
}

/// Some block of `blocks` is the tool call under the id `id`.
pub open spec fn names_call(blocks: Seq<JsonView>, id: Seq<char>) -> bool {
    exists|j: int|
        0 <= j < blocks.len() && is_kind(#[trigger] blocks[j], "tool_use"@) && blocks[j].str_at(
            "id"@,
        ) == Some(id)
}

/// What a lookup finds among two fields.
proof fn lemma_lookup2(
    k1: Seq<char>,
    v1: JsonView,
    k2: Seq<char>,
    v2: JsonView,
    key: Seq<char>,
)
    ensures
        lookup(seq![(k1, v1), (k2, v2)], key) == if key == k2 {
            Some(v2)
        } else if key == k1 {
            Some(v1)
        } else {
            None
        },
{
    let s = seq![(k1, v1), (k2, v2)];
    assert(s.last() == (k2, v2));
    let t = s.drop_last();
    assert(t.len() == 1 && t.last() == (k1, v1));
    assert(t.drop_last().len() == 0);
    reveal_with_fuel(lookup, 3);
}

/// What a lookup finds among four fields.
proof fn lemma_lookup4(
    k1: Seq<char>,
    v1: JsonView,
    k2: Seq<char>,
    v2: JsonView,
    k3: Seq<char>,
    v3: JsonView,
    k4: Seq<char>,
    v4: JsonView,
    key: Seq<char>,
)
    ensures
        lookup(seq![(k1, v1), (k2, v2), (k3, v3), (k4, v4)], key) == if key == k4 {
            Some(v4)
        } else if key == k3 {
            Some(v3)
        } else if key == k2 {
            Some(v2)
        } else if key == k1 {
            Some(v1)
        } else {
            None
        },
{
    let s = seq![(k1, v1), (k2, v2), (k3, v3), (k4, v4)];
    assert(s.last() == (k4, v4));
    let t = s.drop_last();
    assert(t.len() == 3 && t.last() == (k3, v3));
    let u = t.drop_last();
    assert(u.len() == 2 && u.last() == (k2, v2));
    let w = u.drop_last();
    assert(w.len() == 1 && w.last() == (k1, v1));
    assert(w.drop_last().len() == 0);
    reveal_with_fuel(lookup, 5);
}

/// The names that records and blocks go by are all different.
proof fn lemma_names_differ()
    ensures
        "type"@ != "message"@,
        "type"@ != "prompt"@,
        "type"@ != "text"@,
        "type"@ != "id"@,
        "type"@ != "name"@,
        "type"@ != "input"@,
        "type"@ != "tool_use_id"@,
        "type"@ != "content"@,
        "type"@ != "is_error"@,
        "id"@ != "name"@,
        "id"@ != "input"@,
        "tool_use_id"@ != "content"@,
        "tool_use_id"@ != "is_error"@,
        "message"@ != "prompt"@,
        "user"@ != "assistant"@,
        "user"@ != "user_prompt"@,
        "assistant"@ != "user_prompt"@,
        "tool_use"@ != "tool_result"@,
        "tool_use"@ != "text"@,
        "tool_result"@ != "text"@,
{
    reveal_strlit("type");
    reveal_strlit("message");
    reveal_strlit("prompt");
    reveal_strlit("text");
    reveal_strlit("id");
    reveal_strlit("name");
    reveal_strlit("input");
    reveal_strlit("tool_use_id");
    reveal_strlit("content");
    reveal_strlit("is_error");
    reveal_strlit("user");
    reveal_strlit("assistant");
    reveal_strlit("user_prompt");
    reveal_strlit("tool_use");
    reveal_strlit("tool_result");
    assert("type"@.len() == 4 && "message"@.len() == 7 && "prompt"@.len() == 6);
    assert("text"@.len() == 4 && "id"@.len() == 2 && "name"@.len() == 4);
    assert("input"@.len() == 5 && "tool_use_id"@.len() == 11 && "content"@.len() == 7);
    assert("is_error"@.len() == 8 && "user"@.len() == 4 && "assistant"@.len() == 9);
    assert("user_prompt"@.len() == 11 && "tool_use"@.len() == 8 && "tool_result"@.len() == 11);
    assert("type"@[1] == 'y' && "text"@[1] == 'e' && "name"@[1] == 'a');
}

/// A record is of its kind and of no other, and holds its blocks.
pub proof fn lemma_record(kind: Seq<char>, blocks: Seq<JsonView>, other: Seq<char>)
    ensures
        is_kind(record(kind, blocks), other) == (other == kind),
        content_of(record(kind, blocks)) == Some(blocks),
{
    lemma_names_differ();
    let inner = JsonView::Object(seq![("content"@, JsonView::Array(blocks))]);
    lemma_lookup2("type"@, JsonView::Str(kind), "message"@, inner, "type"@);
    lemma_lookup2("type"@, JsonView::Str(kind), "message"@, inner, "message"@);
    let fields = seq![("content"@, JsonView::Array(blocks))];
    assert(fields.last() == ("content"@, JsonView::Array(blocks)));
}

/// The record of a prompt is of the kind `user_prompt` and of no other.
pub proof fn lemma_prompt_record(prompt: Seq<char>, other: Seq<char>)
    ensures
        is_kind(user_prompt_record(prompt), other) == (other == "user_prompt"@),
{
    lemma_names_differ();
    lemma_lookup2(
        "type"@,
        JsonView::Str("user_prompt"@),
        "prompt"@,
        JsonView::Str(prompt),
        "type"@,
    );
}

/// The block of a tool call is of the kind `tool_use` and of no other, and
/// carries the id of the call.
pub proof fn lemma_tool_use_block(
    id: Seq<char>,
    name: Seq<char>,
    input: JsonView,
    other: Seq<char>,
)
    ensures
        is_kind(tool_use_block(id, name, input), other) == (other == "tool_use"@),
        tool_use_block(id, name, input).str_at("id"@) == Some(id),
{
    lemma_names_differ();
    lemma_lookup4(
        "type"@,
        JsonView::Str("tool_use"@),
        "id"@,
        JsonView::Str(id),
        "name"@,
        JsonView::Str(name),
        "input"@,
        input,
        "type"@,
    );
    lemma_lookup4(
        "type"@,
        JsonView::Str("tool_use"@),
        "id"@,
        JsonView::Str(id),
        "name"@,
        JsonView::Str(name),
        "input"@,
        input,
        "id"@,
    );
}

/// The block of a tool result is of the kind `tool_result` and of no
/// other, and carries the id of the call that it answers.
pub proof fn lemma_tool_result_block(
    id: Seq<char>,
    content: Seq<char>,
    is_error: bool,
    other: Seq<char>,
)
    ensures
        is_kind(tool_result_block(id, content, is_error), other) == (other == "tool_result"@),
        tool_result_block(id, content, is_error).str_at("tool_use_id"@) == Some(id),
{
    lemma_names_differ();
    let c = JsonView::Str(crate::history::safe_content(content, is_error));
    lemma_lookup4(
        "type"@,
        JsonView::Str("tool_result"@),
        "tool_use_id"@,
        JsonView::Str(id),
        "content"@,
        c,
        "is_error"@,
        JsonView::Bool(is_error),
        "type"@,
    );
    lemma_lookup4(
        "type"@,
        JsonView::Str("tool_result"@),
        "tool_use_id"@,
        JsonView::Str(id),
        "content"@,
        c,
        "is_error"@,
        JsonView::Bool(is_error),
        "tool_use_id"@,
    );
}

/// The blocks `blocks` name every tool call of `calls`.
pub open spec fn names_all(blocks: Seq<JsonView>, calls: Seq<ToolCall>) -> bool {
    forall|i: int| 0 <= i < calls.len() ==> names_call(blocks, (#[trigger] calls[i]).id@)
}

/// What was called before in a log was called before in every log that
/// goes on from it.
proof fn lemma_called_before_grows(log: Seq<JsonView>, item: JsonView, upto: int, id: Seq<char>)
    requires
        called_before(log, upto, id),
    ensures
        called_before(log.push(item), upto, id),
{
    let k = choose|k: int| 0 <= k < upto && k < log.len() && calls_tool(#[trigger] log[k], id);
    assert(log.push(item)[k] == log[k]);
}

/// A sound log stays sound when a record is appended that is neither a
/// reply nor a record of tool results.
pub proof fn lemma_append_other(log: Seq<JsonView>, item: JsonView)
    requires
        sound(log),
        !is_kind(item, "assistant"@),
        !is_kind(item, "user"@),
    ensures
        sound(log.push(item)),
{
    let next = log.push(item);
    assert forall|i: int| 0 <= i < next.len() implies #[trigger] answers_calls(next, i) by {
        if i < log.len() {
            assert(answers_calls(log, i));
            assert(next[i] == log[i]);
            if is_kind(log[i], "user"@) && content_of(log[i]) is Some {
                let blocks = content_of(log[i])->Some_0;
                assert forall|j: int|
                    0 <= j < blocks.len() && is_kind(
                        #[trigger] blocks[j],
                        "tool_result"@,
                    ) implies (blocks[j].str_at("tool_use_id"@) matches Some(id)
                    ==> called_before(next, i, id)) by {
                    if blocks[j].str_at("tool_use_id"@) is Some {
                        lemma_called_before_grows(
                            log,
                            item,
                            i,
                            blocks[j].str_at("tool_use_id"@)->Some_0,
                        );
                    }
                }
            }
        }
    }
    assert forall|i: int| 0 <= i < next.len() && is_kind(#[trigger] next[i], "assistant"@) implies (
    content_of(next[i]) matches Some(blocks) ==> blocks.len() > 0) by {
        if i < log.len() {
            assert(next[i] == log[i]);
        }
    }
}

/// A sound log stays sound when the user's prompt is recorded.
pub proof fn lemma_append_prompt(log: Seq<JsonView>, prompt: Seq<char>)
    requires
        sound(log),
    ensures
        sound(log.push(user_prompt_record(prompt))),
{
    lemma_names_differ();
    lemma_prompt_record(prompt, "assistant"@);
    lemma_prompt_record(prompt, "user"@);
    lemma_append_other(log, user_prompt_record(prompt));
}

/// A sound log stays sound when a reply with at least one block is
/// recorded, and every tool call among its blocks then counts as called.
pub proof fn lemma_append_reply(log: Seq<JsonView>, blocks: Seq<JsonView>)
    requires
        sound(log),
        blocks.len() > 0,
    ensures
        sound(log.push(record("assistant"@, blocks))),
        forall|id: Seq<char>|
            names_call(blocks, id) ==> #[trigger] called(
                log.push(record("assistant"@, blocks)),
                id,
            ),
{
    lemma_names_differ();
    let item = record("assistant"@, blocks);
    let next = log.push(item);
    lemma_record("assistant"@, blocks, "assistant"@);
    lemma_record("assistant"@, blocks, "user"@);
    assert forall|i: int| 0 <= i < next.len() implies #[trigger] answers_calls(next, i) by {
        if i < log.len() {
            assert(answers_calls(log, i));
            assert(next[i] == log[i]);
            if is_kind(log[i], "user"@) && content_of(log[i]) is Some {
                let held = content_of(log[i])->Some_0;
                assert forall|j: int|
                    0 <= j < held.len() && is_kind(#[trigger] held[j], "tool_result"@) implies (
                    held[j].str_at("tool_use_id"@) matches Some(id) ==> called_before(
                        next,
                        i,
                        id,
                    )) by {
                    if held[j].str_at("tool_use_id"@) is Some {
                        lemma_called_before_grows(
                            log,
                            item,
                            i,
                            held[j].str_at("tool_use_id"@)->Some_0,
                        );
                    }
                }
            }
        }
    }
    assert forall|i: int| 0 <= i < next.len() && is_kind(#[trigger] next[i], "assistant"@) implies (
    content_of(next[i]) matches Some(held) ==> held.len() > 0) by {
        if i < log.len() {
            assert(next[i] == log[i]);
        }
    }
    assert forall|id: Seq<char>| names_call(blocks, id) implies #[trigger] called(next, id) by {
        assert(calls_tool(next[log.len() as int], id));
    }
}

/// A sound log stays sound when the result of a tool call is recorded that
/// an earlier reply made.
pub proof fn lemma_append_result(
    log: Seq<JsonView>,
    id: Seq<char>,
    content: Seq<char>,
    is_error: bool,
)
    requires
        sound(log),
        called(log, id),
    ensures
        sound(log.push(tool_result_message(id, content, is_error))),
        forall|other: Seq<char>|
            called(log, other) ==> #[trigger] called(
                log.push(tool_result_message(id, content, is_error)),
                other,
            ),
{
    lemma_names_differ();
    let block = tool_result_block(id, content, is_error);
    let item = tool_result_message(id, content, is_error);
    let next = log.push(item);
    lemma_record("user"@, seq![block], "assistant"@);
    lemma_record("user"@, seq![block], "user"@);
    lemma_tool_result_block(id, content, is_error, "tool_result"@);
    assert forall|i: int| 0 <= i < next.len() implies #[trigger] answers_calls(next, i) by {
        if i < log.len() {
            assert(answers_calls(log, i));
            assert(next[i] == log[i]);
            if is_kind(log[i], "user"@) && content_of(log[i]) is Some {
                let held = content_of(log[i])->Some_0;
                assert forall|j: int|
                    0 <= j < held.len() && is_kind(#[trigger] held[j], "tool_result"@) implies (
                    held[j].str_at("tool_use_id"@) matches Some(other) ==> called_before(
                        next,
                        i,
                        other,
                    )) by {
                    if held[j].str_at("tool_use_id"@) is Some {
                        lemma_called_before_grows(
                            log,
                            item,
                            i,
                            held[j].str_at("tool_use_id"@)->Some_0,
                        );
                    }
                }
            }
        } else {
            let held = seq![block];
            assert forall|j: int|
                0 <= j < held.len() && is_kind(#[trigger] held[j], "tool_result"@) implies (
                held[j].str_at("tool_use_id"@) matches Some(other) ==> called_before(
                    next,
                    i,
                    other,
                )) by {
                assert(held[j] == block);
                lemma_called_before_grows(log, item, log.len() as int, id);
            }
        }
    }
    assert forall|i: int| 0 <= i < next.len() && is_kind(#[trigger] next[i], "assistant"@) implies (
    content_of(next[i]) matches Some(held) ==> held.len() > 0) by {
        if i < log.len() {
            assert(next[i] == log[i]);
        }
    }
    assert forall|other: Seq<char>| called(log, other) implies #[trigger] called(next, other) by {
        lemma_called_before_grows(log, item, log.len() as int, other);
        let k = choose|k: int|
            0 <= k < log.len() && k < next.len() && calls_tool(#[trigger] next[k], other);
        assert(calls_tool(next[k], other));
    }
}

/// The log after a turn: the reply is recorded, and then a result for each
/// of `results`, which are ids of tool calls with what the tools gave.
pub open spec fn turn_log(
    log: Seq<JsonView>,
    blocks: Seq<JsonView>,
    results: Seq<(Seq<char>, Seq<char>, bool)>,
) -> Seq<JsonView>
    decreases results.len(),
{
    if results.len() == 0 {
        log.push(record("assistant"@, blocks))
    } else {
        turn_log(log, blocks, results.drop_last()).push(
            tool_result_message(results.last().0, results.last().1, results.last().2),
        )
    }
}

/// A turn of the runner keeps a sound log sound: once the reply with its
/// blocks is recorded, the results of tool calls that the reply made may
/// follow in any number and in any order.
pub proof fn lemma_turn_keeps_log_sound(
    log: Seq<JsonView>,
    blocks: Seq<JsonView>,
    results: Seq<(Seq<char>, Seq<char>, bool)>,
)
    requires
        sound(log),
        blocks.len() > 0,
        forall|i: int| 0 <= i < results.len() ==> names_call(blocks, (#[trigger] results[i]).0),
    ensures
        sound(turn_log(log, blocks, results)),
        turn_log(log, blocks, results).len() == log.len() + 1 + results.len(),
        forall|id: Seq<char>|
            names_call(blocks, id) ==> #[trigger] called(turn_log(log, blocks, results), id),
    decreases results.len(),
{
    if results.len() == 0 {
        lemma_append_reply(log, blocks);
    } else {
        let front = results.drop_last();
        assert forall|i: int| 0 <= i < front.len() implies names_call(
            blocks,
            (#[trigger] front[i]).0,
        ) by {
            assert(front[i] == results[i]);
        }
        lemma_turn_keeps_log_sound(log, blocks, front);
        let before = turn_log(log, blocks, front);
        let last = results.last();
        assert(names_call(blocks, last.0));
        assert(called(before, last.0));
        lemma_append_result(before, last.0, last.1, last.2);
        assert forall|id: Seq<char>| names_call(blocks, id) implies #[trigger] called(
            turn_log(log, blocks, results),
            id,
        ) by {
            assert(called(before, id));
        }
    }
}

/// The results of the first tool calls of a reply, with what the tools
/// gave: for each call its id, the content of its result and whether it
/// failed.
pub open spec fn results_of(calls: Seq<ToolCall>, gave: Seq<(Seq<char>, bool)>) -> Seq<
    (Seq<char>, Seq<char>, bool),
> {
    Seq::new(gave.len(), |i: int| (calls[i].id@, gave[i].0, gave[i].1))
}

/// A turn as the runner writes it keeps a sound log sound: the reply is
/// recorded with its blocks, which name its tool calls, and then the
/// results of the tool calls follow in order, as many as were dealt with,
/// whatever the tools gave.
pub proof fn lemma_runner_turn_keeps_log_sound(
    log: Seq<JsonView>,
    blocks: Seq<JsonView>,
    calls: Seq<ToolCall>,
    gave: Seq<(Seq<char>, bool)>,
)
    requires
        sound(log),
        names_all(blocks, calls),
        blocks.len() > 0,
        gave.len() <= calls.len(),
    ensures
        sound(turn_log(log, blocks, results_of(calls, gave))),
{
    let results = results_of(calls, gave);
    assert forall|i: int| 0 <= i < results.len() implies names_call(
        blocks,
        (#[trigger] results[i]).0,
    ) by {
        assert(names_call(blocks, calls[i].id@));
    }
    lemma_turn_keeps_log_sound(log, blocks, results);
}

/// The blocks of a reply in the OpenAI protocol name every tool call of the
/// reply, and are not empty where the reply calls a tool.
pub proof fn lemma_openai_blocks_name_calls(text: Seq<char>, calls: Seq<ToolCall>, i: int)
    requires
        0 <= i < calls.len(),
    ensures
        names_call(content_blocks(text, calls), calls[i].id@),
        content_blocks(text, calls).len() > 0,
{
    let blocks = content_blocks(text, calls);
    let block = tool_use_block(calls[i].id@, calls[i].name@, calls[i].input@);
    lemma_tool_use_block(calls[i].id@, calls[i].name@, calls[i].input@, "tool_use"@);
    assert(tool_use_blocks(calls)[i] == block);
    if crate::text::is_blank(text) {
        assert(blocks[i] == block);
    } else {
        assert(blocks[i + 1] == block);
    }
}

/// The blocks of a reply in the Anthropic protocol name every tool call of
/// the reply, and are not empty where the reply calls a tool.
pub proof fn lemma_anthropic_blocks_name_calls(s: Seq<(u64, BlockView)>, i: int)
    requires
        0 <= i < ended_calls(s).len(),
    ensures
        names_call(ended_content(s), ended_calls(s)[i].0),
        ended_content(s).len() > 0,
    decreases s.len(),
{
    if s.len() > 0 {
        let front = s.drop_last();
        let before = ended_content(front);
        match s.last().1 {
            BlockView::Text(t) => {
                lemma_anthropic_blocks_name_calls(front, i);
                let j = choose|j: int|
                    0 <= j < before.len() && is_kind(#[trigger] before[j], "tool_use"@)
                        && before[j].str_at("id"@) == Some(ended_calls(s)[i].0);
                if t.len() > 0 {
                    assert(ended_content(s)[j] == before[j]);
                }
            },
            BlockView::ToolUse { id, name, input_json, input } => {
                let block = tool_use_block(
                    id,
                    name,
                    crate::anthropic_stream::final_input(input_json, input),
                );
                if i < ended_calls(front).len() {
                    lemma_anthropic_blocks_name_calls(front, i);
                    let j = choose|j: int|
                        0 <= j < before.len() && is_kind(#[trigger] before[j], "tool_use"@)
                            && before[j].str_at("id"@) == Some(ended_calls(s)[i].0);
                    assert(ended_content(s)[j] == before[j]);
                } else {
                    lemma_tool_use_block(
                        id,
                        name,
                        crate::anthropic_stream::final_input(input_json, input),
                        "tool_use"@,
                    );
                    assert(ended_content(s)[before.len() as int] == block);
                }
            },
        }
    }
}

} // verus!

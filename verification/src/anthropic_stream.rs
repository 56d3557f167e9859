//! Decoder of a streamed reply in the Anthropic messages protocol.
//!
//! The reply arrives as typed server-sent events. A block of the reply
//! starts under an index of the provider's choosing; later events add text
//! to a text block, or pieces of JSON to the input of a tool call.

use std::collections::HashMap;
use vstd::prelude::*;
use vstd::std_specs::iter::IteratorSpec;
use vstd::string::StringExecFns;
use crate::history::{
    call_view, call_views, has_kind, is_kind, text_block, text_or_empty, tool_use_block, ToolCall,
};
use crate::json::{
    json_parsed, json_views, object2, object4, parse, parse_tool_input, push_json, tool_input,
    Json, JsonView,
};
use crate::log_rules::{lemma_anthropic_blocks_name_calls, names_call};
use crate::openai_stream::opt_text;
use crate::reply::StreamEnd;
use crate::sse::{drain_sse_events, drained_events, drained_rest, parse_event, typed_event};
use crate::stream::{
    start_event, stop_event, stream_event_message, text_delta_message, text_event, Fed,
};
use crate::text::{blank, is_blank, str_eq, views};

verus! {

broadcast use vstd::std_specs::hash::group_hash_axioms;

/// A block of the reply as far as it has arrived.
#[derive(Debug, PartialEq)]
pub enum AnthropicBlock {
    /// Text, with what has arrived of it.
    Text(String),
    /// A tool call: its id and name, the JSON text of its input as far as
    /// it has been streamed, and the input given at the start, which counts
    /// only if no JSON text is streamed.
    ToolUse { id: String, name: String, input_json: String, input: Option<Json> },
}

/// The value of an [`AnthropicBlock`].
pub enum BlockView {
    Text(Seq<char>),
    ToolUse { id: Seq<char>, name: Seq<char>, input_json: Seq<char>, input: Option<JsonView> },
}

/// The view of an optional JSON value.
pub open spec fn opt_json(v: Option<Json>) -> Option<JsonView> {
    match v {
        Some(j) => Some(j@),
        None => None,
    }
}

impl View for AnthropicBlock {
    type V = BlockView;

    open spec fn view(&self) -> BlockView {
        match self {
            AnthropicBlock::Text(t) => BlockView::Text(t@),
            AnthropicBlock::ToolUse { id, name, input_json, input } => BlockView::ToolUse {
                id: id@,
                name: name@,
                input_json: input_json@,
                input: opt_json(*input),
            },
        }
    }
}

/// The values of the blocks by index.
pub open spec fn block_views(m: Map<u64, AnthropicBlock>) -> Map<u64, BlockView> {
    m.map_values(|b: AnthropicBlock| b@)
}

/// The numbers of `keys` rise strictly.
pub open spec fn rising(keys: Seq<u64>) -> bool {
    forall|i: int, j: int| 0 <= i < j < keys.len() ==> (#[trigger] keys[i]) < (#[trigger] keys[j])
}

/// The indices under which `m` holds a block, in rising order.
pub open spec fn rising_keys(m: Map<u64, BlockView>) -> Seq<u64> {
    choose|keys: Seq<u64>| rising(keys) && keys.to_set() == m.dom()
}

/// The blocks of `m` with their indices, in rising order of index.
pub open spec fn in_order(m: Map<u64, BlockView>) -> Seq<(u64, BlockView)> {
    Seq::new(rising_keys(m).len(), |i: int| (rising_keys(m)[i], m[rising_keys(m)[i]]))
}

/// What a rising list holds but for its last number is what it holds
/// without its last place.
proof fn lemma_rising_front(a: Seq<u64>, v: u64)
    requires
        rising(a),
        a.len() > 0,
    ensures
        rising(a.drop_last()),
        a.drop_last().contains(v) <==> a.contains(v) && v != a.last(),
        a.contains(v) ==> v <= a.last(),
{
    let front = a.drop_last();
    if front.contains(v) {
        let k = choose|k: int| 0 <= k < front.len() && front[k] == v;
        assert(a[k] == v);
        assert(a[k] < a[a.len() - 1]);
    }
    if a.contains(v) {
        let k = choose|k: int| 0 <= k < a.len() && a[k] == v;
        if k < a.len() - 1 {
            assert(a[k] < a[a.len() - 1]);
            assert(front[k] == v);
        }
    }
    assert forall|i: int, j: int| 0 <= i < j < front.len() implies (#[trigger] front[i]) < (
    #[trigger] front[j]) by {
        assert(a[i] < a[j]);
    }
}

/// The same numbers can be put in rising order in one way only.
pub proof fn lemma_rising_unique(a: Seq<u64>, b: Seq<u64>)
    requires
        rising(a),
        rising(b),
        a.to_set() == b.to_set(),
    ensures
        a == b,
    decreases a.len(),
{
    if a.len() == 0 {
        if b.len() > 0 {
            assert(b[0] == b[0] && b.contains(b[0]));
            assert(b.to_set().contains(b[0]));
            assert(a.contains(b[0]));
        }
        assert(a =~= b);
    } else {
        let top = a.last();
        assert(a[a.len() - 1] == top && a.contains(top));
        assert(a.to_set().contains(top));
        assert(b.contains(top));
        let high = b.last();
        assert(b[b.len() - 1] == high && b.contains(high));
        assert(b.to_set().contains(high));
        assert(a.contains(high));
        lemma_rising_front(a, high);
        lemma_rising_front(b, top);
        assert(top == high);
        let a0 = a.drop_last();
        let b0 = b.drop_last();
        assert forall|v: u64| a0.to_set().contains(v) == b0.to_set().contains(v) by {
            lemma_rising_front(a, v);
            lemma_rising_front(b, v);
            assert(a.to_set().contains(v) == b.to_set().contains(v));
            assert(a.to_set().contains(v) == a.contains(v));
            assert(b.to_set().contains(v) == b.contains(v));
            assert(a0.to_set().contains(v) == a0.contains(v));
            assert(b0.to_set().contains(v) == b0.contains(v));
        }
        assert(a0.to_set() =~= b0.to_set());
        lemma_rising_unique(a0, b0);
        assert(a =~= a0.push(top));
        assert(b =~= b0.push(high));
    }
}

/// A rising list of the indices of `m` is the list of its indices in
/// rising order.
pub proof fn lemma_rising_keys(m: Map<u64, BlockView>, keys: Seq<u64>)
    requires
        rising(keys),
        keys.to_set() == m.dom(),
    ensures
        keys == rising_keys(m),
{
    lemma_rising_unique(keys, rising_keys(m));
}

/// A map of one block has that block in order.
pub proof fn lemma_in_order_one(index: u64, block: BlockView)
    ensures
        in_order(Map::<u64, BlockView>::empty().insert(index, block)) == seq![(index, block)],
{
    let m = Map::<u64, BlockView>::empty().insert(index, block);
    let keys = Seq::<u64>::empty().push(index);
    assert forall|v: u64| keys.to_set().contains(v) == m.dom().contains(v) by {
        if v == index {
            assert(keys[0] == v && keys.contains(v));
        }
    }
    assert(keys.to_set() =~= m.dom());
    lemma_rising_keys(m, keys);
    assert(in_order(m) =~= seq![(index, block)]);
}

/// The blocks `s` with `block` under `index`, in place of any block held
/// there.
pub open spec fn with_block(s: Map<u64, BlockView>, index: u64, block: BlockView) -> Map<
    u64,
    BlockView,
> {
    s.insert(index, block)
}

/// The index that a payload names; 0 if it names none.
pub open spec fn payload_index(payload: JsonView) -> u64 {
    match payload.get("index"@) {
        Some(v) => match v.as_u64() {
            Some(n) => n,
            None => 0,
        },
        None => 0,
    }
}

/// The blocks and the messages after the start of a block: a text block
/// begins empty and is reported; a tool call begins with its id, its name
/// and the input given with it, and is not reported; a block of another
/// kind is passed over.
pub open spec fn block_started(s: Map<u64, BlockView>, payload: JsonView) -> (
    Map<u64, BlockView>,
    Seq<JsonView>,
) {
    let index = payload_index(payload);
    match payload.get("content_block"@) {
        Some(block) => if is_kind(block, "text"@) {
            (with_block(s, index, BlockView::Text(Seq::empty())), seq![start_event()])
        } else if is_kind(block, "tool_use"@) {
            (
                with_block(
                    s,
                    index,
                    BlockView::ToolUse {
                        id: text_or_empty(block, "id"@),
                        name: text_or_empty(block, "name"@),
                        input_json: Seq::empty(),
                        input: block.get("input"@),
                    },
                ),
                seq![],
            )
        } else {
            (s, seq![])
        },
        None => (s, seq![]),
    }
}

/// The block `block` with the text `more` added, if it is a text block.
pub open spec fn with_text(block: BlockView, more: Seq<char>) -> BlockView {
    match block {
        BlockView::Text(t) => BlockView::Text(t + more),
        _ => block,
    }
}

/// The block `block` with the piece `more` of JSON added to its input, if
/// it is a tool call.
pub open spec fn with_input(block: BlockView, more: Seq<char>) -> BlockView {
    match block {
        BlockView::ToolUse { id, name, input_json, input } => BlockView::ToolUse {
            id,
            name,
            input_json: input_json + more,
            input,
        },
        _ => block,
    }
}

/// The blocks `s` with the block under `index`, if one is held, changed to
/// `change` of it.
pub open spec fn changed(
    s: Map<u64, BlockView>,
    index: u64,
    change: spec_fn(BlockView) -> BlockView,
) -> Map<u64, BlockView> {
    if s.contains_key(index) {
        s.insert(index, change(s[index]))
    } else {
        s
    }
}

/// The blocks and the messages after a delta: a piece of text goes to the
/// text block under the index and is reported whether or not there is one;
/// a piece of JSON goes to the tool call under the index and is not
/// reported.
pub open spec fn block_delta(s: Map<u64, BlockView>, payload: JsonView) -> (
    Map<u64, BlockView>,
    Seq<JsonView>,
) {
    let index = payload_index(payload);
    match payload.get("delta"@) {
        Some(delta) => if is_kind(delta, "text_delta"@) {
            let text = text_or_empty(delta, "text"@);
            (changed(s, index, |b: BlockView| with_text(b, text)), seq![text_event(text)])
        } else if is_kind(delta, "input_json_delta"@) {
            let part = text_or_empty(delta, "partial_json"@);
            (changed(s, index, |b: BlockView| with_input(b, part)), seq![])
        } else {
            (s, seq![])
        },
        None => (s, seq![]),
    }
}

/// The blocks and the messages after one typed event with the payload
/// `payload`. Events of other types than the start, the delta and the stop
/// of a block change nothing.
pub open spec fn event_applied(
    s: Map<u64, BlockView>,
    event_type: Seq<char>,
    payload: JsonView,
) -> (
    Map<u64, BlockView>,
    Seq<JsonView>,
) {
    if event_type == "content_block_start"@ {
        block_started(s, payload)
    } else if event_type == "content_block_delta"@ {
        block_delta(s, payload)
    } else if event_type == "content_block_stop"@ {
        (s, seq![stop_event()])
    } else {
        (s, seq![])
    }
}

/// The blocks after the events `events`, taken in order up to the first
/// failure, with the messages that report them. An event without payload
/// is passed over; a payload that is not JSON is a failure with the
/// parser's message, whatever the event's type.
pub open spec fn fed_events(s: Map<u64, BlockView>, events: Seq<Seq<char>>) -> (
    Map<u64, BlockView>,
    Seq<JsonView>,
    Option<Seq<char>>,
)
    decreases events.len(),
{
    if events.len() == 0 {
        (s, seq![], None)
    } else {
        let before = fed_events(s, events.drop_last());
        if before.2 is Some {
            before
        } else {
            match typed_event(events.last()) {
                Some((event_type, data)) => match json_parsed(data) {
                    Ok(payload) => {
                        let step = event_applied(before.0, event_type, payload);
                        (step.0, before.1 + step.1, None)
                    },
                    Err(e) => (before.0, before.1, Some(e)),
                },
                None => before,
            }
        }
    }
}

/// The blocks and the messages after the typed events `events`, each with
/// its parsed payload, taken in order.
pub open spec fn applied_all(s: Map<u64, BlockView>, events: Seq<(Seq<char>, JsonView)>) -> (
    Map<u64, BlockView>,
    Seq<JsonView>,
)
    decreases events.len(),
{
    if events.len() == 0 {
        (s, seq![])
    } else {
        let before = applied_all(s, events.drop_last());
        let step = event_applied(before.0, events.last().0, events.last().1);
        (step.0, before.1 + step.1)
    }
}

/// The event texts `texts` hold the typed events `events`: each text is a
/// typed event whose payload parses to the payload given.
pub open spec fn hold_events(texts: Seq<Seq<char>>, events: Seq<(Seq<char>, JsonView)>) -> bool {
    &&& texts.len() == events.len()
    &&& forall|i: int|
        0 <= i < texts.len() ==> (typed_event(#[trigger] texts[i]) matches Some((kind, data))
            && kind == events[i].0 && json_parsed(data) == Ok::<JsonView, Seq<char>>(events[i].1))
}

/// Event texts that all hold a typed event with a payload that parses are
/// taken in without failure, one after the other.
pub proof fn lemma_fed_events_parse(
    s: Map<u64, BlockView>,
    texts: Seq<Seq<char>>,
    events: Seq<(Seq<char>, JsonView)>,
)
    requires
        hold_events(texts, events),
    ensures
        fed_events(s, texts) == (
            applied_all(s, events).0,
            applied_all(s, events).1,
            None::<Seq<char>>,
        ),
    decreases texts.len(),
{
    if texts.len() > 0 {
        let k = texts.len() - 1;
        assert(hold_events(texts.drop_last(), events.drop_last())) by {
            assert forall|i: int| 0 <= i < k implies (typed_event(
                #[trigger] texts.drop_last()[i],
            ) matches Some((kind, data)) && kind == events.drop_last()[i].0 && json_parsed(data)
                == Ok::<JsonView, Seq<char>>(events.drop_last()[i].1)) by {
                assert(texts.drop_last()[i] == texts[i]);
            }
        }
        lemma_fed_events_parse(s, texts.drop_last(), events.drop_last());
        assert(typed_event(texts[k]) is Some);
    }
}

/// The payload `payload` is a piece of text for the block under `index`.
pub open spec fn is_text_piece(payload: JsonView, index: u64) -> bool {
    &&& payload_index(payload) == index
    &&& payload.get("delta"@) matches Some(delta)
    &&& is_kind(delta, "text_delta"@)
}

/// The text that a piece of text carries.
pub open spec fn piece_text(payload: JsonView) -> Seq<char> {
    match payload.get("delta"@) {
        Some(delta) => text_or_empty(delta, "text"@),
        None => Seq::empty(),
    }
}

/// The texts of the pieces `pieces`, one after the other.
pub open spec fn gathered(pieces: Seq<JsonView>) -> Seq<char>
    decreases pieces.len(),
{
    if pieces.len() == 0 {
        Seq::empty()
    } else {
        gathered(pieces.drop_last()) + piece_text(pieces.last())
    }
}

/// The delta events with the payloads `pieces`.
pub open spec fn delta_events(pieces: Seq<JsonView>) -> Seq<(Seq<char>, JsonView)> {
    Seq::new(pieces.len(), |i: int| ("content_block_delta"@, pieces[i]))
}

/// The messages that report the pieces of text `pieces`.
pub open spec fn piece_messages(pieces: Seq<JsonView>) -> Seq<JsonView> {
    Seq::new(pieces.len(), |i: int| text_event(piece_text(pieces[i])))
}

/// The types of the events of a block have different names.
proof fn lemma_event_names()
    ensures
        "content_block_start"@ != "content_block_delta"@,
        "content_block_start"@ != "content_block_stop"@,
        "content_block_delta"@ != "content_block_stop"@,
{
    reveal_strlit("content_block_start");
    reveal_strlit("content_block_delta");
    reveal_strlit("content_block_stop");
    assert("content_block_start"@[14] == 's');
    assert("content_block_delta"@[14] == 'd');
    assert("content_block_start"@.len() == 19);
    assert("content_block_delta"@.len() == 19);
    assert("content_block_stop"@.len() == 18);
}

/// Pieces of text for a text block are gathered in it. Where the block
/// under `index` holds the text `text` and every payload of `pieces` is a
/// piece of text for that index, the delta events with these payloads
/// leave the block with `text` followed by the texts of the pieces in
/// their order, leave every other block as it was, and report each piece
/// once, in order.
pub proof fn lemma_text_pieces_gather(
    s: Map<u64, BlockView>,
    index: u64,
    text: Seq<char>,
    pieces: Seq<JsonView>,
)
    requires
        s.contains_key(index),
        s[index] == BlockView::Text(text),
        forall|i: int| 0 <= i < pieces.len() ==> is_text_piece(#[trigger] pieces[i], index),
    ensures
        applied_all(s, delta_events(pieces)) == (
            s.insert(index, BlockView::Text(text + gathered(pieces))),
            piece_messages(pieces),
        ),
    decreases pieces.len(),
{
    lemma_event_names();
    if pieces.len() == 0 {
        assert(text + gathered(pieces) =~= text);
        assert(s.insert(index, BlockView::Text(text)) =~= s);
        assert(piece_messages(pieces) =~= Seq::<JsonView>::empty());
    } else {
        let front = pieces.drop_last();
        let piece = pieces.last();
        assert forall|i: int| 0 <= i < front.len() implies is_text_piece(
            #[trigger] front[i],
            index,
        ) by {
            assert(front[i] == pieces[i]);
        }
        lemma_text_pieces_gather(s, index, text, front);
        assert(is_text_piece(piece, index));
        assert(delta_events(pieces).drop_last() =~= delta_events(front));
        assert(delta_events(pieces).last() == ("content_block_delta"@, piece));
        let held = s.insert(index, BlockView::Text(text + gathered(front)));
        assert(held.insert(index, BlockView::Text((text + gathered(front)) + piece_text(piece)))
            =~= s.insert(index, BlockView::Text(text + gathered(pieces)))) by {
            assert((text + gathered(front)) + piece_text(piece) =~= text + gathered(pieces));
        }
        assert(piece_messages(front) + seq![text_event(piece_text(piece))] =~= piece_messages(
            pieces,
        ));
    }
}

/// A reply of one text block. The block starts under `index` in a decoder
/// that has seen nothing, the pieces of text follow, and the block stops.
/// Then the decoder holds that one block, with the texts of the pieces in
/// their order; the start, each piece and the stop were reported, in that
/// order; and the stream ends with one text block of the whole text, if
/// there is any, and with no tool call.
pub proof fn lemma_text_reply(
    index: u64,
    start: JsonView,
    pieces: Seq<JsonView>,
    stop: JsonView,
)
    requires
        payload_index(start) == index,
        start.get("content_block"@) matches Some(block) && is_kind(block, "text"@),
        forall|i: int| 0 <= i < pieces.len() ==> is_text_piece(#[trigger] pieces[i], index),
    ensures
        ({
            let events = seq![("content_block_start"@, start)] + delta_events(pieces).push(
                ("content_block_stop"@, stop),
            );
            let end = applied_all(Map::<u64, BlockView>::empty(), events);
            &&& end.0 == Map::<u64, BlockView>::empty().insert(
                index,
                BlockView::Text(gathered(pieces)),
            )
            &&& end.1 == seq![start_event()] + piece_messages(pieces).push(stop_event())
            &&& ended_calls(in_order(end.0)) == Seq::<(Seq<char>, Seq<char>, JsonView)>::empty()
            &&& ended_content(in_order(end.0)) == if gathered(pieces).len() > 0 {
                seq![text_block(gathered(pieces))]
            } else {
                Seq::<JsonView>::empty()
            }
        }),
{
    lemma_event_names();
    let none = Map::<u64, BlockView>::empty();
    let first = seq![("content_block_start"@, start)];
    let begun = none.insert(index, BlockView::Text(Seq::empty()));
    assert(first.drop_last() =~= Seq::<(Seq<char>, JsonView)>::empty());
    assert(applied_all(none, first.drop_last()) == (none, Seq::<JsonView>::empty()));
    assert(applied_all(none, first) == (begun, seq![start_event()])) by {
        assert(Seq::<JsonView>::empty() + seq![start_event()] =~= seq![start_event()]);
    }
    lemma_applied_on(none, first, delta_events(pieces));
    lemma_text_pieces_gather(begun, index, Seq::empty(), pieces);
    assert(Seq::<char>::empty() + gathered(pieces) =~= gathered(pieces));
    let full = none.insert(index, BlockView::Text(gathered(pieces)));
    assert(begun.insert(index, BlockView::Text(gathered(pieces))) =~= full);
    let middle = first + delta_events(pieces);
    assert(applied_all(none, middle) == (full, seq![start_event()] + piece_messages(pieces)));
    let events = first + delta_events(pieces).push(("content_block_stop"@, stop));
    assert(events =~= middle.push(("content_block_stop"@, stop)));
    assert(events.drop_last() =~= middle);
    assert((seq![start_event()] + piece_messages(pieces)) + seq![stop_event()] =~= seq![
        start_event(),
    ] + piece_messages(pieces).push(stop_event()));
    lemma_in_order_one(index, BlockView::Text(gathered(pieces)));
    let one = seq![(index, BlockView::Text(gathered(pieces)))];
    assert(one.drop_last() =~= Seq::<(u64, BlockView)>::empty());
    assert(ended_content(one.drop_last()) =~= Seq::<JsonView>::empty());
    assert(ended_calls(one.drop_last()) =~= Seq::<(Seq<char>, Seq<char>, JsonView)>::empty());
    if gathered(pieces).len() > 0 {
        assert(ended_content(one) =~= seq![text_block(gathered(pieces))]);
    }
}

/// Events taken in after others go on from where those left off.
pub proof fn lemma_applied_on(
    s: Map<u64, BlockView>,
    first: Seq<(Seq<char>, JsonView)>,
    then: Seq<(Seq<char>, JsonView)>,
)
    ensures
        applied_all(s, first + then) == (
            applied_all(applied_all(s, first).0, then).0,
            applied_all(s, first).1 + applied_all(applied_all(s, first).0, then).1,
        ),
    decreases then.len(),
{
    if then.len() == 0 {
        assert(first + then =~= first);
        assert(applied_all(s, first).1 + Seq::<JsonView>::empty() =~= applied_all(s, first).1);
    } else {
        lemma_applied_on(s, first, then.drop_last());
        assert((first + then).drop_last() =~= first + then.drop_last());
        assert((first + then).last() == then.last());
        let mid = applied_all(s, first);
        let before = applied_all(mid.0, then.drop_last());
        let step = event_applied(before.0, then.last().0, then.last().1);
        assert((mid.1 + before.1) + step.1 =~= mid.1 + (before.1 + step.1));
    }
}

/// The input of a tool call at the end of the stream: the streamed JSON
/// text read as JSON unless it is blank, else the input given at the start,
/// else `null`.
pub open spec fn final_input(input_json: Seq<char>, input: Option<JsonView>) -> JsonView {
    if is_blank(input_json) {
        match input {
            Some(v) => v,
            None => JsonView::Null,
        }
    } else {
        tool_input(input_json)
    }
}

/// The blocks of the reply that the decoder's blocks give, in the order of
/// the list: a text block for text that is not empty, a tool-use block for
/// each tool call.
pub open spec fn ended_content(s: Seq<(u64, BlockView)>) -> Seq<JsonView>
    decreases s.len(),
{
    if s.len() == 0 {
        seq![]
    } else {
        let before = ended_content(s.drop_last());
        match s.last().1 {
            BlockView::Text(t) => if t.len() > 0 {
                before.push(text_block(t))
            } else {
                before
            },
            BlockView::ToolUse { id, name, input_json, input } => before.push(
                tool_use_block(id, name, final_input(input_json, input)),
            ),
        }
    }
}

/// The tool calls that the decoder's blocks give, in the order of the list.
pub open spec fn ended_calls(s: Seq<(u64, BlockView)>) -> Seq<(Seq<char>, Seq<char>, JsonView)>
    decreases s.len(),
{
    if s.len() == 0 {
        seq![]
    } else {
        let before = ended_calls(s.drop_last());
        match s.last().1 {
            BlockView::Text(_) => before,
            BlockView::ToolUse { id, name, input_json, input } => before.push(
                (id, name, final_input(input_json, input)),
            ),
        }
    }
}

/// The state of the decoder: the text not yet cut into events, and the
/// blocks of the reply by index.
pub struct AnthropicStream {
    pub buffer: String,
    pub blocks: HashMap<u64, AnthropicBlock>,
}

/// The value of an [`AnthropicStream`].
pub struct AnthropicView {
    pub buffer: Seq<char>,
    pub blocks: Map<u64, BlockView>,
}

impl View for AnthropicStream {
    type V = AnthropicView;

    open spec fn view(&self) -> AnthropicView {
        AnthropicView { buffer: self.buffer@, blocks: block_views(self.blocks@) }
    }
}

/// The state after the chunk `chunk` has been fed, with the messages that
/// report it and the failure that stopped it, if any.
pub open spec fn fed(s: AnthropicView, chunk: Seq<char>) -> (
    AnthropicView,
    Seq<JsonView>,
    Option<Seq<char>>,
) {
    let text = s.buffer + chunk;
    let step = fed_events(s.blocks, drained_events(text));
    (AnthropicView { buffer: drained_rest(text), blocks: step.0 }, step.1, step.2)
}

/// The index that `payload` names; 0 if it names none.
fn index_of(payload: &Json) -> (r: u64)
    ensures
        r == payload_index(payload@),
{
    match payload.get("index") {
        Some(v) => match v.as_u64() {
            Some(n) => n,
            None => 0,
        },
        None => 0,
    }
}

/// The text member `key` of `block`, or the empty text.
fn text_member(block: &Json, key: &str) -> (r: String)
    ensures
        r@ == text_or_empty(block@, key@),
{
    match block.str_at(key) {
        Some(t) => t.to_string(),
        None => String::new(),
    }
}

/// Puts the numbers of `keys` in rising order.
///
/// Trusted: this is `sort_unstable` of the standard library on a slice of
/// integers. It leaves the slice sorted, with the same numbers as before,
/// each as often as before.
#[verifier::external_body]
fn sort_indices(keys: &mut Vec<u64>)
    ensures
        final(keys)@.to_multiset() == old(keys)@.to_multiset(),
        forall|i: int, j: int|
            0 <= i < j < final(keys)@.len() ==> (#[trigger] final(keys)@[i]) <= (
            #[trigger] final(keys)@[j]),
{
    keys.sort_unstable();
}

impl AnthropicStream {
    /// A decoder that has seen nothing.
    pub fn new() -> (r: AnthropicStream)
        ensures
            r@.buffer == Seq::<char>::empty(),
            r@.blocks == Map::<u64, BlockView>::empty(),
    {
        let r = AnthropicStream { buffer: String::new(), blocks: HashMap::new() };
        assert(r@.blocks =~= Map::<u64, BlockView>::empty());
        r
    }

    /// Puts `block` under `index`, in place of any block held there.
    fn put_block(&mut self, index: u64, block: AnthropicBlock)
        ensures
            final(self)@.buffer == old(self)@.buffer,
            final(self)@.blocks == with_block(old(self)@.blocks, index, block@),
    {
        self.blocks.insert(index, block);
        assert(self@.blocks =~= old(self)@.blocks.insert(index, block@));
    }

    /// Adds `more` to the text block under `index`, if there is one.
    fn add_text(&mut self, index: u64, more: &str)
        ensures
            final(self)@.buffer == old(self)@.buffer,
            final(self)@.blocks == changed(
                old(self)@.blocks,
                index,
                |b: BlockView| with_text(b, more@),
            ),
    {
        match self.blocks.remove(&index) {
            Some(held) => {
                let block = match held {
                    AnthropicBlock::Text(mut t) => {
                        t.append(more);
                        AnthropicBlock::Text(t)
                    },
                    other => other,
                };
                self.blocks.insert(index, block);
                assert(self@.blocks =~= old(self)@.blocks.insert(
                    index,
                    with_text(old(self)@.blocks[index], more@),
                ));
            },
            None => {
                assert(self@.blocks =~= old(self)@.blocks);
            },
        }
    }

    /// Adds `more` to the JSON text of the tool call under `index`, if
    /// there is one.
    fn add_input(&mut self, index: u64, more: &str)
        ensures
            final(self)@.buffer == old(self)@.buffer,
            final(self)@.blocks == changed(
                old(self)@.blocks,
                index,
                |b: BlockView| with_input(b, more@),
            ),
    {
        match self.blocks.remove(&index) {
            Some(held) => {
                let block = match held {
                    AnthropicBlock::ToolUse { id, name, mut input_json, input } => {
                        input_json.append(more);
                        AnthropicBlock::ToolUse { id, name, input_json, input }
                    },
                    other => other,
                };
                self.blocks.insert(index, block);
                assert(self@.blocks =~= old(self)@.blocks.insert(
                    index,
                    with_input(old(self)@.blocks[index], more@),
                ));
            },
            None => {
                assert(self@.blocks =~= old(self)@.blocks);
            },
        }
    }

    /// The indices of the blocks, in rising order.
    pub fn indices(&self) -> (keys: Vec<u64>)
        ensures
            keys@ == rising_keys(self@.blocks),
            rising(keys@),
            keys@.to_set() == self@.blocks.dom(),
    {
        let mut keys: Vec<u64> = Vec::new();
        for k in it: self.blocks.keys()
            invariant
                keys@ == it.seq().unref().take(it.index() as int),
        {
            keys.push(*k);
        }
        let ghost found = keys@;
        proof {
            let all = vstd::std_specs::hash::spec_keys_iter(&self.blocks).remaining();
            assert(found =~= all.unref());
            assert(all.unref().to_set() == self.blocks@.dom());
            assert forall|i: int, j: int| 0 <= i < found.len() && 0 <= j < found.len() && i
                != j implies found[i] != found[j] by {
                assert(all[i] != all[j]);
            }
            assert(found.no_duplicates());
            assert(self@.blocks.dom() =~= self.blocks@.dom());
        }
        sort_indices(&mut keys);
        proof {
            let sorted = keys@;
            found.lemma_multiset_has_no_duplicates();
            sorted.lemma_multiset_has_no_duplicates_conv();
            found.to_multiset_ensures();
            sorted.to_multiset_ensures();
            assert forall|v: u64| sorted.to_set().contains(v) == found.to_set().contains(v) by {
                assert(sorted.contains(v) <==> sorted.to_multiset().count(v) > 0);
                assert(found.contains(v) <==> found.to_multiset().count(v) > 0);
            }
            assert(sorted.to_set() =~= found.to_set());
            assert forall|i: int, j: int| 0 <= i < j < sorted.len() implies (#[trigger] sorted[i])
                < (#[trigger] sorted[j]) by {
                assert(sorted[i] <= sorted[j]);
                assert(sorted[i] != sorted[j]);
            }
            lemma_rising_keys(self@.blocks, sorted);
        }
        keys
    }

    /// Takes one typed event with its parsed payload in and hands back the
    /// messages that report it.
    pub fn apply_event(&mut self, event_type: &str, payload: &Json) -> (emitted: Vec<Json>)
        ensures
            final(self)@.buffer == old(self)@.buffer,
            (final(self)@.blocks, json_views(emitted@)) == event_applied(
                old(self)@.blocks,
                event_type@,
                payload@,
            ),
    {
        let mut emitted: Vec<Json> = Vec::new();
        assert(json_views(emitted@) =~= Seq::<JsonView>::empty());
        if str_eq(event_type, "content_block_start") {
            let index = index_of(payload);
            match payload.get("content_block") {
                Some(block) => {
                    if has_kind(block, "text") {
                        self.put_block(index, AnthropicBlock::Text(String::new()));
                        push_json(&mut emitted, stream_event_message("content_block_start", None));
                    } else if has_kind(block, "tool_use") {
                        let id = text_member(block, "id");
                        let name = text_member(block, "name");
                        let input = match block.get("input") {
                            Some(v) => Some(v.clone()),
                            None => None,
                        };
                        let fresh = AnthropicBlock::ToolUse {
                            id,
                            name,
                            input_json: String::new(),
                            input,
                        };
                        self.put_block(index, fresh);
                    }
                },
                None => {},
            }
        } else if str_eq(event_type, "content_block_delta") {
            let index = index_of(payload);
            match payload.get("delta") {
                Some(delta) => {
                    if has_kind(delta, "text_delta") {
                        let text = text_member(delta, "text");
                        self.add_text(index, text.as_str());
                        push_json(&mut emitted, text_delta_message(text.as_str()));
                    } else if has_kind(delta, "input_json_delta") {
                        let part = text_member(delta, "partial_json");
                        self.add_input(index, part.as_str());
                    }
                },
                None => {},
            }
        } else if str_eq(event_type, "content_block_stop") {
            push_json(&mut emitted, stream_event_message("content_block_stop", None));
        }
        emitted
    }

    /// Feeds the decoder the next chunk of the reply. Complete events leave
    /// the buffer; their payloads are parsed and taken in, in order, up to
    /// the first failure.
    pub fn feed(&mut self, chunk: &str) -> (r: Fed)
        ensures
            (final(self)@, json_views(r.emitted@), opt_text(r.failure)) == fed(old(self)@, chunk@),
    {
        self.buffer.append(chunk);
        let events = drain_sse_events(&mut self.buffer);
        let ghost s0 = self@.blocks;
        let ghost all = views(events@);
        let ghost rest = self@.buffer;
        let mut emitted: Vec<Json> = Vec::new();
        let mut k: usize = 0;
        assert(json_views(emitted@) =~= Seq::<JsonView>::empty());
        assert(all.take(0) =~= Seq::<Seq<char>>::empty());
        while k < events.len()
            invariant
                k <= events.len(),
                all == views(events@),
                self@.buffer == rest,
                s0 == old(self)@.blocks,
                rest == drained_rest(old(self)@.buffer + chunk@),
                all == drained_events(old(self)@.buffer + chunk@),
                (self@.blocks, json_views(emitted@), None::<Seq<char>>) == fed_events(
                    s0,
                    all.take(k as int),
                ),
            decreases events.len() - k,
        {
            proof {
                assert(all.take(k + 1).drop_last() =~= all.take(k as int));
                assert(all.take(k + 1).last() == events@[k as int]@);
            }
            match parse_event(events[k].as_str()) {
                Some(event) => {
                    match parse(event.data.as_str()) {
                        Ok(payload) => {
                            let mut more = self.apply_event(event.event_type.as_str(), &payload);
                            let ghost before = json_views(emitted@);
                            let ghost added = json_views(more@);
                            emitted.append(&mut more);
                            assert(json_views(emitted@) =~= before + added);
                        },
                        Err(e) => {
                            proof {
                                lemma_events_fail(s0, all, k + 1);
                            }
                            return Fed { emitted, failure: Some(e) };
                        },
                    }
                },
                None => {},
            }
            k += 1;
        }
        assert(all.take(k as int) =~= all);
        Fed { emitted, failure: None }
    }

    /// Ends the stream: hands back the blocks of the reply, in rising order
    /// of index, and the tool calls among them. No message is due.
    pub fn finish(self) -> (r: StreamEnd)
        ensures
            r.messages() == Seq::<JsonView>::empty(),
            call_views(r.calls()) == ended_calls(in_order(self@.blocks)),
            r.blocks() == ended_content(in_order(self@.blocks)),
    {
        let ghost all = in_order(self@.blocks);
        let emitted: Vec<Json> = Vec::new();
        let mut tool_calls: Vec<ToolCall> = Vec::new();
        let mut content_blocks: Vec<Json> = Vec::new();
        let keys = self.indices();
        let mut i: usize = 0;
        assert(json_views(emitted@) =~= Seq::<JsonView>::empty());
        assert(json_views(content_blocks@) =~= Seq::<JsonView>::empty());
        assert(call_views(tool_calls@) =~= Seq::<(Seq<char>, Seq<char>, JsonView)>::empty());
        assert(all.take(0) =~= Seq::<(u64, BlockView)>::empty());
        while i < keys.len()
            invariant
                i <= keys.len(),
                keys@ == rising_keys(self@.blocks),
                keys@.to_set() == self@.blocks.dom(),
                all == in_order(self@.blocks),
                call_views(tool_calls@) == ended_calls(all.take(i as int)),
                json_views(content_blocks@) == ended_content(all.take(i as int)),
            decreases keys.len() - i,
        {
            let key = keys[i];
            proof {
                assert(keys@[i as int] == key && keys@.contains(key));
                assert(keys@.to_set().contains(key));
                assert(self.blocks@.contains_key(key));
                assert(all.take(i + 1).drop_last() =~= all.take(i as int));
                assert(all.take(i + 1).last() == (key, self.blocks@[key]@));
            }
            match self.blocks.get(&key) {
                Some(AnthropicBlock::Text(text)) => {
                    if !text.as_str().is_empty() {
                        push_json(
                            &mut content_blocks,
                            object2(
                                "type",
                                Json::string("text"),
                                "text",
                                Json::string(text.as_str()),
                            ),
                        );
                    }
                },
                Some(AnthropicBlock::ToolUse { id, name, input_json, input }) => {
                    let parsed = if !blank(input_json.as_str()) {
                        parse_tool_input(input_json.as_str())
                    } else {
                        match input {
                            Some(v) => v.clone(),
                            None => Json::Null,
                        }
                    };
                    let ghost before = call_views(tool_calls@);
                    let call = ToolCall {
                        id: id.clone(),
                        name: name.clone(),
                        input: parsed.clone(),
                    };
                    tool_calls.push(call);
                    assert(call_views(tool_calls@) =~= before.push(call_view(call)));
                    push_json(
                        &mut content_blocks,
                        object4(
                            "type",
                            Json::string("tool_use"),
                            "id",
                            Json::string(id.as_str()),
                            "name",
                            Json::string(name.as_str()),
                            "input",
                            parsed,
                        ),
                    );
                },
                None => {
                    assert(false);
                },
            }
            i += 1;
        }
        assert(all.take(i as int) =~= all);
        proof {
            assert forall|k: int| 0 <= k < tool_calls@.len() implies names_call(
                json_views(content_blocks@),
                (#[trigger] tool_calls@[k]).id@,
            ) by {
                assert(call_views(tool_calls@)[k] == call_view(tool_calls@[k]));
                lemma_anthropic_blocks_name_calls(all, k);
            }
        }
        StreamEnd::assemble(emitted, content_blocks, tool_calls)
    }
}

/// Once an event has failed, the events after it change nothing.
proof fn lemma_events_fail(s: Map<u64, BlockView>, events: Seq<Seq<char>>, n: int)
    requires
        0 <= n <= events.len(),
        fed_events(s, events.take(n)).2 is Some,
    ensures
        fed_events(s, events) == fed_events(s, events.take(n)),
    decreases events.len() - n,
{
    if n < events.len() {
        assert(events.drop_last().take(n) =~= events.take(n));
        lemma_events_fail(s, events.drop_last(), n);
    } else {
        assert(events.take(n) =~= events);
    }
}

} // verus!

use open_cowork::anthropic_stream::{AnthropicBlock, AnthropicStream};
use open_cowork::history::ToolCall;
use open_cowork::json::{parse_json, Json};
use open_cowork::openai_stream::{finalize_tool_calls, OpenAiStream, ToolCallBuilder};
use open_cowork::providers::registry::ProviderKind;
use open_cowork::reply::StreamEnd;
use open_cowork::stream::{stream_event_message, text_delta_message};
use open_cowork::turn::ModelStream;

struct Parts {
    emitted: Vec<Json>,
    content_blocks: Vec<Json>,
    tool_calls: Vec<ToolCall>,
}

impl Parts {
    fn of(end: StreamEnd) -> Parts {
        let (emitted, content_blocks, tool_calls) = end.into_parts();
        Parts {
            emitted,
            content_blocks,
            tool_calls,
        }
    }
}

fn j(text: &str) -> Json {
    parse_json(text).unwrap()
}

fn start() -> Json {
    stream_event_message("content_block_start", None)
}

fn stop() -> Json {
    stream_event_message("content_block_stop", None)
}

fn text_block(text: &str) -> Json {
    Json::Object(vec![
        ("type".to_string(), Json::string("text")),
        ("text".to_string(), Json::string(text)),
    ])
}

fn tool_use(id: &str, name: &str, input: Json) -> Json {
    Json::Object(vec![
        ("type".to_string(), Json::string("tool_use")),
        ("id".to_string(), Json::string(id)),
        ("name".to_string(), Json::string(name)),
        ("input".to_string(), input),
    ])
}

#[test]
fn progress_messages_have_their_envelope() {
    assert_eq!(
        start(),
        Json::Object(vec![
            ("type".to_string(), Json::string("stream_event")),
            (
                "event".to_string(),
                Json::Object(vec![(
                    "type".to_string(),
                    Json::string("content_block_start")
                )])
            ),
        ])
    );
    assert_eq!(
        text_delta_message("hi"),
        Json::Object(vec![
            ("type".to_string(), Json::string("stream_event")),
            (
                "event".to_string(),
                Json::Object(vec![
                    ("type".to_string(), Json::string("content_block_delta")),
                    (
                        "delta".to_string(),
                        Json::Object(vec![
                            ("type".to_string(), Json::string("text_delta")),
                            ("text".to_string(), Json::string("hi")),
                        ])
                    ),
                ])
            ),
        ])
    );
}

#[test]
fn openai_text_is_gathered_and_reported() {
    let mut stream = OpenAiStream::new();
    let first =
        stream.feed("data: {\"choices\":[{\"delta\":{\"content\":\"hel\"}}]}\n\ndata: {\"choi");
    assert_eq!(first.failure, None);
    assert_eq!(first.emitted, vec![start(), text_delta_message("hel")]);
    let second = stream.feed("ces\":[{\"delta\":{\"content\":\"lo\"}}]}\n\ndata: [DONE]\n\n");
    assert_eq!(second.failure, None);
    assert_eq!(second.emitted, vec![text_delta_message("lo")]);
    assert_eq!(stream.assistant_text, "hello");
    assert_eq!(stream.buffer, "");
    let end = Parts::of(stream.finish());
    assert_eq!(end.emitted, vec![stop()]);
    assert_eq!(end.content_blocks, vec![text_block("hello")]);
    assert!(end.tool_calls.is_empty());
}

#[test]
fn openai_tool_calls_are_pieced_together_by_index() {
    let mut stream = OpenAiStream::new();
    let mut text = String::new();
    text.push_str("data: {\"choices\":[{\"delta\":{\"tool_calls\":[");
    text.push_str(
        "{\"index\":1,\"id\":\"b\",\"function\":{\"name\":\"Bash\",\"arguments\":\"{\\\"comm\"}},",
    );
    text.push_str("{\"id\":\"a\",\"function\":{\"name\":\"Read\"}}]}}]}\n\n");
    text.push_str("data: {\"choices\":[{\"delta\":{\"tool_calls\":[");
    text.push_str("{\"index\":1,\"function\":{\"arguments\":\"and\\\":\\\"ls\\\"}\"}},");
    text.push_str("{\"index\":3,\"function\":{\"arguments\":\"not json\"}}]}}]}\n\n");
    let fed = stream.feed(&text);
    assert_eq!(fed.failure, None);
    assert!(fed.emitted.is_empty());
    assert_eq!(stream.tool_builders.len(), 4);
    let end = Parts::of(stream.finish());
    assert!(end.emitted.is_empty());
    assert_eq!(
        end.tool_calls,
        vec![
            ToolCall {
                id: "a".into(),
                name: "Read".into(),
                input: Json::Null
            },
            ToolCall {
                id: "b".into(),
                name: "Bash".into(),
                input: j("{\"command\":\"ls\"}")
            },
            ToolCall {
                id: "tool-2".into(),
                name: "UnknownTool".into(),
                input: Json::Null
            },
            ToolCall {
                id: "tool-3".into(),
                name: "UnknownTool".into(),
                input: Json::Str("not json".into())
            },
        ]
    );
    assert_eq!(end.content_blocks.len(), 4);
    assert_eq!(
        end.content_blocks[1],
        tool_use("b", "Bash", j("{\"command\":\"ls\"}"))
    );
}

#[test]
fn openai_payload_that_is_no_json_fails_the_stream() {
    let mut stream = OpenAiStream::new();
    let fed = stream.feed(
        "data: {\"choices\":[{\"delta\":{\"content\":\"a\"}}]}\n\ndata: {oops\n\ndata: {\"choices\":[{\"delta\":{\"content\":\"b\"}}]}\n\n",
    );
    assert!(fed.failure.is_some());
    assert_eq!(fed.emitted, vec![start(), text_delta_message("a")]);
    assert_eq!(stream.assistant_text, "a");
}

#[test]
fn openai_end_mark_cuts_its_event_short() {
    let mut stream = OpenAiStream::new();
    let fed = stream.feed("data: [DONE]\ndata: {oops\n\n");
    assert_eq!(fed.failure, None);
    assert!(fed.emitted.is_empty());
    assert!(stream.done);
}

#[test]
fn openai_end_mark_ends_the_stream() {
    let mut stream = OpenAiStream::new();
    let fed = stream.feed(
        "data: {\"choices\":[{\"delta\":{\"content\":\"a\"}}]}\n\ndata: [DONE]\n\ndata: {\"choices\":[{\"delta\":{\"content\":\"x\"}}]}\n\ndata: {oops\n\npart",
    );
    assert_eq!(fed.failure, None);
    assert_eq!(fed.emitted, vec![start(), text_delta_message("a")]);
    assert_eq!(stream.assistant_text, "a");
    assert!(stream.done);
    assert_eq!(stream.buffer, "part");
}

#[test]
fn openai_takes_nothing_in_after_the_end_mark() {
    let mut stream = OpenAiStream::new();
    assert!(!stream.done);
    stream.feed("data: {\"choices\":[{\"delta\":{\"content\":\"a\"}}]}\n\n");
    assert!(!stream.done);
    stream.feed("data: [DONE]\n\n");
    assert!(stream.done);
    let fed = stream.feed(
        "data: {\"choices\":[{\"delta\":{\"content\":\"x\",\"tool_calls\":[{\"index\":0,\"id\":\"t\"}]}}]}\n\n",
    );
    assert_eq!(fed.failure, None);
    assert!(fed.emitted.is_empty());
    let fed = stream.feed("data: {oops\n\n");
    assert_eq!(fed.failure, None);
    assert!(fed.emitted.is_empty());
    assert_eq!(stream.buffer, "");
    assert_eq!(stream.assistant_text, "a");
    assert!(stream.tool_builders.is_empty());
    let end = Parts::of(stream.finish());
    assert_eq!(end.emitted, vec![stop()]);
    assert_eq!(end.content_blocks, vec![text_block("a")]);
    assert!(end.tool_calls.is_empty());
}

#[test]
fn openai_end_mark_is_met_through_the_chosen_decoder() {
    let mut stream = ModelStream::new(ProviderKind::OpenAI);
    stream.feed("data: [DONE]\n\n");
    let fed = stream.feed("data: {\"choices\":[{\"delta\":{\"content\":\"x\"}}]}\n\n");
    assert_eq!(fed.failure, None);
    assert!(fed.emitted.is_empty());
    let end = Parts::of(stream.finish());
    assert!(end.emitted.is_empty());
    assert!(end.content_blocks.is_empty());
}

#[test]
fn openai_passes_over_payloads_without_delta() {
    let mut stream = OpenAiStream::new();
    let fed = stream
        .feed("data: {\"usage\":{}}\n\ndata: {\"choices\":[]}\n\ndata: 17\n\nevent: ping\n\n");
    assert_eq!(fed.failure, None);
    assert!(fed.emitted.is_empty());
    let end = Parts::of(stream.finish());
    assert!(end.emitted.is_empty());
    assert!(end.content_blocks.is_empty());
    assert!(end.tool_calls.is_empty());
}

#[test]
fn openai_index_beyond_every_list_is_a_failure() {
    let mut stream = OpenAiStream::new();
    let payload = j(
        "{\"choices\":[{\"delta\":{\"content\":\"t\",\"tool_calls\":[{\"index\":18446744073709551615,\"id\":\"x\"}]}}]}",
    );
    let fed = stream.apply_payload(&payload);
    assert_eq!(
        fed.failure,
        Some("Tool call index out of range.".to_string())
    );
    assert_eq!(fed.emitted, vec![start(), text_delta_message("t")]);
    assert!(stream.tool_builders.is_empty());
}

#[test]
fn openai_blank_text_gives_no_text_block() {
    let mut stream = OpenAiStream::new();
    stream.feed("data: {\"choices\":[{\"delta\":{\"content\":\" \"}}]}\n\n");
    let end = Parts::of(stream.finish());
    assert_eq!(end.emitted, vec![stop()]);
    assert!(end.content_blocks.is_empty());
}

#[test]
fn builders_become_calls() {
    let calls = finalize_tool_calls(vec![
        ToolCallBuilder {
            id: None,
            name: None,
            arguments: "  ".into(),
        },
        ToolCallBuilder {
            id: Some("x".into()),
            name: Some("Task".into()),
            arguments: "[1]".into(),
        },
    ]);
    assert_eq!(
        calls,
        vec![
            ToolCall {
                id: "tool-0".into(),
                name: "UnknownTool".into(),
                input: Json::Null
            },
            ToolCall {
                id: "x".into(),
                name: "Task".into(),
                input: j("[1]")
            },
        ]
    );
    assert_eq!(
        ToolCallBuilder::default(),
        ToolCallBuilder {
            id: None,
            name: None,
            arguments: String::new()
        }
    );
}

fn anthropic_event(kind: &str, data: &str) -> String {
    format!("event: {}\ndata: {}\n\n", kind, data)
}

#[test]
fn anthropic_blocks_are_gathered_by_index() {
    let mut stream = AnthropicStream::new();
    let mut text = String::new();
    text.push_str(&anthropic_event("message_start", "{\"message\":{}}"));
    text.push_str(&anthropic_event(
        "content_block_start",
        "{\"index\":0,\"content_block\":{\"type\":\"text\",\"text\":\"\"}}",
    ));
    text.push_str(&anthropic_event(
        "content_block_delta",
        "{\"index\":0,\"delta\":{\"type\":\"text_delta\",\"text\":\"hel\"}}",
    ));
    text.push_str(&anthropic_event(
        "content_block_delta",
        "{\"index\":0,\"delta\":{\"type\":\"text_delta\",\"text\":\"lo\"}}",
    ));
    text.push_str(&anthropic_event("content_block_stop", "{\"index\":0}"));
    text.push_str(&anthropic_event(
        "content_block_start",
        "{\"index\":1,\"content_block\":{\"type\":\"tool_use\",\"id\":\"t1\",\"name\":\"Read\",\"input\":{}}}",
    ));
    text.push_str(&anthropic_event(
        "content_block_delta",
        "{\"index\":1,\"delta\":{\"type\":\"input_json_delta\",\"partial_json\":\"{\\\"file_path\\\":\"}}",
    ));
    text.push_str(&anthropic_event(
        "content_block_delta",
        "{\"index\":1,\"delta\":{\"type\":\"input_json_delta\",\"partial_json\":\"\\\"a.txt\\\"}\"}}",
    ));
    text.push_str(&anthropic_event("content_block_stop", "{\"index\":1}"));
    text.push_str(&anthropic_event("message_stop", "{}"));
    let (head, tail) = text.split_at(text.len() / 2);
    let first = stream.feed(head);
    let second = stream.feed(tail);
    assert_eq!(first.failure, None);
    assert_eq!(second.failure, None);
    let mut emitted = first.emitted;
    emitted.extend(second.emitted);
    assert_eq!(
        emitted,
        vec![
            start(),
            text_delta_message("hel"),
            text_delta_message("lo"),
            stop(),
            stop()
        ]
    );
    let end = Parts::of(stream.finish());
    assert!(end.emitted.is_empty());
    assert_eq!(
        end.content_blocks,
        vec![
            text_block("hello"),
            tool_use("t1", "Read", j("{\"file_path\":\"a.txt\"}"))
        ]
    );
    assert_eq!(
        end.tool_calls,
        vec![ToolCall {
            id: "t1".into(),
            name: "Read".into(),
            input: j("{\"file_path\":\"a.txt\"}")
        }]
    );
}

#[test]
fn anthropic_blocks_come_out_in_rising_order_of_index() {
    let mut stream = AnthropicStream::new();
    for (index, id) in [(7u64, "seven"), (2, "two"), (5, "five"), (2, "two-again")] {
        let out = stream.apply_event(
            "content_block_start",
            &j(&format!(
                "{{\"index\":{},\"content_block\":{{\"type\":\"tool_use\",\"id\":\"{}\",\"name\":\"Task\"}}}}",
                index, id
            )),
        );
        assert!(out.is_empty());
    }
    assert_eq!(stream.indices(), vec![2, 5, 7]);
    assert_eq!(stream.blocks.len(), 3);
    let end = Parts::of(stream.finish());
    let ids: Vec<&str> = end.tool_calls.iter().map(|c| c.id.as_str()).collect();
    assert_eq!(ids, vec!["two-again", "five", "seven"]);
}

#[test]
fn anthropic_input_given_at_the_start_counts_without_stream() {
    let mut stream = AnthropicStream::new();
    stream.apply_event(
        "content_block_start",
        &j("{\"index\":0,\"content_block\":{\"type\":\"tool_use\",\"id\":\"a\",\"name\":\"Bash\",\"input\":{\"command\":\"ls\"}}}"),
    );
    stream.apply_event(
        "content_block_start",
        &j("{\"index\":1,\"content_block\":{\"type\":\"tool_use\"}}"),
    );
    stream.apply_event(
        "content_block_start",
        &j("{\"index\":2,\"content_block\":{\"type\":\"tool_use\",\"id\":\"c\",\"name\":\"Bash\",\"input\":{\"command\":\"ls\"}}}"),
    );
    stream.apply_event(
        "content_block_delta",
        &j("{\"index\":2,\"delta\":{\"type\":\"input_json_delta\",\"partial_json\":\"{broken\"}}"),
    );
    let end = Parts::of(stream.finish());
    assert_eq!(
        end.tool_calls,
        vec![
            ToolCall {
                id: "a".into(),
                name: "Bash".into(),
                input: j("{\"command\":\"ls\"}")
            },
            ToolCall {
                id: "".into(),
                name: "".into(),
                input: Json::Null
            },
            ToolCall {
                id: "c".into(),
                name: "Bash".into(),
                input: Json::Str("{broken".into())
            },
        ]
    );
}

#[test]
fn anthropic_deltas_go_to_blocks_of_their_kind_only() {
    let mut stream = AnthropicStream::new();
    stream.apply_event(
        "content_block_start",
        &j("{\"index\":0,\"content_block\":{\"type\":\"text\"}}"),
    );
    let lost = stream.apply_event(
        "content_block_delta",
        &j("{\"index\":9,\"delta\":{\"type\":\"text_delta\",\"text\":\"lost\"}}"),
    );
    assert_eq!(lost, vec![text_delta_message("lost")]);
    stream.apply_event(
        "content_block_delta",
        &j("{\"index\":0,\"delta\":{\"type\":\"input_json_delta\",\"partial_json\":\"x\"}}"),
    );
    let kept = stream.apply_event(
        "content_block_delta",
        &j("{\"delta\":{\"type\":\"text_delta\"}}"),
    );
    assert_eq!(kept, vec![text_delta_message("")]);
    assert_eq!(stream.indices(), vec![0]);
    assert_eq!(
        stream.blocks.get(&0),
        Some(&AnthropicBlock::Text(String::new()))
    );
    assert!(stream.apply_event("ping", &j("{}")).is_empty());
    assert!(stream
        .apply_event(
            "content_block_start",
            &j("{\"content_block\":{\"type\":\"image\"}}")
        )
        .is_empty());
    let end = Parts::of(stream.finish());
    assert!(end.content_blocks.is_empty());
    assert!(end.tool_calls.is_empty());
}

#[test]
fn anthropic_payload_that_is_no_json_fails_the_stream() {
    let mut stream = AnthropicStream::new();
    let fed = stream.feed(
        "event: content_block_stop\ndata: {}\n\nevent: ping\ndata: nope\n\nevent: content_block_stop\ndata: {}\n\n",
    );
    assert!(fed.failure.is_some());
    assert_eq!(fed.emitted, vec![stop()]);
    let quiet = AnthropicStream::new().feed("event: ping\n\n: comment\n\n");
    assert_eq!(quiet.failure, None);
    assert!(quiet.emitted.is_empty());
}

#[test]
fn bytes_that_are_no_text_are_replaced() {
    let mut stream = ModelStream::new(ProviderKind::OpenAI);
    let mut chunk = b"data: {\"choices\":[{\"delta\":{\"content\":\"a".to_vec();
    chunk.push(0xff);
    chunk.extend_from_slice("é\"}}]}\n\n".as_bytes());
    let fed = stream.feed_bytes(&chunk);
    assert_eq!(fed.failure, None);
    assert_eq!(fed.emitted, vec![start(), text_delta_message("a\u{fffd}é")]);
    let split = "é".as_bytes();
    let mut halves = ModelStream::new(ProviderKind::OpenAI);
    let mut first = b"data: {\"choices\":[{\"delta\":{\"content\":\"".to_vec();
    first.push(split[0]);
    let mut second = vec![split[1]];
    second.extend_from_slice(b"\"}}]}\n\n");
    assert!(halves.feed_bytes(&first).emitted.is_empty());
    assert_eq!(
        halves.feed_bytes(&second).emitted,
        vec![start(), text_delta_message("\u{fffd}\u{fffd}")]
    );
}

#[test]
fn decoders_are_chosen_by_provider() {
    let mut openai = ModelStream::new(ProviderKind::OpenAI);
    let fed = openai.feed("data: {\"choices\":[{\"delta\":{\"content\":\"hello\"}}]}\n\n");
    assert_eq!(fed.emitted, vec![start(), text_delta_message("hello")]);
    let end = Parts::of(openai.finish());
    assert_eq!(end.emitted, vec![stop()]);
    assert_eq!(end.content_blocks, vec![text_block("hello")]);

    let mut anthropic = ModelStream::new(ProviderKind::Anthropic);
    let fed = anthropic.feed(
        "event: content_block_start\ndata: {\"index\":0,\"content_block\":{\"type\":\"text\"}}\n\nevent: content_block_delta\ndata: {\"index\":0,\"delta\":{\"type\":\"text_delta\",\"text\":\"hello\"}}\n\n",
    );
    assert_eq!(fed.emitted, vec![start(), text_delta_message("hello")]);
    let end = Parts::of(anthropic.finish());
    assert!(end.emitted.is_empty());
    assert_eq!(end.content_blocks, vec![text_block("hello")]);
}

#[test]
fn anthropic_indices_are_sorted_as_numbers() {
    let mut stream = AnthropicStream::new();
    assert!(stream.indices().is_empty());
    for index in [10u64, 9, 100, 1, 18446744073709551615, 0] {
        stream.apply_event(
            "content_block_start",
            &j(&format!(
                "{{\"index\":{},\"content_block\":{{\"type\":\"text\"}}}}",
                index
            )),
        );
        stream.apply_event(
            "content_block_delta",
            &j(&format!(
                "{{\"index\":{},\"delta\":{{\"type\":\"text_delta\",\"text\":\"<{}>\"}}}}",
                index, index
            )),
        );
    }
    assert_eq!(
        stream.indices(),
        vec![0, 1, 9, 10, 100, 18446744073709551615]
    );
    let end = Parts::of(stream.finish());
    let texts: Vec<&str> = end
        .content_blocks
        .iter()
        .map(|b| b.get("text").and_then(Json::as_str).unwrap())
        .collect();
    assert_eq!(
        texts,
        vec![
            "<0>",
            "<1>",
            "<9>",
            "<10>",
            "<100>",
            "<18446744073709551615>"
        ]
    );
}

#[test]
fn a_stream_says_when_it_is_over() {
    let mut openai = ModelStream::new(ProviderKind::OpenAI);
    assert!(!openai.ended());
    openai.feed("data: {\"choices\":[{\"delta\":{\"content\":\"a\"}}]}\n\ndata: [DO");
    assert!(!openai.ended());
    openai.feed("NE]\n\n");
    assert!(openai.ended());
    let mut anthropic = ModelStream::new(ProviderKind::Anthropic);
    anthropic.feed("event: message_stop\ndata: {\"type\":\"message_stop\"}\n\n");
    assert!(!anthropic.ended());
}

use open_cowork::sse::{
    drain_sse_events, event_ends_stream, event_payloads, parse_event, SseEvent,
};

#[test]
fn drain_yields_complete_events_and_keeps_the_partial_one() {
    let ev1 = "event: a\ndata: 1";
    let ev2 = "data: 2";
    let partial = "data: 3\n";
    let mut buffer = String::new();
    buffer.push_str(ev1);
    buffer.push_str("\n\n");
    buffer.push_str(ev2);
    buffer.push_str("\n\n");
    buffer.push_str(partial);
    let events = drain_sse_events(&mut buffer);
    assert_eq!(events, vec![ev1.to_string(), ev2.to_string()]);
    assert_eq!(buffer, partial);
    let again = drain_sse_events(&mut buffer);
    assert!(again.is_empty());
    assert_eq!(buffer, partial);
}

#[test]
fn drain_goes_on_where_the_partial_event_is_completed() {
    let mut buffer = "data: {\"a\"".to_string();
    assert!(drain_sse_events(&mut buffer).is_empty());
    buffer.push_str(":1}\n");
    assert!(drain_sse_events(&mut buffer).is_empty());
    buffer.push_str("\ndata: next");
    assert_eq!(
        drain_sse_events(&mut buffer),
        vec!["data: {\"a\":1}".to_string()]
    );
    assert_eq!(buffer, "data: next");
}

#[test]
fn drain_drops_events_of_white_space() {
    let mut buffer = "\n\n \t\n\nx\n\n\n\n".to_string();
    assert_eq!(drain_sse_events(&mut buffer), vec!["x".to_string()]);
    assert_eq!(buffer, "");
    let mut three = "a\n\n\nb".to_string();
    assert_eq!(drain_sse_events(&mut three), vec!["a".to_string()]);
    assert_eq!(three, "\nb");
}

#[test]
fn drain_of_an_empty_buffer_gives_nothing() {
    let mut buffer = String::new();
    assert!(drain_sse_events(&mut buffer).is_empty());
    assert_eq!(buffer, "");
    let mut one = "\n".to_string();
    assert!(drain_sse_events(&mut one).is_empty());
    assert_eq!(one, "\n");
}

#[test]
fn drain_counts_characters_not_bytes() {
    let mut buffer = "data: é日本\n\ndata: ü".to_string();
    assert_eq!(
        drain_sse_events(&mut buffer),
        vec!["data: é日本".to_string()]
    );
    assert_eq!(buffer, "data: ü");
}

#[test]
fn payloads_are_the_data_lines_up_to_the_end_mark() {
    assert_eq!(
        event_payloads("data: {\"a\":1}\n: comment\n  data:   two  \ndata: [DONE]\ndata: late"),
        vec!["{\"a\":1}".to_string(), "two".to_string()]
    );
    assert_eq!(event_payloads("data: [DONE]"), Vec::<String>::new());
    assert_eq!(event_payloads("event: x"), Vec::<String>::new());
    assert_eq!(event_payloads(""), Vec::<String>::new());
    assert_eq!(event_payloads("data:"), vec![String::new()]);
    assert_eq!(
        event_payloads("data: a\r\ndata: b\r"),
        vec!["a".to_string(), "b".to_string()]
    );
}

#[test]
fn typed_events_join_their_data_lines() {
    assert_eq!(
        parse_event("event: content_block_delta\ndata: {\"index\":\ndata: 0}"),
        Some(SseEvent {
            event_type: "content_block_delta".to_string(),
            data: "{\"index\":\n0}".to_string(),
        })
    );
    assert_eq!(
        parse_event("data: 1"),
        Some(SseEvent {
            event_type: String::new(),
            data: "1".to_string()
        })
    );
    assert_eq!(
        parse_event("event: a\ndata:\ndata: x\nevent: b"),
        Some(SseEvent {
            event_type: "b".to_string(),
            data: "\nx".to_string()
        })
    );
}

#[test]
fn typed_events_need_a_data_line() {
    assert_eq!(parse_event("event: ping"), None);
    assert_eq!(parse_event(""), None);
    assert_eq!(parse_event(": keep-alive"), None);
}

#[test]
fn end_mark_is_found_on_data_lines_only() {
    assert!(event_ends_stream("data: [DONE]"));
    assert!(event_ends_stream(
        "data: {\"a\":1}\n  data:   [DONE]  \ndata: late"
    ));
    assert!(event_ends_stream("data:[DONE]\r"));
    assert!(!event_ends_stream(""));
    assert!(!event_ends_stream("[DONE]"));
    assert!(!event_ends_stream("event: [DONE]"));
    assert!(!event_ends_stream("data: [done]"));
    assert!(!event_ends_stream("data: [DONE] x"));
}

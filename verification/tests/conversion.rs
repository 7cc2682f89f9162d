use agentgateway::clock::Moment;
use agentgateway::conversion::chat::{chat_shaper, is_showable, sources_chat_chunk, ChatEvent};
use agentgateway::conversion::error_body::{describe_body, unparseable_upstream_body};
use agentgateway::conversion::markers::{
    classify, estimate_usage, provenance_sources, record_usage, short_id, Arrival, Marker, SseEvent,
    StreamUsage,
};
use agentgateway::conversion::messages::{
    anthropic_usage, flush_message_end, ContentBlock, ContentBlockDelta, MessageDeltaUsage,
    MessagesStreamEvent, MsgState, StopReason,
};
use agentgateway::conversion::metering::Meter;
use agentgateway::conversion::responses::{responses_usage, ResponseEvent, ResponseStreamEvent, Status};
use agentgateway::conversion::web_search::{
    translate_stream, InputFormat, ShapedEvent, Shaper, WebSearchStreamContext,
};
use agentgateway::json::Json;

const WS_TEXT_DELTA: &str =
    r#"{"id":"x","object":"chat.completion.chunk","created":1,"model":"m","choices":[{"index":0,"delta":{"content":"hello world"}}]}"#;
const WS_TOOL_ROUND: &str =
    r#"{"x-ai-ws-tool-round":{"tool_use_id":"t1","tool_name":"web_search","input":{"query":"rust async"}}}"#;
const WS_USAGE: &str =
    r#"{"id":"x","object":"chat.completion.chunk","created":1,"model":"m","choices":[],"usage":{"prompt_tokens":10,"completion_tokens":5,"total_tokens":15,"prompt_tokens_details":{"cached_tokens":3},"completion_tokens_details":{"reasoning_tokens":2}}}"#;
const WS_PROVENANCE: &str =
    r#"{"x-ai-ws-provenance":{"rounds":[],"citations":[{"n":1,"url":"https://rust-lang.org","title":"Rust"}],"route_type":"llm/v1/chat"}}"#;
const WS_IN_STREAM_ERROR: &str = r#"{"error":{"message":"sidecar blew up"}}"#;
const WS_TOOL_CALL: &str = r#"{"id":"x","object":"chat.completion.chunk","created":1,"model":"m","choices":[{"index":0,"delta":{"tool_calls":[{"id":"call_1","type":"function","function":{"name":"f","arguments":"{}"}}]},"finish_reason":"tool_calls"}]}"#;

fn from_value(value: &serde_json::Value) -> Json {
    match value {
        serde_json::Value::Null => Json::Null,
        serde_json::Value::Bool(b) => Json::Bool(*b),
        serde_json::Value::Number(n) => match n.as_u64() {
            Some(u) => Json::Unsigned(u),
            None => Json::Number(n.clone()),
        },
        serde_json::Value::String(s) => Json::Text(s.clone()),
        serde_json::Value::Array(items) => Json::Array(items.iter().map(from_value).collect()),
        serde_json::Value::Object(members) => {
            Json::Object(members.iter().map(|(k, v)| (k.clone(), from_value(v))).collect())
        }
    }
}

fn json(text: &str) -> Json {
    let value: serde_json::Value = serde_json::from_str(text).expect("valid JSON");
    from_value(&value)
}

fn unmetered() -> StreamUsage {
    StreamUsage {
        input_tokens: None,
        output_tokens: None,
        total_tokens: None,
        cached_input_tokens: None,
        reasoning_tokens: None,
        first_token: None,
    }
}

/// The frames of a stream, one a nanosecond, and the terminator.
fn sidecar(frames: &[&str]) -> Vec<Arrival> {
    let mut arrivals: Vec<Arrival> = frames
        .iter()
        .enumerate()
        .map(|(i, f)| Arrival { at: Moment { nanos: i as u64 + 1 }, event: SseEvent::Frame(json(f)) })
        .collect();
    arrivals.push(Arrival { at: Moment { nanos: 1000 }, event: SseEvent::Done });
    arrivals
}

fn shape(frames: &[&str], format: InputFormat, client_tools: bool) -> (Vec<ShapedEvent>, StreamUsage) {
    let mut usage = unmetered();
    let shown = translate_stream(
        &sidecar(frames),
        &mut usage,
        "test-model",
        format,
        WebSearchStreamContext { streaming: true, client_tools },
        0x2a,
    );
    (shown, usage)
}

fn chat_texts(events: &[ShapedEvent]) -> Vec<String> {
    events
        .iter()
        .map(|e| match e {
            ShapedEvent::Chat(ChatEvent::Chunk(chunk)) => chunk.encode(),
            ShapedEvent::Chat(ChatEvent::Done) => "[DONE]".to_string(),
            _ => panic!("not a chat event"),
        })
        .collect()
}

fn messages(events: Vec<ShapedEvent>) -> Vec<MessagesStreamEvent> {
    events
        .into_iter()
        .map(|e| match e {
            ShapedEvent::Messages(event) => event,
            _ => panic!("not a message event"),
        })
        .collect()
}

fn responses(events: Vec<ShapedEvent>) -> Vec<ResponseStreamEvent> {
    events
        .into_iter()
        .map(|e| match e {
            ShapedEvent::Responses(event) => event,
            _ => panic!("not a response event"),
        })
        .collect()
}

fn wire_names(events: &[ResponseStreamEvent]) -> Vec<&'static str> {
    events.iter().map(|e| e.event.wire_name()).collect()
}

fn names(events: &[MessagesStreamEvent]) -> Vec<&'static str> {
    events.iter().map(|e| e.event_name()).collect()
}

#[test]
fn classify_text_delta() {
    let f = json(
        r#"{"id":"x","object":"chat.completion.chunk","created":1,"model":"m","choices":[{"index":0,"delta":{"content":"hello"}}]}"#,
    );
    assert!(matches!(classify(&f), Marker::TextDelta(t) if t == "hello"));
}

#[test]
fn classify_tool_round() {
    let f = json(
        r#"{"x-ai-ws-tool-round":{"tool_use_id":"t1","tool_name":"web_search","input":{"query":"q"}}}"#,
    );
    assert!(matches!(classify(&f), Marker::ToolRound(_)));
}

#[test]
fn classify_provenance() {
    let f = json(
        r#"{"x-ai-ws-provenance":{"rounds":[],"citations":[{"n":1,"url":"u","title":"t"}],"route_type":"llm/v1/chat"}}"#,
    );
    assert!(matches!(classify(&f), Marker::Provenance(_)));
}

#[test]
fn classify_usage() {
    let f = json(r#"{"choices":[],"usage":{"prompt_tokens":5,"completion_tokens":3,"total_tokens":8}}"#);
    assert!(matches!(classify(&f), Marker::Usage(_)));
}

#[test]
fn classify_in_stream_error() {
    let f = json(r#"{"error":{"message":"boom"}}"#);
    assert!(matches!(classify(&f), Marker::InStreamError(m) if m == "boom"));
}

#[test]
fn classify_client_tool_calls() {
    let f = json(
        r#"{"choices":[{"index":0,"delta":{"tool_calls":[{"id":"call_1","type":"function","function":{"name":"f","arguments":"{}"}}]},"finish_reason":"tool_calls"}]}"#,
    );
    assert!(matches!(classify(&f), Marker::ClientToolCalls(_)));
}

#[test]
fn classify_unknown_drops() {
    let f = json(r#"{"something_else":1}"#);
    assert!(matches!(classify(&f), Marker::Unknown));
}

#[test]
fn classify_takes_the_first_shape() {
    let f = json(
        r#"{"x-ai-ws-provenance":null,"x-ai-ws-tool-round":{},"usage":{},"error":{"message":"m"}}"#,
    );
    assert!(matches!(classify(&f), Marker::Provenance(Json::Null)));
    let f = json(r#"{"x-ai-ws-tool-round":1,"usage":{}}"#);
    assert!(matches!(classify(&f), Marker::ToolRound(Json::Unsigned(1))));
    // An error without a message is no error frame.
    let f = json(r#"{"error":{"message":7}}"#);
    assert!(matches!(classify(&f), Marker::Unknown));
}

#[test]
fn provenance_sources_formats_citations() {
    let p = json(
        r#"{"citations":[{"n":1,"url":"https://a.example","title":"A"},{"n":2,"url":"https://b.example","title":"B"}]}"#,
    );
    let s = provenance_sources(&p);
    assert!(s.contains("[1] A"));
    assert!(s.contains("[2] B"));
    assert!(s.contains("https://a.example"));
}

#[test]
fn provenance_sources_exact_text() {
    let p = json(r#"{"citations":[{"url":"u1","title":"t1"},{"n":30,"url":"u2"},{"n":-1,"title":"t3"}]}"#);
    assert_eq!(provenance_sources(&p), "\n\nSources:\n[1] t1 — u1\n[30]  — u2\n[3] t3 — \n");
    assert_eq!(provenance_sources(&json(r#"{"citations":{}}"#)), "");
    assert_eq!(provenance_sources(&json(r#"{"citations":[]}"#)), "\n\nSources:\n");
}

#[test]
fn ids_are_hexadecimal() {
    assert_eq!(short_id(0), "0");
    assert_eq!(short_id(0xdead_beef), "deadbeef");
    assert_eq!(short_id(u128::MAX), "ffffffffffffffffffffffffffffffff");
}

#[test]
fn p13_chat_shaper_augmentation_is_transparent() {
    let (shown, usage) = shape(
        &[WS_TEXT_DELTA, WS_TOOL_ROUND, WS_USAGE, WS_PROVENANCE],
        InputFormat::Completions,
        true,
    );
    let texts = chat_texts(&shown);
    let text = texts.join("\n");
    assert!(text.contains("hello world"));
    assert!(!text.contains("x-ai-ws-tool-round"));
    assert!(text.contains("rust-lang.org"));
    assert_eq!(texts.last().map(String::as_str), Some("[DONE]"));
    assert_eq!(texts.len(), 4);
    assert_eq!(usage.input_tokens, Some(10));
    assert_eq!(usage.output_tokens, Some(5));
    assert_eq!(usage.total_tokens, Some(15));
    assert_eq!(usage.cached_input_tokens, Some(3));
    assert_eq!(usage.reasoning_tokens, Some(2));
    assert_eq!(usage.first_token, Some(Moment { nanos: 1 }));
}

#[test]
fn p13_messages_shaper_drives_anthropic_lifecycle() {
    let (shown, usage) =
        shape(&[WS_TEXT_DELTA, WS_USAGE, WS_PROVENANCE], InputFormat::Messages, true);
    let events = messages(shown);
    assert_eq!(
        names(&events),
        vec![
            "message_start",
            "content_block_start",
            "content_block_delta",
            "content_block_delta",
            "content_block_stop",
            "message_delta",
            "message_stop",
        ]
    );
    assert!(matches!(
        &events[0],
        MessagesStreamEvent::MessageStart { message } if message.id == "msg_2a" && message.model == "test-model"
    ));
    assert!(matches!(
        &events[2],
        MessagesStreamEvent::ContentBlockDelta {
            index: 0,
            delta: ContentBlockDelta::TextDelta { text },
        } if text == "hello world"
    ));
    assert!(matches!(
        &events[3],
        MessagesStreamEvent::ContentBlockDelta {
            index: 0,
            delta: ContentBlockDelta::CitationsDelta { citations },
        } if citations.len() == 1 && citations[0].get("title").and_then(|t| t.as_str()) == Some("Rust")
    ));
    assert!(matches!(
        &events[5],
        MessagesStreamEvent::MessageDelta {
            stop_reason: Some(StopReason::EndTurn),
            usage: MessageDeltaUsage {
                input_tokens: Some(7),
                output_tokens: Some(5),
                cache_creation_input_tokens: None,
                cache_read_input_tokens: Some(3),
            },
        }
    ));
    assert_eq!(usage.input_tokens, Some(10));
    assert_eq!(usage.output_tokens, Some(5));
    assert_eq!(usage.total_tokens, Some(15));
}

#[test]
fn p16_in_stream_error_is_surfaced_not_laundered() {
    let frames = [WS_TEXT_DELTA, WS_IN_STREAM_ERROR];
    let (shown, _) = shape(&frames, InputFormat::Completions, true);
    let text = chat_texts(&shown).join("\n");
    assert!(text.contains(r#""error":{"message":"sidecar blew up"}"#));

    let (shown, _) = shape(&frames, InputFormat::Responses, true);
    let events = responses(shown);
    assert!(events.iter().any(|e| matches!(
        &e.event,
        ResponseEvent::Failed { response }
            if response.status == Status::Failed
                && response.error.as_ref().map(|e| e.message.as_str()) == Some("sidecar blew up")
                && response.error.as_ref().map(|e| e.code.as_str()) == Some("internal_server_error")
    )));
    assert_eq!(wire_names(&events).last(), Some(&"response.failed"));
    assert!(!wire_names(&events).contains(&"response.completed"));

    let (shown, _) = shape(&frames, InputFormat::Messages, true);
    let events = messages(shown);
    let ends: Vec<&MessagesStreamEvent> = events
        .iter()
        .filter(|e| matches!(e, MessagesStreamEvent::MessageDelta { .. }))
        .collect();
    assert_eq!(ends.len(), 1);
    assert!(matches!(ends[0], MessagesStreamEvent::MessageDelta { stop_reason: None, .. }));
    assert_eq!(names(&events).last(), Some(&"message_stop"));
}

#[test]
fn p17_metering_usage_marker_and_eof_fallback() {
    let (_, usage) = shape(&[WS_TEXT_DELTA, WS_USAGE], InputFormat::Completions, true);
    assert_eq!(usage.output_tokens, Some(5));

    let (_, usage) = shape(&[WS_TEXT_DELTA], InputFormat::Completions, true);
    assert_eq!(usage.output_tokens, Some(3));
}

#[test]
fn p13_client_tools_false_strips_forwarded_tool_calls() {
    let (shown, _) = shape(&[WS_TEXT_DELTA, WS_TOOL_CALL, WS_USAGE], InputFormat::Completions, false);
    let text = chat_texts(&shown).join("\n");
    assert!(!text.contains("tool_calls"));
    assert!(text.contains("hello world"));

    let (shown, _) = shape(&[WS_TEXT_DELTA, WS_TOOL_CALL, WS_USAGE], InputFormat::Completions, true);
    assert!(chat_texts(&shown).join("\n").contains("tool_calls"));

    // A client that speaks no chat is shown chat, without its tools.
    let (shown, _) = shape(&[WS_TEXT_DELTA, WS_TOOL_CALL], InputFormat::Other, true);
    let texts = chat_texts(&shown);
    assert_eq!(texts.len(), 2);
    assert!(texts[0].contains("hello world"));
}

#[test]
fn sources_find_their_place() {
    let made = sources_chat_chunk(&json(r#"{"a":1}"#), "S");
    assert_eq!(made.encode(), r#"{"a":1,"choices":[{"delta":{"content":"S"},"index":0}]}"#);
    let made = sources_chat_chunk(&json(r#"{"choices":[{"delta":{"role":"x","content":"old"}},2]}"#), "S");
    assert_eq!(made.encode(), r#"{"choices":[{"delta":{"content":"S","role":"x"}},2]}"#);
    let made = sources_chat_chunk(&json(r#"{"choices":[{"index":4}]}"#), "S");
    assert_eq!(made.encode(), r#"{"choices":[{"delta":{"content":"S"},"index":4}]}"#);
    let made = sources_chat_chunk(&json(r#"{"choices":"none"}"#), "S");
    assert_eq!(made.encode(), r#"{"choices":[{"delta":{"content":"S"},"index":0}]}"#);
}

#[test]
fn documents_are_rendered_as_they_are() {
    let text = r#"{"a":[null,true,-3,1.5,18446744073709551615,"q\"\n"],"b":{},"c":[]}"#;
    assert_eq!(json(text).encode(), text);
    // The later of two entries counts.
    let doubled = Json::Object(vec![
        ("k".to_string(), Json::Unsigned(1)),
        ("k".to_string(), Json::Unsigned(2)),
    ]);
    assert_eq!(doubled.encode(), r#"{"k":2}"#);
    assert_eq!(doubled.get("k").and_then(|v| v.as_u64()), Some(2));
    let held = Json::Number(serde_json::Number::from(7u64));
    assert_eq!(held.as_u64(), Some(7));
    assert_eq!(held.clone().encode(), "7");
    assert_eq!(json("-3").as_u64(), None);
    assert_eq!(json("[4]").at(0).and_then(|v| v.as_u64()), Some(4));
    assert!(json("[4]").at(1).is_none());
}

#[test]
fn sources_without_a_place_are_told_apart() {
    let event = SseEvent::Frame(json(r#"{"x-ai-ws-provenance":{},"choices":[3]}"#));
    assert!(!is_showable(&event));
    let event = SseEvent::Frame(json(r#"{"x-ai-ws-provenance":{},"choices":[{"delta":"text"}]}"#));
    assert!(!is_showable(&event));
    assert!(is_showable(&SseEvent::Frame(json(WS_PROVENANCE))));
    assert!(is_showable(&SseEvent::Done));
    assert!(is_showable(&SseEvent::Malformed));
}

#[test]
fn chat_drops_what_it_cannot_read() {
    let mut meter = Meter::new();
    let mut usage = unmetered();
    let now = Moment { nanos: 9 };
    assert!(chat_shaper(&mut meter, &mut usage, &SseEvent::Malformed, now, true).is_empty());
    let unknown = SseEvent::Frame(json(r#"{"k":1}"#));
    assert!(chat_shaper(&mut meter, &mut usage, &unknown, now, true).is_empty());
    assert_eq!(usage, unmetered());
}

#[test]
fn usage_keeps_what_a_report_leaves_out() {
    let mut usage = unmetered();
    usage.total_tokens = Some(99);
    record_usage(&mut usage, &json(r#"{"prompt_tokens":4,"completion_tokens":"x"}"#));
    assert_eq!(usage.input_tokens, Some(4));
    assert_eq!(usage.output_tokens, None);
    assert_eq!(usage.total_tokens, Some(99));
}

#[test]
fn estimate_rounds_up_and_keeps_a_larger_count() {
    for (chars, tokens) in [(1usize, 1u64), (4, 1), (5, 2), (8, 2), (9, 3)] {
        let mut usage = unmetered();
        estimate_usage(&mut usage, chars);
        assert_eq!(usage.output_tokens, Some(tokens));
    }
    let mut usage = unmetered();
    usage.output_tokens = Some(100);
    estimate_usage(&mut usage, 8);
    assert_eq!(usage.output_tokens, Some(100));
}

#[test]
fn metering_goes_by_the_first_report() {
    let late = r#"{"usage":{"prompt_tokens":1,"completion_tokens":1,"total_tokens":2}}"#;
    for format in [InputFormat::Completions, InputFormat::Messages, InputFormat::Responses] {
        let (_, usage) = shape(&[WS_TEXT_DELTA, WS_USAGE, WS_TEXT_DELTA, late], format, true);
        assert_eq!(usage.output_tokens, Some(5));
        assert_eq!(usage.total_tokens, Some(15));
        let (_, usage) = shape(&[WS_TEXT_DELTA, WS_TEXT_DELTA], format, true);
        assert_eq!(usage.output_tokens, Some(6));
        assert_eq!(usage.first_token, Some(Moment { nanos: 1 }));
        let (_, usage) = shape(&[], format, true);
        assert_eq!(usage, unmetered());
    }
}

#[test]
fn message_rounds_and_calls_are_numbered_blocks() {
    let (shown, _) = shape(
        &[WS_TEXT_DELTA, WS_TOOL_ROUND, WS_TEXT_DELTA, WS_TOOL_CALL],
        InputFormat::Messages,
        true,
    );
    let events = messages(shown);
    let starts: Vec<usize> = events
        .iter()
        .filter_map(|e| match e {
            MessagesStreamEvent::ContentBlockStart { index, .. } => Some(*index),
            _ => None,
        })
        .collect();
    assert_eq!(starts, vec![0, 1, 2, 3, 4]);
    let stops: Vec<usize> = events
        .iter()
        .filter_map(|e| match e {
            MessagesStreamEvent::ContentBlockStop { index } => Some(*index),
            _ => None,
        })
        .collect();
    assert_eq!(stops, vec![0, 1, 2, 3, 4]);
    assert!(events.iter().any(|e| matches!(
        e,
        MessagesStreamEvent::ContentBlockStart {
            index: 1,
            content_block: ContentBlock::ServerToolUse { id, name, input },
        } if id == "t1" && name == "web_search" && input.encode() == "{}"
    )));
    assert!(events.iter().any(|e| matches!(
        e,
        MessagesStreamEvent::ContentBlockDelta {
            index: 1,
            delta: ContentBlockDelta::InputJsonDelta { partial_json },
        } if partial_json == r#"{"query":"rust async"}"#
    )));
    assert!(events.iter().any(|e| matches!(
        e,
        MessagesStreamEvent::ContentBlockStart {
            index: 2,
            content_block: ContentBlock::WebSearchToolResult { tool_use_id, content: None },
        } if tool_use_id == "t1"
    )));
    assert!(events.iter().any(|e| matches!(
        e,
        MessagesStreamEvent::ContentBlockStart {
            index: 4,
            content_block: ContentBlock::ToolUse { id, name, .. },
        } if id == "call_1" && name == "f"
    )));
    assert!(events.iter().any(|e| matches!(
        e,
        MessagesStreamEvent::MessageDelta { stop_reason: Some(StopReason::ToolUse), .. }
    )));
}

#[test]
fn message_round_defaults_and_deferral() {
    let (shown, _) =
        shape(&[r#"{"x-ai-ws-tool-round":{"deferred":true}}"#], InputFormat::Messages, true);
    let events = messages(shown);
    assert_eq!(
        names(&events),
        vec![
            "message_start",
            "content_block_start",
            "content_block_delta",
            "content_block_stop",
            "message_delta",
            "message_stop",
        ]
    );
    assert!(matches!(
        &events[1],
        MessagesStreamEvent::ContentBlockStart {
            index: 0,
            content_block: ContentBlock::ServerToolUse { id, name, .. },
        } if id == "server_tool" && name == "web_search"
    ));
    assert!(matches!(
        &events[2],
        MessagesStreamEvent::ContentBlockDelta {
            index: 0,
            delta: ContentBlockDelta::InputJsonDelta { partial_json },
        } if partial_json == "null"
    ));
}

#[test]
fn message_calls_without_arguments_have_no_delta() {
    let call = r#"{"choices":[{"delta":{"tool_calls":[{"function":{"name":"g"}},{"id":"b"}]}}]}"#;
    let (shown, _) = shape(&[call], InputFormat::Messages, true);
    assert_eq!(
        names(&messages(shown)),
        vec![
            "message_start",
            "content_block_start",
            "content_block_stop",
            "content_block_start",
            "content_block_stop",
            "message_delta",
            "message_stop",
        ]
    );
    let (shown, _) = shape(&[call], InputFormat::Messages, false);
    assert_eq!(names(&messages(shown)), vec!["message_start", "message_delta", "message_stop"]);
}

#[test]
fn message_citations_come_one_by_one_and_reopen_text() {
    let provenance = r#"{"x-ai-ws-provenance":{"citations":[{"n":1},{"n":2}]}}"#;
    let (shown, _) = shape(&[WS_TOOL_ROUND, provenance], InputFormat::Messages, true);
    let events = messages(shown);
    let citations: Vec<String> = events
        .iter()
        .filter_map(|e| match e {
            MessagesStreamEvent::ContentBlockDelta {
                index: 2,
                delta: ContentBlockDelta::CitationsDelta { citations },
            } => Some(citations.iter().map(|c| c.encode()).collect::<Vec<_>>().join(",")),
            _ => None,
        })
        .collect();
    assert_eq!(citations, vec![r#"{"n":1}"#, r#"{"n":2}"#]);
}

#[test]
fn message_ends_once() {
    let (shown, _) =
        shape(&[WS_PROVENANCE, WS_PROVENANCE, WS_TEXT_DELTA], InputFormat::Messages, true);
    let events = messages(shown);
    assert_eq!(events.iter().filter(|e| e.event_name() == "message_stop").count(), 1);
    assert_eq!(events.iter().filter(|e| e.event_name() == "message_delta").count(), 1);
}

#[test]
fn anthropic_usage_leaves_the_cache_out() {
    let usage = anthropic_usage(&json(
        r#"{"prompt_tokens":10,"completion_tokens":5,"prompt_tokens_details":{"cached_tokens":12}}"#,
    ));
    assert_eq!(usage.input_tokens, Some(0));
    assert_eq!(usage.cache_read_input_tokens, Some(12));
    let usage = anthropic_usage(&json(r#"{"prompt_tokens":10}"#));
    assert_eq!(usage.input_tokens, Some(10));
    assert_eq!(usage.output_tokens, None);
    let usage = anthropic_usage(&json(r#"{"prompt_tokens_details":{"cached_tokens":1}}"#));
    assert_eq!(usage.input_tokens, None);
}

#[test]
fn responses_usage_narrows_and_fills_in() {
    let usage = responses_usage(&json(
        r#"{"prompt_tokens":4294967297,"completion_tokens":5,"prompt_tokens_details":{"cached_tokens":3,"cache_write_tokens":2}}"#,
    ));
    assert_eq!(usage.input_tokens, 1);
    assert_eq!(usage.output_tokens, 5);
    assert_eq!(usage.total_tokens, 0);
    assert_eq!(usage.input_tokens_details.cached_tokens, 3);
    assert_eq!(usage.input_tokens_details.cache_write_tokens, Some(2));
    assert_eq!(usage.output_tokens_details.reasoning_tokens, 0);
}

/// The numbers that come with the events of a response.
fn numbers(events: &[ResponseStreamEvent]) -> Vec<u64> {
    events.iter().map(|e| e.sequence_number).collect()
}

#[test]
fn a_response_runs_through_its_lifecycle() {
    let (shown, _) = shape(&[WS_TEXT_DELTA], InputFormat::Responses, true);
    let events = responses(shown);
    assert_eq!(
        wire_names(&events),
        [
            "response.created",
            "response.in_progress",
            "response.output_item.added",
            "response.content_part.added",
            "response.output_text.delta",
            "response.output_text.done",
            "response.content_part.done",
            "response.output_item.done",
            "response.completed",
        ]
    );
    assert_eq!(numbers(&events), [1, 2, 3, 4, 5, 6, 7, 8, 9]);
    assert!(matches!(
        &events[0].event,
        ResponseEvent::Created { response }
            if response.id == "resp_2a"
                && response.model == "test-model"
                && response.status == Status::InProgress
                && response.usage.is_none()
    ));
    assert!(matches!(
        &events[1].event,
        ResponseEvent::InProgress { response } if response.status == Status::InProgress
    ));
    assert!(matches!(
        &events[2].event,
        ResponseEvent::OutputItemAdded { item }
            if item.id == "msg_resp_2a" && item.status == Status::InProgress && item.text.is_empty()
    ));
    assert!(matches!(
        &events[4].event,
        ResponseEvent::OutputTextDelta { item_id, delta }
            if item_id == "msg_resp_2a" && delta == "hello world"
    ));
    assert!(matches!(
        &events[5].event,
        ResponseEvent::OutputTextDone { text, .. } if text == "hello world"
    ));
    assert!(matches!(
        &events[7].event,
        ResponseEvent::OutputItemDone { item }
            if item.id == "msg_resp_2a" && item.status == Status::Completed && item.text == "hello world"
    ));
}

#[test]
fn responses_are_numbered_and_complete() {
    let (shown, _) = shape(
        &[WS_TEXT_DELTA, WS_TEXT_DELTA, WS_USAGE, WS_PROVENANCE],
        InputFormat::Responses,
        true,
    );
    let events = responses(shown);
    assert_eq!(events.len(), 10);
    assert_eq!(numbers(&events), [1, 2, 3, 4, 5, 6, 7, 8, 9, 10]);
    assert!(matches!(
        &events[5].event,
        ResponseEvent::OutputTextDelta { delta, .. } if delta == "hello world"
    ));
    assert!(matches!(
        &events[9].event,
        ResponseEvent::Completed { response, output_text, provenance: Some(p) }
            if response.status == Status::Completed
                && response.usage.map(|u| u.total_tokens) == Some(15)
                && output_text == "hello worldhello world"
                && p.get("citations").is_some()
    ));
    let deltas: String = events
        .iter()
        .filter_map(|e| match &e.event {
            ResponseEvent::OutputTextDelta { delta, .. } => Some(delta.as_str()),
            _ => None,
        })
        .collect();
    assert_eq!(deltas, "hello worldhello world");
}

#[test]
fn a_failed_response_is_never_completed() {
    let (shown, usage) = shape(
        &[WS_TEXT_DELTA, WS_IN_STREAM_ERROR, WS_TEXT_DELTA, WS_IN_STREAM_ERROR, WS_USAGE],
        InputFormat::Responses,
        true,
    );
    let events = responses(shown);
    assert_eq!(
        wire_names(&events),
        [
            "response.created",
            "response.in_progress",
            "response.output_item.added",
            "response.content_part.added",
            "response.output_text.delta",
            "response.failed",
        ]
    );
    // The stream is metered to its end.
    assert_eq!(usage.output_tokens, Some(5));

    let (shown, _) = shape(&[WS_IN_STREAM_ERROR], InputFormat::Responses, true);
    let events = responses(shown);
    assert_eq!(wire_names(&events), ["response.created", "response.in_progress", "response.failed"]);
    assert_eq!(numbers(&events), [1, 2, 3]);
}

#[test]
fn a_response_without_text_completes_without_an_item() {
    let (shown, _) = shape(&[WS_USAGE], InputFormat::Responses, true);
    let events = responses(shown);
    assert_eq!(wire_names(&events), ["response.created", "response.in_progress", "response.completed"]);
    assert_eq!(numbers(&events), [1, 2, 3]);
    assert!(matches!(
        &events[2].event,
        ResponseEvent::Completed { response, output_text, provenance: None }
            if response.status == Status::Completed && output_text.is_empty()
    ));
}

#[test]
fn search_rounds_annotate_the_text_of_a_response() {
    let (shown, _) = shape(
        &[WS_TOOL_ROUND, WS_TEXT_DELTA, WS_TOOL_ROUND],
        InputFormat::Responses,
        true,
    );
    let events = responses(shown);
    assert_eq!(
        wire_names(&events)[..8],
        [
            "response.created",
            "response.in_progress",
            "response.output_item.added",
            "response.content_part.added",
            "response.output_text.annotation.added",
            "response.output_text.delta",
            "response.output_text.annotation.added",
            "response.output_text.done",
        ]
    );
    for event in [&events[4], &events[6]] {
        assert!(matches!(
            &event.event,
            ResponseEvent::OutputTextAnnotationAdded { item_id, annotation }
                if item_id == "msg_resp_2a"
                    && annotation.get("tool_use_id").and_then(|t| t.as_str()) == Some("t1")
        ));
    }
}

#[test]
fn a_search_round_without_text_is_shown() {
    let (shown, _) = shape(&[WS_TOOL_ROUND], InputFormat::Responses, true);
    let events = responses(shown);
    assert_eq!(
        wire_names(&events),
        [
            "response.created",
            "response.in_progress",
            "response.output_item.added",
            "response.content_part.added",
            "response.output_text.annotation.added",
            "response.output_text.done",
            "response.content_part.done",
            "response.output_item.done",
            "response.completed",
        ]
    );
}

#[test]
fn a_message_without_frames_is_a_whole_message() {
    let (shown, _) = shape(&[], InputFormat::Messages, true);
    let events = messages(shown);
    assert_eq!(names(&events), ["message_start", "message_delta", "message_stop"]);

    let arrivals = vec![
        Arrival { at: Moment { nanos: 1 }, event: SseEvent::Malformed },
        Arrival { at: Moment { nanos: 2 }, event: SseEvent::Done },
        Arrival { at: Moment { nanos: 3 }, event: SseEvent::Done },
    ];
    let ctx = WebSearchStreamContext { streaming: true, client_tools: true };
    let shown = translate_stream(&arrivals, &mut unmetered(), "m", InputFormat::Messages, ctx, 1);
    assert_eq!(names(&messages(shown)), ["message_start", "message_delta", "message_stop"]);
}

#[test]
fn nothing_follows_the_end_of_a_message() {
    let (shown, usage) = shape(
        &[WS_PROVENANCE, WS_TEXT_DELTA, WS_TOOL_ROUND, WS_TOOL_CALL, WS_IN_STREAM_ERROR, WS_USAGE],
        InputFormat::Messages,
        true,
    );
    let events = messages(shown);
    assert_eq!(
        names(&events),
        [
            "message_start",
            "content_block_start",
            "content_block_delta",
            "content_block_stop",
            "message_delta",
            "message_stop",
        ]
    );
    // The stream is metered to its end.
    assert_eq!(usage.first_token, Some(Moment { nanos: 2 }));
    assert_eq!(usage.output_tokens, Some(5));
}

#[test]
fn a_second_end_of_a_message_changes_nothing() {
    let mut st = MsgState::default();
    let mut out: Vec<MessagesStreamEvent> = vec![];
    let mut usage = unmetered();
    flush_message_end(&mut st, &mut out, &mut usage);
    assert!(st.sent_stop);
    assert_eq!(names(&out), ["message_delta", "message_stop"]);
    flush_message_end(&mut st, &mut out, &mut usage);
    assert_eq!(out.len(), 2);
}

#[test]
fn a_usage_that_is_no_object_reports_nothing() {
    let frame = r#"{"choices":[{"index":0,"delta":{"content":"hi"}}],"usage":null}"#;
    assert!(matches!(classify(&json(frame)), Marker::TextDelta(t) if t == "hi"));
    assert!(matches!(classify(&json(r#"{"choices":[],"usage":7}"#)), Marker::Unknown));
    assert!(matches!(classify(&json(r#"{"choices":[],"usage":{}}"#)), Marker::Usage(_)));

    let (shown, usage) = shape(&[frame, WS_USAGE], InputFormat::Messages, true);
    assert!(messages(shown).iter().any(|e| matches!(
        e,
        MessagesStreamEvent::ContentBlockDelta { delta: ContentBlockDelta::TextDelta { text }, .. }
            if text == "hi"
    )));
    assert_eq!(usage.output_tokens, Some(5));
    assert_eq!(usage.total_tokens, Some(15));
}

#[test]
fn a_message_ends_with_its_reason_and_usage_once() {
    let (shown, _) = shape(&[WS_TEXT_DELTA], InputFormat::Messages, true);
    let events = messages(shown);
    assert_eq!(
        names(&events),
        [
            "message_start",
            "content_block_start",
            "content_block_delta",
            "content_block_stop",
            "message_delta",
            "message_stop",
        ]
    );
    assert!(matches!(
        &events[4],
        MessagesStreamEvent::MessageDelta {
            stop_reason: Some(StopReason::EndTurn),
            usage: MessageDeltaUsage { input_tokens: None, output_tokens: None, .. },
        }
    ));
}

#[test]
fn a_chat_stream_has_no_room_for_homeless_sources() {
    let ctx = WebSearchStreamContext { streaming: true, client_tools: true };
    let event = SseEvent::Frame(json(r#"{"x-ai-ws-provenance":{},"choices":[3]}"#));
    let now = Moment { nanos: 0 };
    assert!(!Shaper::new(InputFormat::Completions, ctx, 1).has_room_for(&event, now));
    assert!(Shaper::new(InputFormat::Messages, ctx, 1).has_room_for(&event, now));
    assert!(Shaper::new(InputFormat::Responses, ctx, 1).has_room_for(&event, now));
}

#[test]
fn a_stream_can_be_shaped_step_by_step() {
    let frames = [WS_TEXT_DELTA, WS_TOOL_ROUND, WS_USAGE, WS_PROVENANCE];
    let ctx = WebSearchStreamContext { streaming: true, client_tools: true };
    for format in [InputFormat::Completions, InputFormat::Messages, InputFormat::Responses] {
        let (whole, total) = shape(&frames, format, true);
        let mut usage = unmetered();
        let mut shaper = Shaper::new(format, ctx, 0x2a);
        let mut count = 0;
        for arrival in sidecar(&frames) {
            count += shaper.step(&mut usage, &arrival.event, arrival.at, "test-model").len();
        }
        assert_eq!(count, whole.len());
        assert_eq!(usage, total);
    }
}

#[test]
fn collapses_whitespace_of_an_html_error_page() {
    let body: &[u8] =
        b"<html>\r\n<head><title>404 Not Found</title></head>\r\n<body>\r\n</body>\r\n</html>\r\n";
    assert_eq!(
        unparseable_upstream_body(body),
        "<html> <head><title>404 Not Found</title></head> <body> </body> </html>"
    );
}

#[test]
fn caps_a_large_error_page() {
    let body = vec![b'x'; 4096];
    let out = unparseable_upstream_body(&body);
    assert!(out.ends_with("... (truncated)"), "got: {out}");
    assert_eq!(out.chars().filter(|c| *c == 'x').count(), 512);
}

#[test]
fn describes_an_empty_body() {
    assert_eq!(unparseable_upstream_body(&[]), "upstream returned an empty error body");
}

#[test]
fn does_not_panic_on_invalid_utf8() {
    let body: [u8; 4] = [0xff, 0xfe, b'o', b'k'];
    assert!(unparseable_upstream_body(&body).contains("ok"));
    assert_eq!(unparseable_upstream_body(&body), "\u{fffd}\u{fffd}ok");
}

#[test]
fn body_text_at_the_limit_and_odd_white_space() {
    assert_eq!(describe_body(" \u{3000}\t\u{85}"), "upstream returned an empty error body");
    assert_eq!(describe_body("a\u{2003}\u{a0}b\u{200b}c "), "a b\u{200b}c");
    let full = "y".repeat(512);
    assert_eq!(describe_body(&full), full);
    let over = "y".repeat(513);
    assert_eq!(describe_body(&over), format!("{full}... (truncated)"));
}

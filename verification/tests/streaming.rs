use openai_responses::{
    announce, classify, Arrival, ChatMessage, ChatRole, ContentBlock, Effect, Json, Line,
    MessageKind, Opening, ResponseState, ServerEvent, Step, StreamReader, TokenUsage,
    STREAM_TIMEOUT_SECS,
};

const STREAM: &str = "event: response.output_text.delta\n\
data: {\"type\":\"response.output_text.delta\",\"delta\":\"h\u{e9}\"}\r\n\
\n\
data: not json\n\
data: {\"type\":\"response.output_item.added\",\"output_index\":2,\"item\":{\"type\":\"function_call\",\"call_id\":\"c2\",\"name\":\"g\"}}\n\
data: {\"type\":\"response.output_item.added\",\"output_index\":1,\"item\":{\"type\":\"function_call\",\"call_id\":\"c1\",\"name\":\"f\"}}\n\
data: {\"type\":\"response.output_item.added\",\"item\":{\"type\":\"web_search_call\"}}\n\
data: {\"type\":\"response.function_call_arguments.delta\",\"output_index\":1,\"delta\":\"{\\\"x\\\"\"}\n\
data: {\"type\":\"response.function_call_arguments.delta\",\"delta\":\":1}\"}\n\
  data: {\"type\":\"response.output_text.delta\",\"delta\":\"llo\"}  \n\
data: {\"type\":\"response.completed\",\"response\":{\"status\":\"completed\",\"output\":[{\"type\":\"function_call\"}],\"usage\":{\"input_tokens\":10,\"output_tokens\":3,\"input_tokens_details\":{\"cached_tokens\":4}}}}\n\
data: [DONE]\n";

fn json(text: &str) -> Json {
    Json::parse(text).unwrap()
}

fn delta(text: &str) -> Effect {
    Effect::Delta { text: text.to_string() }
}

fn delta_line(text: &str) -> String {
    format!("data: {{\"type\":\"response.output_text.delta\",\"delta\":\"{text}\"}}\n")
}

#[test]
fn lines_are_told_apart() {
    assert_eq!(classify(""), Line::Skip);
    assert_eq!(classify(" \t\u{a0}\u{3000}"), Line::Skip);
    assert_eq!(classify("event: data: x"), Line::Skip);
    assert_eq!(classify("data:x"), Line::Skip);
    assert_eq!(classify("data:   "), Line::Skip);
    assert_eq!(classify(": data: x"), Line::Skip);
    assert_eq!(classify(" data: {} \r"), Line::Data("{}"));
    assert_eq!(classify("data:  x"), Line::Data(" x"));
    assert_eq!(classify("data: [DONE]\r"), Line::Done);
    assert_eq!(classify("data: [DONE]."), Line::Data("[DONE]."));
}

#[test]
fn stream_is_read() {
    let mut reader = StreamReader::new();
    let effects = reader.feed(STREAM.as_bytes());
    let usage = TokenUsage { input: 10, output: 3, cached: 4, uncached: 6 };
    assert_eq!(
        effects,
        vec![
            delta("h\u{e9}"),
            Effect::ToolCall { content: "calling g".to_string(), tool_name: Some("g".to_string()) },
            Effect::ToolCall { content: "calling f".to_string(), tool_name: Some("f".to_string()) },
            Effect::WebSearch,
            delta("llo"),
            Effect::Usage { usage },
        ]
    );
    assert!(reader.buffer.is_empty());
    assert_eq!(reader.state.usage, Some(usage));
    let result = reader.finish(Some(42));
    assert_eq!(result.text, "h\u{e9}llo");
    assert_eq!(result.stop_reason, "tool_use");
    assert_eq!(result.tokens_used, 42);
    assert_eq!(result.tool_uses.len(), 2);
    assert_eq!(result.tool_uses[0].id, "c1");
    assert_eq!(result.tool_uses[0].name, "f");
    assert_eq!(result.tool_uses[0].input.to_text(), "{\"x\":1}");
    assert_eq!(result.tool_uses[1].id, "c2");
    assert_eq!(result.tool_uses[1].input.to_text(), "{}");
    assert_eq!(result.ordered_content.len(), 1);
    assert!(matches!(&result.ordered_content[0], ContentBlock::Text { text } if text == "h\u{e9}llo"));
}

#[test]
fn chunks_make_no_difference() {
    let mut whole = StreamReader::new();
    let effects = whole.feed(STREAM.as_bytes());
    for size in [1usize, 2, 3, 7, 100] {
        let mut reader = StreamReader::new();
        let mut all: Vec<Effect> = Vec::new();
        for chunk in STREAM.as_bytes().chunks(size) {
            all.extend(reader.feed(chunk));
        }
        assert_eq!(all, effects);
        assert_eq!(reader, whole);
    }
}

#[test]
fn blank_lines_after_the_mark_make_no_difference() {
    let bytes = format!("{STREAM}\nevent: done\n: end\n");
    let mut whole = StreamReader::new();
    let effects = whole.feed(bytes.as_bytes());
    for cut in 0..bytes.len() + 1 {
        let mut reader = StreamReader::new();
        let mut all = reader.feed(&bytes.as_bytes()[..cut]);
        all.extend(reader.feed(&bytes.as_bytes()[cut..]));
        assert_eq!(all, effects);
        assert_eq!(reader.state, whole.state);
    }
    assert_eq!(whole.buffer, b"\nevent: done\n: end\n".to_vec());
    let mut reader = StreamReader::new();
    assert_eq!(reader.feed(STREAM.as_bytes()), effects);
    assert!(reader.feed(b"\ndata: not json\ndata: [DONE]\n").is_empty());
    assert_eq!(reader.state, whole.state);
}

#[test]
fn chunks_are_read_at_least_as_far() {
    let bytes = format!("{STREAM}\ndata: not json\nda");
    let mut whole = StreamReader::new();
    whole.feed(bytes.as_bytes());
    for size in 1..bytes.len() {
        let mut reader = StreamReader::new();
        for chunk in bytes.as_bytes().chunks(size) {
            reader.feed(chunk);
        }
        assert!(whole.buffer.ends_with(&reader.buffer));
        assert_eq!(reader.state, whole.state);
    }
    assert_eq!(whole.buffer, b"\ndata: not json\nda".to_vec());
}

#[test]
fn only_success_opens_a_stream() {
    assert_eq!(StreamReader::open(true), Opening::Read(StreamReader::new()));
    assert_eq!(StreamReader::open(false), Opening::Refused);
}

#[test]
fn no_report_is_charged_with_nothing() {
    assert_eq!(StreamReader::new().finish(None).tokens_used, 0);
    assert_eq!(StreamReader::new().finish(Some(7)).tokens_used, 7);
}

#[test]
fn lines_after_the_mark_wait_for_more_bytes() {
    let mut reader = StreamReader::new();
    let bytes = format!("{}data: [DONE]\n{}", delta_line("a"), delta_line("b"));
    assert_eq!(reader.feed(bytes.as_bytes()), vec![delta("a")]);
    assert_eq!(reader.buffer, delta_line("b").into_bytes());
    assert_eq!(reader.feed(b""), vec![delta("b")]);
    assert!(reader.buffer.is_empty());
}

#[test]
fn half_a_line_does_not_count() {
    let mut reader = StreamReader::new();
    let line = delta_line("a");
    assert!(reader.feed(&line.as_bytes()[..line.len() - 1]).is_empty());
    let result = reader.finish(None);
    assert_eq!(result.text, "");
    assert!(result.ordered_content.is_empty());
    assert_eq!(result.stop_reason, "end_turn");
}

#[test]
fn invalid_bytes_are_replaced() {
    let mut reader = StreamReader::new();
    let mut bytes = b"data: {\"type\":\"response.output_text.delta\",\"delta\":\"x".to_vec();
    bytes.push(0xff);
    bytes.extend_from_slice(b"y\"}\n");
    assert_eq!(reader.feed(&bytes), vec![delta("x\u{fffd}y")]);
}

#[test]
fn steps_follow_arrivals() {
    assert_eq!(STREAM_TIMEOUT_SECS, 480);
    let mut reader = StreamReader::new();
    assert_eq!(
        reader.step(Arrival::Chunk(delta_line("a").as_bytes())),
        Step::Continue(vec![delta("a")])
    );
    assert_eq!(reader.step(Arrival::Chunk(b"data")), Step::Continue(vec![]));
    assert_eq!(reader.step(Arrival::Failed), Step::Abort);
    assert_eq!(reader.step(Arrival::Ended), Step::Finish);
    assert_eq!(reader.step(Arrival::TimedOut), Step::Finish);
    assert_eq!(reader.buffer, b"data".to_vec());
    assert_eq!(reader.finish(Some(1)).text, "a");
}

#[test]
fn a_broken_off_stream_stops_for_its_calls() {
    let mut state = ResponseState::new();
    let event = r#"{"type":"response.function_call_arguments.delta","delta":"[1"}"#;
    assert_eq!(state.apply(&json(event)), None);
    let result = state.finish(None);
    assert_eq!(result.stop_reason, "tool_use");
    assert_eq!(result.tool_uses.len(), 1);
    assert_eq!(result.tool_uses[0].id, "");
    assert_eq!(result.tool_uses[0].input.to_text(), "{}");
}

#[test]
fn arguments_add_up() {
    let mut apart = ResponseState::new();
    apart.apply(&json(r#"{"type":"response.function_call_arguments.delta","output_index":3,"delta":"ab"}"#));
    apart.apply(&json(r#"{"type":"response.function_call_arguments.delta","delta":"cd"}"#));
    let mut joint = ResponseState::new();
    joint.apply(&json(r#"{"type":"response.function_call_arguments.delta","output_index":3,"delta":"abcd"}"#));
    assert_eq!(apart, joint);
    assert_eq!(joint.current, 3);
    assert_eq!(joint.calls[&3].arguments, "abcd");
}

#[test]
fn an_added_call_starts_anew() {
    let mut state = ResponseState::new();
    state.apply(&json(r#"{"type":"response.function_call_arguments.delta","delta":"old"}"#));
    let event = r#"{"type":"response.output_item.added","item":{"type":"function_call","call_id":"c"}}"#;
    assert_eq!(
        state.apply(&json(event)),
        Some(Effect::ToolCall { content: "calling function".to_string(), tool_name: None })
    );
    assert_eq!(state.calls[&0].call_id, "c");
    assert_eq!(state.calls[&0].name, "");
    assert_eq!(state.calls[&0].arguments, "");
}

#[test]
fn unknown_events_change_nothing() {
    for text in [
        "{}",
        "[]",
        r#"{"type":"response.created"}"#,
        r#"{"type":"response.output_text.delta"}"#,
        r#"{"type":"response.output_text.delta","delta":1}"#,
        r#"{"type":"response.function_call_arguments.delta","output_index":1}"#,
        r#"{"type":"response.output_item.added"}"#,
        r#"{"type":"response.output_item.added","item":{"type":"message"}}"#,
        r#"{"type":"response.completed"}"#,
    ] {
        let mut state = ResponseState::new();
        assert_eq!(state.apply(&json(text)), None);
        assert_eq!(state, ResponseState::new());
    }
}

#[test]
fn completion_without_usage_keeps_it() {
    let mut state = ResponseState::new();
    let cut = r#"{"type":"response.completed","response":{"status":"incomplete",
        "incomplete_details":{"reason":"max_output_tokens"}}}"#;
    assert_eq!(state.apply(&json(cut)), None);
    assert_eq!(state.stop_reason, "max_tokens");
    assert_eq!(state.usage, None);
    assert_eq!(state.finish(None).stop_reason, "max_tokens");
}

#[test]
fn subscribers_are_told() {
    let told = announce(&delta("t"), "i", "c", "m", "1", "2");
    assert_eq!(
        told,
        Some(ServerEvent::ChatStreamDelta {
            instance_slug: "i".to_string(),
            chat_id: "c".to_string(),
            message_id: "m".to_string(),
            delta: "t".to_string(),
        })
    );
    let message = ChatMessage {
        id: "fn_1".to_string(),
        role: ChatRole::Assistant,
        content: "calling f".to_string(),
        created_at: "2".to_string(),
        kind: MessageKind::ToolCall,
        tool_name: Some("f".to_string()),
        mcp_app_html: None,
        mcp_app_input: None,
        model: None,
    };
    let call = Effect::ToolCall { content: "calling f".to_string(), tool_name: Some("f".to_string()) };
    assert_eq!(
        announce(&call, "i", "c", "m", "1", "2"),
        Some(ServerEvent::ChatMessageCreated {
            instance_slug: "i".to_string(),
            chat_id: "c".to_string(),
            message: message.clone(),
        })
    );
    let search = ChatMessage {
        id: "ws_1".to_string(),
        content: "searching the web".to_string(),
        tool_name: Some("web_search".to_string()),
        ..message
    };
    assert_eq!(
        announce(&Effect::WebSearch, "i", "c", "m", "1", "2"),
        Some(ServerEvent::ChatMessageCreated {
            instance_slug: "i".to_string(),
            chat_id: "c".to_string(),
            message: search,
        })
    );
    let usage = TokenUsage { input: 1, output: 1, cached: 0, uncached: 1 };
    assert_eq!(announce(&Effect::Usage { usage }, "i", "c", "m", "1", "2"), None);
}

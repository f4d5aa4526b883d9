use openai_responses::{
    read_arguments, read_completion, read_reply, read_stop_reason, read_usage, stream_refusal,
    tool_input, Json, ReplyError, TokenUsage,
};

fn json(text: &str) -> Json {
    Json::parse(text).unwrap()
}

#[test]
fn reply_is_read() {
    let body = r#"{
        "status":"completed",
        "output":[
            {"type":"reasoning"},
            {"type":"message","content":[
                {"type":"output_text","text":"a"},
                {"type":"refusal","text":"no"},
                {"type":"output_text"},
                {"type":"output_text","text":"b"}]},
            {"type":"function_call","call_id":"c1","name":"f","arguments":"{\"x\":1}"},
            {"type":"message","content":"skipped"},
            {"type":"message","content":[{"type":"output_text","text":"c"}]},
            {"type":"function_call"}
        ],
        "usage":{"input_tokens":100,"output_tokens":7,"input_tokens_details":{"cached_tokens":60}}
    }"#;
    let reply = read_reply(true, "200 OK", body).unwrap();
    assert_eq!(reply.text, "abc");
    assert_eq!(reply.stop_reason, "tool_use");
    assert_eq!(reply.tool_uses.len(), 2);
    assert_eq!(reply.tool_uses[0].id, "c1");
    assert_eq!(reply.tool_uses[0].name, "f");
    assert_eq!(reply.tool_uses[0].input.to_text(), r#"{"x":1}"#);
    assert_eq!(reply.tool_uses[1].id, "");
    assert_eq!(reply.tool_uses[1].name, "");
    assert_eq!(reply.tool_uses[1].input.to_text(), "{}");
    assert_eq!(reply.usage, TokenUsage { input: 100, output: 7, cached: 60, uncached: 40 });
}

#[test]
fn refused_request_is_an_error() {
    match read_reply(false, "404 Not Found", "{}") {
        Err(ReplyError::Status { message }) => {
            assert_eq!(message, "OpenAI API error 404 Not Found: {}")
        }
        _ => panic!("expected a status error"),
    }
}

#[test]
fn malformed_reply_is_an_error() {
    for (body, said) in [
        ("oops", "expected value at line 1 column 1"),
        ("", "EOF while parsing a value at line 1 column 0"),
        ("{}\n]", "trailing characters at line 2 column 1"),
    ] {
        match read_reply(true, "200 OK", body) {
            Err(ReplyError::Malformed { error }) => assert_eq!(error.to_string(), said),
            other => panic!("{other:?}"),
        }
    }
}

#[test]
fn refused_stream_is_answered() {
    assert_eq!(stream_refusal("500 X", Some("why")), "OpenAI stream error 500 X: why");
    assert_eq!(stream_refusal("500 X", None), "OpenAI stream error 500 X: ");
}

#[test]
fn stop_reasons() {
    let cut = r#"{"status":"incomplete","incomplete_details":{"reason":"max_output_tokens"}}"#;
    assert_eq!(read_stop_reason(&json(cut)), "max_tokens");
    let filtered = r#"{"status":"incomplete","incomplete_details":{"reason":"content_filter"}}"#;
    assert_eq!(read_stop_reason(&json(filtered)), "end_turn");
    assert_eq!(read_stop_reason(&json(r#"{"status":"incomplete"}"#)), "end_turn");
    let done = r#"{"status":"completed","incomplete_details":{"reason":"max_output_tokens"}}"#;
    assert_eq!(read_stop_reason(&json(done)), "end_turn");
    assert_eq!(read_stop_reason(&json("{}")), "end_turn");
    let calls = r#"{"status":"incomplete","incomplete_details":{"reason":"max_output_tokens"},
        "output":[{"type":"message"},{"type":"function_call"}]}"#;
    assert_eq!(read_stop_reason(&json(calls)), "tool_use");
}

#[test]
fn empty_response_amounts_to_nothing() {
    let nothing = read_completion(&json("[]"));
    assert_eq!(nothing.text, "");
    assert!(nothing.tool_uses.is_empty());
    assert_eq!(nothing.stop_reason, "end_turn");
    assert_eq!(nothing.usage, TokenUsage { input: 0, output: 0, cached: 0, uncached: 0 });
}

#[test]
fn more_cached_than_input_leaves_nothing_uncached() {
    let report = r#"{"input_tokens":5,"output_tokens":-1,"input_tokens_details":{"cached_tokens":9}}"#;
    assert_eq!(
        read_usage(&json(report)),
        TokenUsage { input: 5, output: 0, cached: 9, uncached: 0 }
    );
}

#[test]
fn unreadable_arguments_are_an_empty_object() {
    assert_eq!(read_arguments("{\"x\":").to_text(), "{}");
    assert_eq!(read_arguments("[1]").to_text(), "[1]");
    assert_eq!(tool_input(None).to_text(), "{}");
    assert_eq!(tool_input(Some(Json::Null)).to_text(), "null");
}

use openai_responses::{
    complete_request, stream_request, ContentBlock, Json, Message, ToolDefinition, COMPACT_THRESHOLD,
};

fn value(text: &str) -> serde_json::Value {
    serde_json::from_str(text).unwrap()
}

fn conversation() -> Vec<Message> {
    vec![Message::User { content: vec![ContentBlock::Text { text: "hi".to_string() }] }]
}

#[test]
fn complete_request_without_extras() {
    let request = complete_request("key", "m", &[], &[], &conversation(), 64, "http://h");
    assert_eq!(request.url, "http://h/v1/responses");
    assert_eq!(request.authorization, "Bearer key");
    assert_eq!(request.content_type, "application/json");
    let expected = r#"{
        "model":"m","max_output_tokens":64,"store":false,"stream":false,
        "input":[{"type":"message","role":"user","content":"hi"}]
    }"#;
    assert_eq!(request.body.to_value(), value(expected));
}

#[test]
fn complete_request_with_instructions_and_tools() {
    let defs = [ToolDefinition {
        name: "n".to_string(),
        description: "d".to_string(),
        parameters: Json::Null,
    }];
    let request = complete_request("k", "m", &["a", "b"], &defs, &[], u64::MAX, "");
    let expected = r#"{
        "model":"m","max_output_tokens":18446744073709551615,"store":false,"stream":false,"input":[],
        "instructions":"a\n\nb",
        "tools":[{"type":"function","name":"n","description":"d","parameters":null,"strict":false}]
    }"#;
    assert_eq!(request.body.to_value(), value(expected));
}

#[test]
fn stream_request_manages_the_context() {
    let request = stream_request("k", "m", &[], &[], &conversation(), 64, "http://h");
    assert_eq!(request.url, "http://h/v1/responses");
    assert_eq!(COMPACT_THRESHOLD, 100000);
    let expected = r#"{
        "model":"m","max_output_tokens":64,"store":false,"stream":true,
        "input":[{"type":"message","role":"user","content":"hi"}],
        "context_management":[{"type":"compaction","compact_threshold":100000}],
        "tools":[{"type":"web_search"}]
    }"#;
    assert_eq!(request.body.to_value(), value(expected));
}

use openai_responses::{
    call_to_openai, image_source_to_openai, messages_to_openai, read_completion,
    tool_result_to_string, tool_use_to_openai, tools_to_openai, ContentBlock, ImageSource, Json,
    Message, ToolDefinition,
};

const COMPACTED: &str = r#"{"type":"compaction","id":"k1","encrypted_content":"x"}"#;

fn value(text: &str) -> serde_json::Value {
    serde_json::from_str(text).unwrap()
}

fn values(items: &[Json]) -> serde_json::Value {
    serde_json::Value::Array(items.iter().map(|j| j.to_value()).collect())
}

fn json(text: &str) -> Json {
    Json::parse(text).unwrap()
}

fn text(s: &str) -> ContentBlock {
    ContentBlock::Text { text: s.to_string() }
}

fn call(id: &str, input: &str) -> ContentBlock {
    ContentBlock::ToolUse { id: id.to_string(), name: "f".to_string(), input: json(input) }
}

#[test]
fn image_becomes_a_url() {
    let inline = ImageSource::Base64 { media_type: "image/png".to_string(), data: "QUJD".to_string() };
    assert_eq!(
        image_source_to_openai(&inline).to_value(),
        value(r#"{"type":"image_url","image_url":{"url":"data:image/png;base64,QUJD"}}"#)
    );
    let linked = ImageSource::Url { url: "https://x/y.png".to_string() };
    assert_eq!(
        image_source_to_openai(&linked).to_value(),
        value(r#"{"type":"image_url","image_url":{"url":"https://x/y.png"}}"#)
    );
}

#[test]
fn tool_result_is_one_text() {
    assert_eq!(tool_result_to_string(&json(r#""plain""#)), "plain");
    let blocks = r#"[{"type":"text","text":"a"},{"type":"image"},{"type":"text"},{"type":"text","text":"b"},"text",{"text":"c"}]"#;
    assert_eq!(tool_result_to_string(&json(blocks)), "a\nb");
    assert_eq!(tool_result_to_string(&json("[]")), "");
    assert_eq!(tool_result_to_string(&json(r#"{"b":1,"a":[2]}"#)), r#"{"a":[2],"b":1}"#);
    assert_eq!(tool_result_to_string(&json("null")), "null");
}

#[test]
fn system_parts_are_joined() {
    assert_eq!(messages_to_openai(&[], &[]).0, "");
    assert_eq!(messages_to_openai(&["a"], &[]).0, "a");
    assert_eq!(messages_to_openai(&["a", "", "b"], &[]).0, "a\n\n\n\nb");
}

#[test]
fn user_blocks_become_items() {
    let message = Message::User {
        content: vec![
            text("hi"),
            ContentBlock::Image { source: ImageSource::Url { url: "u".to_string() } },
            ContentBlock::Compaction { content: json(COMPACTED) },
            call("ignored", "{}"),
            ContentBlock::ToolResult { tool_use_id: "c1".to_string(), content: json(r#""ok""#) },
            text(""),
        ],
    };
    let expected = r#"[
        {"type":"message","role":"user","content":"hi"},
        {"type":"message","role":"user","content":[{"type":"image_url","image_url":{"url":"u"}}]},
        {"type":"compaction","id":"k1","encrypted_content":"x"},
        {"type":"function_call_output","call_id":"c1","output":"ok"},
        {"type":"message","role":"user","content":""}
    ]"#;
    assert_eq!(values(&messages_to_openai(&[], &[message]).1), value(expected));
}

#[test]
fn assistant_text_is_flushed_before_calls() {
    let message = Message::Assistant {
        content: vec![
            text("a"),
            text("b"),
            ContentBlock::Compaction { content: json(COMPACTED) },
            text("d"),
            call("c1", r#"{"x":1}"#),
            call("c2", "{}"),
            text(""),
            text("c"),
        ],
    };
    let expected = r#"[
        {"type":"message","role":"assistant","content":"ab"},
        {"type":"compaction","id":"k1","encrypted_content":"x"},
        {"type":"message","role":"assistant","content":"d"},
        {"type":"function_call","call_id":"c1","name":"f","arguments":"{\"x\":1}"},
        {"type":"function_call","call_id":"c2","name":"f","arguments":"{}"},
        {"type":"message","role":"assistant","content":"c"}
    ]"#;
    assert_eq!(values(&messages_to_openai(&[], &[message]).1), value(expected));
}

#[test]
fn assistant_without_text_leaves_no_message() {
    let message = Message::Assistant {
        content: vec![
            text(""),
            ContentBlock::Image { source: ImageSource::Url { url: "u".to_string() } },
            ContentBlock::ToolResult { tool_use_id: "c1".to_string(), content: Json::Null },
        ],
    };
    assert!(messages_to_openai(&[], &[message]).1.is_empty());
}

#[test]
fn compaction_keeps_its_place() {
    let blocks = |compacted: Option<&str>| -> Vec<ContentBlock> {
        let mut content = vec![text("a")];
        if let Some(t) = compacted {
            content.push(ContentBlock::Compaction { content: json(t) });
        }
        content.push(call("c", "{}"));
        content
    };
    let bare = messages_to_openai(&[], &[Message::Assistant { content: blocks(None) }]).1;
    assert_eq!(bare.len(), 2);
    for t in ["null", "[1,2.5]", COMPACTED, r#"{"type":"function_call","call_id":"k"}"#] {
        let items = messages_to_openai(&[], &[Message::Assistant { content: blocks(Some(t)) }]).1;
        let expected = vec![bare[0].to_value(), value(t), bare[1].to_value()];
        assert_eq!(values(&items), serde_json::Value::Array(expected));
        let alone = Message::User { content: vec![ContentBlock::Compaction { content: json(t) }] };
        assert_eq!(
            values(&messages_to_openai(&[], &[alone]).1),
            serde_json::Value::Array(vec![value(t)])
        );
    }
}

#[test]
fn messages_do_not_neighbour() {
    let message = Message::Assistant {
        content: vec![
            text("a"),
            ContentBlock::ToolResult { tool_use_id: "t".to_string(), content: Json::Null },
            text("b"),
            call("c1", "{}"),
            text("c"),
            ContentBlock::Image { source: ImageSource::Url { url: "u".to_string() } },
            text("d"),
        ],
    };
    let items = messages_to_openai(&[], &[message]).1;
    let kinds: Vec<String> =
        items.iter().map(|i| i.to_value()["type"].as_str().unwrap().to_string()).collect();
    assert_eq!(kinds, vec!["message", "function_call", "message"]);
}

#[test]
fn displayed_result_reads_back() {
    for t in [r#"{"k":[-1,{"s":"\t\"\\"}]}"#, "18446744073709551615", "false", "null"] {
        assert_eq!(json(&tool_result_to_string(&json(t))).to_value(), value(t));
    }
}

#[test]
fn items_of_two_conversations_are_those_of_each() {
    let first = Message::User { content: vec![text("q")] };
    let second = Message::Assistant { content: vec![text("r"), call("c", "[]")] };
    let mut apart = messages_to_openai(&[], &[Message::User { content: vec![text("q")] }]).1;
    apart.extend(
        messages_to_openai(&[], &[Message::Assistant { content: vec![text("r"), call("c", "[]")] }]).1,
    );
    assert_eq!(values(&messages_to_openai(&[], &[first, second]).1), values(&apart));
}

#[test]
fn calls_read_back_from_the_items() {
    let message = Message::Assistant {
        content: vec![call("c1", r#"{"n":-3,"s":"\n"}"#), text("t"), call("c2", r#"[{"k":[1,2]}]"#)],
    };
    let items = messages_to_openai(&[], &[message]).1;
    let response = Json::Object(vec![("output".to_string(), Json::Array(items))]);
    let calls = read_completion(&response).tool_uses;
    assert_eq!(calls.len(), 2);
    assert_eq!(calls[0].id, "c1");
    assert_eq!(calls[0].name, "f");
    assert_eq!(calls[0].input.to_value(), value(r#"{"n":-3,"s":"\n"}"#));
    assert_eq!(calls[1].id, "c2");
    assert_eq!(calls[1].input.to_value(), value(r#"[{"k":[1,2]}]"#));
}

#[test]
fn call_items_carry_their_arguments() {
    let expected = value(r#"{"type":"function_call","call_id":"i","name":"n","arguments":"[1]"}"#);
    assert_eq!(call_to_openai("i", "n", "[1]".to_string()).to_value(), expected);
    assert_eq!(tool_use_to_openai("i", "n", &json("[ 1 ]")).to_value(), expected);
}

#[test]
fn only_streams_may_search_the_web() {
    let defs = [ToolDefinition {
        name: "n".to_string(),
        description: "d".to_string(),
        parameters: json(r#"{"type":"object"}"#),
    }];
    let own = r#"{"type":"function","name":"n","description":"d","parameters":{"type":"object"},"strict":false}"#;
    assert_eq!(values(&tools_to_openai(&defs, false)), value(&format!("[{own}]")));
    assert_eq!(
        values(&tools_to_openai(&defs, true)),
        value(&format!(r#"[{own},{{"type":"web_search"}}]"#))
    );
    assert!(tools_to_openai(&[], false).is_empty());
    assert_eq!(tools_to_openai(&[], true).len(), 1);
}

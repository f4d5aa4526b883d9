//! The conversation and the tools as items of the Responses API.

use vstd::prelude::*;
use vstd::string::*;

use crate::json::{json_parsed, json_text, object, set_entry, Json, JsonView};
use crate::laws::conversation::{law_calls_sent, lemma_call_item, sent};
use crate::laws::items::{law_tool, law_tool_count};
use crate::response::{called, is_call, output_calls};
use crate::text::{join, joined, same};
use crate::types::{
    block_views, definition_views, message_views, ContentBlock, ContentBlockView, ImageSource,
    ImageSourceView, Message, MessageView, ToolDefinition, ToolDefinitionView, ToolUseView,
};

verus! {

/// The address under which the service finds an image.
pub open spec fn image_url(source: ImageSourceView) -> Seq<char> {
    match source {
        ImageSourceView::Base64 { media_type, data } => "data:"@ + media_type + ";base64,"@ + data,
        ImageSourceView::Url { url } => url,
    }
}

/// An image as a part of a message.
pub open spec fn image_part(source: ImageSourceView) -> JsonView {
    object(
        seq![
            ("type"@, JsonView::Text("image_url"@)),
            ("image_url"@, object(seq![("url"@, JsonView::Text(image_url(source)))])),
        ],
    )
}

/// The texts of the text blocks among the items.
pub open spec fn block_texts(items: Seq<JsonView>) -> Seq<Seq<char>>
    decreases items.len(),
{
    if items.len() == 0 {
        Seq::empty()
    } else {
        let before = block_texts(items.drop_last());
        let block = items.last();
        if block.at("type"@).text() == Some("text"@) && block.at("text"@).text() is Some {
            before.push(block.at("text"@).text()->0)
        } else {
            before
        }
    }
}

/// The result of a tool as one text: a string as it is, of an array the texts of its
/// text blocks on lines of their own, of anything else its JSON text.
pub open spec fn tool_result_text(content: JsonView) -> Seq<char> {
    match content {
        JsonView::Text(s) => s,
        JsonView::Array(items) => joined(block_texts(items), "\n"@),
        other => json_text(other),
    }
}

/// A message item.
pub open spec fn message_item(role: Seq<char>, content: JsonView) -> JsonView {
    object(
        seq![
            ("type"@, JsonView::Text("message"@)),
            ("role"@, JsonView::Text(role)),
            ("content"@, content),
        ],
    )
}

/// The item that carries the result of a tool call.
pub open spec fn output_item(call_id: Seq<char>, output: Seq<char>) -> JsonView {
    object(
        seq![
            ("type"@, JsonView::Text("function_call_output"@)),
            ("call_id"@, JsonView::Text(call_id)),
            ("output"@, JsonView::Text(output)),
        ],
    )
}

/// The item that carries a tool call, its arguments as a text.
pub open spec fn call_item(call_id: Seq<char>, name: Seq<char>, arguments: Seq<char>) -> JsonView {
    object(
        seq![
            ("type"@, JsonView::Text("function_call"@)),
            ("call_id"@, JsonView::Text(call_id)),
            ("name"@, JsonView::Text(name)),
            ("arguments"@, JsonView::Text(arguments)),
        ],
    )
}

/// The items of one block of a user message. A compaction block is passed on as it is.
pub open spec fn user_block_items(block: ContentBlockView) -> Seq<JsonView> {
    match block {
        ContentBlockView::ToolResult { tool_use_id, content } => seq![
            output_item(tool_use_id, tool_result_text(content)),
        ],
        ContentBlockView::Text { text } => seq![message_item("user"@, JsonView::Text(text))],
        ContentBlockView::Image { source } => seq![
            message_item("user"@, JsonView::Array(seq![image_part(source)])),
        ],
        ContentBlockView::Compaction { content } => seq![content],
        _ => Seq::empty(),
    }
}

/// The items of a user message.
pub open spec fn user_items(blocks: Seq<ContentBlockView>) -> Seq<JsonView>
    decreases blocks.len(),
{
    if blocks.len() == 0 {
        Seq::empty()
    } else {
        user_items(blocks.drop_last()) + user_block_items(blocks.last())
    }
}

/// The item of the text that an assistant wrote: none for an empty text.
pub open spec fn written(text: Seq<char>) -> Seq<JsonView> {
    if text.len() == 0 {
        Seq::empty()
    } else {
        seq![message_item("assistant"@, JsonView::Text(text))]
    }
}

/// The items of an assistant's blocks up to the last tool call or compaction block, and
/// the text after it. A compaction block is passed on as it is.
pub open spec fn assistant_split(blocks: Seq<ContentBlockView>) -> (Seq<JsonView>, Seq<char>)
    decreases blocks.len(),
{
    if blocks.len() == 0 {
        (Seq::empty(), Seq::empty())
    } else {
        let (items, text) = assistant_split(blocks.drop_last());
        match blocks.last() {
            ContentBlockView::Text { text: more } => (items, text + more),
            ContentBlockView::ToolUse { id, name, input } => (
                items + written(text) + seq![call_item(id, name, json_text(input))],
                Seq::empty(),
            ),
            ContentBlockView::Compaction { content } => (
                items + written(text) + seq![content],
                Seq::empty(),
            ),
            _ => (items, text),
        }
    }
}

/// The items of an assistant message: each tool call and each compaction block, and
/// before, between and after these the text that stands there.
pub open spec fn assistant_items(blocks: Seq<ContentBlockView>) -> Seq<JsonView> {
    assistant_split(blocks).0 + written(assistant_split(blocks).1)
}

/// The items of a message.
pub open spec fn message_items(message: MessageView) -> Seq<JsonView> {
    match message {
        MessageView::User { content } => user_items(content),
        MessageView::Assistant { content } => assistant_items(content),
    }
}

/// The items of a conversation.
pub open spec fn input_items(messages: Seq<MessageView>) -> Seq<JsonView>
    decreases messages.len(),
{
    if messages.len() == 0 {
        Seq::empty()
    } else {
        input_items(messages.drop_last()) + message_items(messages.last())
    }
}

/// The tool calls among the blocks of an assistant message.
pub open spec fn block_calls(blocks: Seq<ContentBlockView>) -> Seq<ToolUseView>
    decreases blocks.len(),
{
    if blocks.len() == 0 {
        Seq::empty()
    } else {
        let before = block_calls(blocks.drop_last());
        match blocks.last() {
            ContentBlockView::ToolUse { id, name, input } => before.push(
                ToolUseView { id, name, input },
            ),
            _ => before,
        }
    }
}

/// The tool calls of a message: only an assistant makes any.
pub open spec fn message_calls(message: MessageView) -> Seq<ToolUseView> {
    match message {
        MessageView::User { content } => Seq::empty(),
        MessageView::Assistant { content } => block_calls(content),
    }
}

/// The tool calls of a conversation.
pub open spec fn conversation_calls(messages: Seq<MessageView>) -> Seq<ToolUseView>
    decreases messages.len(),
{
    if messages.len() == 0 {
        Seq::empty()
    } else {
        conversation_calls(messages.drop_last()) + message_calls(messages.last())
    }
}

/// The blocks of a message.
pub open spec fn message_blocks(message: MessageView) -> Seq<ContentBlockView> {
    match message {
        MessageView::User { content } => content,
        MessageView::Assistant { content } => content,
    }
}

/// The block is a compaction block whose item reads as a tool call.
pub open spec fn carries_call(block: ContentBlockView) -> bool {
    block matches ContentBlockView::Compaction { content } && is_call(content)
}

/// No compaction block of a conversation reads as a tool call.
pub open spec fn no_carried_calls(messages: Seq<MessageView>) -> bool {
    forall|m: int, i: int|
        0 <= m < messages.len() && 0 <= i < message_blocks(messages[m]).len() ==> !carries_call(
            #[trigger] message_blocks(messages[m])[i],
        )
}

/// The input of a call survives being written down: no number in it is a fraction, and
/// its arrays and objects nest at most 127 deep.
pub open spec fn preserved(call: ToolUseView) -> bool {
    call.input.readable(127)
}

/// The inputs that survive being written down do read back.
pub open spec fn read_back(calls: Seq<ToolUseView>) -> bool {
    forall|i: int|
        0 <= i < calls.len() && preserved(#[trigger] calls[i]) ==> json_parsed(
            json_text(calls[i].input),
        ) == Some(calls[i].input)
}

/// A tool as the service takes it.
pub open spec fn tool_item(def: ToolDefinitionView) -> JsonView {
    object(
        seq![
            ("type"@, JsonView::Text("function"@)),
            ("name"@, JsonView::Text(def.name)),
            ("description"@, JsonView::Text(def.description)),
            ("parameters"@, def.parameters),
            ("strict"@, JsonView::Bool(false)),
        ],
    )
}

/// The search tool that the service runs itself.
pub open spec fn web_search_item() -> JsonView {
    object(seq![("type"@, JsonView::Text("web_search"@))])
}

/// The tools of a request: a streamed one has the search tool after the others.
pub open spec fn tool_items(defs: Seq<ToolDefinitionView>, stream: bool) -> Seq<JsonView> {
    let own = defs.map_values(|d: ToolDefinitionView| tool_item(d));
    if stream {
        own.push(web_search_item())
    } else {
        own
    }
}

/// A JSON string.
fn text_of(s: &str) -> (r: Json)
    ensures
        r@ == JsonView::Text(s@),
{
    Json::Text(s.to_owned())
}

/// Appends a value to those that stand there.
fn add_item(items: &mut Vec<Json>, item: Json)
    ensures
        Json::models(final(items)@) == Json::models(old(items)@).push(item@),
{
    items.push(item);
    assert(Json::models(items@) =~= Json::models(old(items)@).push(item@));
}

/// An image as a part of a message.
pub fn image_source_to_openai(source: &ImageSource) -> (r: Json)
    ensures
        r@ == image_part(source@),
{
    let url: String = match source {
        ImageSource::Base64 { media_type, data } => "data:".to_owned().concat(
            media_type.as_str(),
        ).concat(";base64,").concat(data.as_str()),
        ImageSource::Url { url } => url.clone(),
    };
    let mut inner: Vec<(String, Json)> = Vec::new();
    set_entry(&mut inner, "url", Json::Text(url));
    assert(Json::entry_models(inner@) =~= seq![("url"@, JsonView::Text(image_url(source@)))]);
    let mut entries: Vec<(String, Json)> = Vec::new();
    set_entry(&mut entries, "type", text_of("image_url"));
    set_entry(&mut entries, "image_url", Json::Object(inner));
    assert(Json::entry_models(entries@) =~= seq![
        ("type"@, JsonView::Text("image_url"@)),
        ("image_url"@, object(seq![("url"@, JsonView::Text(image_url(source@)))])),
    ]);
    Json::Object(entries)
}

/// The result of a tool as one text. A string stays as it is. Of what is neither a string nor an array the text
/// reads back as the value, where it survives being written down.
pub fn tool_result_to_string(content: &Json) -> (r: String)
    ensures
        r@ == tool_result_text(content@),
        content@ matches JsonView::Text(s) ==> r@ == s,
        content@ !is Text && content@ !is Array && content@.readable(127) ==> json_parsed(r@)
            == Some(content@),
{
    if let Some(s) = content.as_str() {
        return s.to_owned();
    }
    if let Some(items) = content.as_array() {
        let ghost views = Json::models(items@);
        let mut parts: Vec<&str> = Vec::new();
        for i in 0..items.len()
            invariant
                views == Json::models(items@),
                parts@.map_values(|part: &str| part@) == block_texts(views.take(i as int)),
        {
            let block = &items[i];
            proof {
                assert(views.take(i + 1).drop_last() =~= views.take(i as int));
                assert(views.take(i + 1).last() == block@);
            }
            let is_text = match block.str_at("type") {
                Some(t) => same(t, "text"),
                None => false,
            };
            if is_text {
                if let Some(t) = block.str_at("text") {
                    let ghost before = parts@.map_values(|part: &str| part@);
                    parts.push(t);
                    assert(parts@.map_values(|part: &str| part@) =~= before.push(t@));
                }
            }
        }
        assert(views.take(items.len() as int) =~= views);
        return join(parts.as_slice(), "\n");
    }
    content.display()
}

/// A message item.
fn message_to_openai(role: &str, content: Json) -> (r: Json)
    ensures
        r@ == message_item(role@, content@),
{
    let mut entries: Vec<(String, Json)> = Vec::new();
    set_entry(&mut entries, "type", text_of("message"));
    set_entry(&mut entries, "role", text_of(role));
    set_entry(&mut entries, "content", content);
    assert(Json::entry_models(entries@) =~= seq![
        ("type"@, JsonView::Text("message"@)),
        ("role"@, JsonView::Text(role@)),
        ("content"@, content@),
    ]);
    Json::Object(entries)
}

/// The item that carries the result of a tool call.
fn output_to_openai(call_id: &str, output: String) -> (r: Json)
    ensures
        r@ == output_item(call_id@, output@),
{
    let mut entries: Vec<(String, Json)> = Vec::new();
    set_entry(&mut entries, "type", text_of("function_call_output"));
    set_entry(&mut entries, "call_id", text_of(call_id));
    set_entry(&mut entries, "output", Json::Text(output));
    assert(Json::entry_models(entries@) =~= seq![
        ("type"@, JsonView::Text("function_call_output"@)),
        ("call_id"@, JsonView::Text(call_id@)),
        ("output"@, JsonView::Text(output@)),
    ]);
    Json::Object(entries)
}

/// The item that carries a tool call, its arguments as a text.
pub fn call_to_openai(call_id: &str, name: &str, arguments: String) -> (r: Json)
    ensures
        r@ == call_item(call_id@, name@, arguments@),
{
    let mut entries: Vec<(String, Json)> = Vec::new();
    set_entry(&mut entries, "type", text_of("function_call"));
    set_entry(&mut entries, "call_id", text_of(call_id));
    set_entry(&mut entries, "name", text_of(name));
    set_entry(&mut entries, "arguments", Json::Text(arguments));
    assert(Json::entry_models(entries@) =~= seq![
        ("type"@, JsonView::Text("function_call"@)),
        ("call_id"@, JsonView::Text(call_id@)),
        ("name"@, JsonView::Text(name@)),
        ("arguments"@, JsonView::Text(arguments@)),
    ]);
    Json::Object(entries)
}

/// The item that carries a tool call. It reads as the call wherever the call's input
/// survives being written down.
pub fn tool_use_to_openai(id: &str, name: &str, input: &Json) -> (r: Json)
    ensures
        r@ == call_item(id@, name@, json_text(input@)),
        input@.readable(127) ==> is_call(r@) && called(r@) == (ToolUseView {
            id: id@,
            name: name@,
            input: input@,
        }),
        input@.readable(127) ==> json_parsed(json_text(input@)) == Some(input@),
{
    let arguments = input.to_text();
    proof {
        lemma_call_item(id@, name@, arguments@);
    }
    call_to_openai(id, name, arguments)
}

/// Appends the items of one block of a user message.
fn add_user_block(input: &mut Vec<Json>, block: &ContentBlock)
    ensures
        Json::models(final(input)@) == Json::models(old(input)@) + user_block_items(block@),
{
    let ghost before = Json::models(input@);
    match block {
        ContentBlock::ToolResult { tool_use_id, content } => {
            add_item(input, output_to_openai(tool_use_id.as_str(), tool_result_to_string(content)));
        },
        ContentBlock::Text { text } => {
            add_item(input, message_to_openai("user", text_of(text.as_str())));
        },
        ContentBlock::Image { source } => {
            let mut parts: Vec<Json> = Vec::new();
            add_item(&mut parts, image_source_to_openai(source));
            assert(Json::models(parts@) =~= seq![image_part(source@)]);
            add_item(input, message_to_openai("user", Json::Array(parts)));
        },
        ContentBlock::Compaction { content } => {
            add_item(input, content.clone());
        },
        _ => {},
    }
    assert(Json::models(input@) =~= before + user_block_items(block@));
}

/// Appends the item of the text that an assistant wrote, none for an empty text.
fn add_written(input: &mut Vec<Json>, text: &str)
    ensures
        Json::models(final(input)@) == Json::models(old(input)@) + written(text@),
{
    let ghost before = Json::models(input@);
    if !text.is_empty() {
        add_item(input, message_to_openai("assistant", text_of(text)));
    }
    assert(Json::models(input@) =~= before + written(text@));
}

/// Appends the items of a user message.
fn add_user(input: &mut Vec<Json>, content: &Vec<ContentBlock>)
    ensures
        Json::models(final(input)@) == Json::models(old(input)@) + user_items(block_views(content@)),
{
    let ghost before = Json::models(input@);
    let ghost blocks = block_views(content@);
    assert(Json::models(input@) =~= before + user_items(blocks.take(0)));
    for i in 0..content.len()
        invariant
            blocks == block_views(content@),
            Json::models(input@) == before + user_items(blocks.take(i as int)),
    {
        add_user_block(input, &content[i]);
        proof {
            assert(blocks.take(i + 1).drop_last() =~= blocks.take(i as int));
            assert(blocks.take(i + 1).last() == content@[i as int]@);
            assert(Json::models(input@) =~= before + user_items(blocks.take(i + 1)));
        }
    }
    assert(blocks.take(content.len() as int) =~= blocks);
}

/// Appends the items of an assistant message.
fn add_assistant(input: &mut Vec<Json>, content: &Vec<ContentBlock>)
    ensures
        Json::models(final(input)@) == Json::models(old(input)@) + assistant_items(
            block_views(content@),
        ),
        read_back(block_calls(block_views(content@))),
{
    let ghost before = Json::models(input@);
    let ghost blocks = block_views(content@);
    let mut text = String::new();
    assert(Json::models(input@) =~= before + assistant_split(blocks.take(0)).0);
    for i in 0..content.len()
        invariant
            blocks == block_views(content@),
            Json::models(input@) == before + assistant_split(blocks.take(i as int)).0,
            text@ == assistant_split(blocks.take(i as int)).1,
            read_back(block_calls(blocks.take(i as int))),
    {
        proof {
            assert(blocks.take(i + 1).drop_last() =~= blocks.take(i as int));
            assert(blocks.take(i + 1).last() == content@[i as int]@);
        }
        match &content[i] {
            ContentBlock::Text { text: more } => {
                text.append(more.as_str());
            },
            ContentBlock::ToolUse { id, name, input: args } => {
                add_written(input, text.as_str());
                text = String::new();
                add_item(input, tool_use_to_openai(id.as_str(), name.as_str(), args));
            },
            ContentBlock::Compaction { content } => {
                add_written(input, text.as_str());
                text = String::new();
                add_item(input, content.clone());
            },
            _ => {},
        }
        assert(Json::models(input@) =~= before + assistant_split(blocks.take(i + 1)).0);
    }
    assert(blocks.take(content.len() as int) =~= blocks);
    add_written(input, text.as_str());
    assert(Json::models(input@) =~= before + assistant_items(blocks));
}

/// The instructions and the input items of a conversation. The items carry the tool
/// calls of the conversation, in order, wherever their inputs survive being written down
/// and no compaction block reads as a call.
pub fn messages_to_openai(system: &[&str], messages: &[Message]) -> (r: (String, Vec<Json>))
    ensures
        r.0@ == joined(system@.map_values(|part: &str| part@), "\n\n"@),
        Json::models(r.1@) == input_items(message_views(messages@)),
        ({
            let calls = conversation_calls(message_views(messages@));
            no_carried_calls(message_views(messages@)) && (forall|i: int|
                0 <= i < calls.len() ==> preserved(#[trigger] calls[i])) ==> output_calls(
                Json::models(r.1@),
            ) == calls
        }),
{
    let instructions = join(system, "\n\n");
    let ghost all = message_views(messages@);
    let mut input: Vec<Json> = Vec::new();
    assert(Json::models(input@) =~= input_items(all.take(0)));
    for i in 0..messages.len()
        invariant
            all == message_views(messages@),
            Json::models(input@) == input_items(all.take(i as int)),
            read_back(conversation_calls(all.take(i as int))),
    {
        proof {
            assert(all.take(i + 1).drop_last() =~= all.take(i as int));
            assert(all.take(i + 1).last() == messages@[i as int]@);
        }
        match &messages[i] {
            Message::User { content } => add_user(&mut input, content),
            Message::Assistant { content } => add_assistant(&mut input, content),
        }
    }
    assert(all.take(messages.len() as int) =~= all);
    proof {
        let calls = conversation_calls(all);
        if no_carried_calls(all) && forall|i: int|
            0 <= i < calls.len() ==> preserved(#[trigger] calls[i]) {
            law_calls_sent(all);
            assert forall|i: int| 0 <= i < calls.len() implies sent(#[trigger] calls[i])
                == calls[i] by {
                assert(preserved(calls[i]));
            }
            assert(calls.map_values(|c: ToolUseView| sent(c)) =~= calls);
        }
    }
    (instructions, input)
}

/// A tool as the service takes it.
fn tool_to_openai(def: &ToolDefinition) -> (r: Json)
    ensures
        r@ == tool_item(def@),
{
    let mut entries: Vec<(String, Json)> = Vec::new();
    set_entry(&mut entries, "type", text_of("function"));
    set_entry(&mut entries, "name", text_of(def.name.as_str()));
    set_entry(&mut entries, "description", text_of(def.description.as_str()));
    set_entry(&mut entries, "parameters", def.parameters.clone());
    set_entry(&mut entries, "strict", Json::Bool(false));
    assert(Json::entry_models(entries@) =~= seq![
        ("type"@, JsonView::Text("function"@)),
        ("name"@, JsonView::Text(def.name@)),
        ("description"@, JsonView::Text(def.description@)),
        ("parameters"@, def.parameters@),
        ("strict"@, JsonView::Bool(false)),
    ]);
    Json::Object(entries)
}

/// The tools of a request, each under its own name and with its own description and schema:
/// a streamed one has the search tool after the others.
pub fn tools_to_openai(tool_defs: &[ToolDefinition], stream: bool) -> (r: Vec<Json>)
    ensures
        Json::models(r@) == tool_items(definition_views(tool_defs@), stream),
        r@.len() == tool_defs@.len() + if stream {
            1int
        } else {
            0int
        },
        forall|i: int|
            0 <= i < tool_defs@.len() ==> {
                &&& (#[trigger] r@[i])@.get("name"@) == Some(JsonView::Text(tool_defs@[i].name@))
                &&& r@[i]@.get("description"@) == Some(JsonView::Text(tool_defs@[i].description@))
                &&& r@[i]@.get("parameters"@) == Some(tool_defs@[i].parameters@)
            },
{
    let ghost own = definition_views(tool_defs@).map_values(|d: ToolDefinitionView| tool_item(d));
    let mut tools: Vec<Json> = Vec::new();
    for i in 0..tool_defs.len()
        invariant
            own == definition_views(tool_defs@).map_values(|d: ToolDefinitionView| tool_item(d)),
            Json::models(tools@) =~= own.take(i as int),
    {
        add_item(&mut tools, tool_to_openai(&tool_defs[i]));
        assert(own.take(i + 1) =~= own.take(i as int).push(tool_item(tool_defs@[i as int]@)));
    }
    assert(own.take(tool_defs.len() as int) =~= own);
    if stream {
        let mut entries: Vec<(String, Json)> = Vec::new();
        set_entry(&mut entries, "type", text_of("web_search"));
        assert(Json::entry_models(entries@) =~= seq![("type"@, JsonView::Text("web_search"@))]);
        add_item(&mut tools, Json::Object(entries));
    }
    proof {
        let defs = definition_views(tool_defs@);
        law_tool_count(defs);
        assert forall|i: int| 0 <= i < tool_defs@.len() implies {
            &&& (#[trigger] tools@[i])@.get("name"@) == Some(JsonView::Text(tool_defs@[i].name@))
            &&& tools@[i]@.get("description"@) == Some(JsonView::Text(tool_defs@[i].description@))
            &&& tools@[i]@.get("parameters"@) == Some(tool_defs@[i].parameters@)
        } by {
            law_tool(defs, stream, i);
            assert(Json::models(tools@)[i] == tools@[i]@);
        }
    }
    tools
}

} // verus!

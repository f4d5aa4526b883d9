//! What each block of a conversation and each tool is sent as.

use vstd::prelude::*;
use vstd::string::*;

use crate::json::{entries_map, json_text, object, JsonView};
use crate::laws::conversation::{
    law_compaction_from_assistant, law_input_items_concat, law_silent_from_assistant,
    lemma_item_literals, lemma_user_items_concat,
};
use crate::laws::json::{law_joined, lemma_entries_push};
use crate::messages::{
    assistant_items, assistant_split, block_texts, call_item, image_part, input_items,
    message_items, tool_item, tool_items, tool_result_text, user_block_items, user_items, written,
};
use crate::types::{ContentBlockView, ImageSourceView, MessageView, ToolDefinitionView};

verus! {

/// What is sent of a conversation of one user message.
pub open spec fn from_user(blocks: Seq<ContentBlockView>) -> Seq<JsonView> {
    input_items(seq![MessageView::User { content: blocks }])
}

/// What is sent of a conversation of one assistant message.
pub open spec fn from_assistant(blocks: Seq<ContentBlockView>) -> Seq<JsonView> {
    input_items(seq![MessageView::Assistant { content: blocks }])
}

proof fn lemma_one_message(message: MessageView)
    ensures
        input_items(seq![message]) == message_items(message),
{
    let one = seq![message];
    assert(one.drop_last() =~= Seq::empty());
    assert(input_items(Seq::<MessageView>::empty()) =~= Seq::empty());
    assert(input_items(one) =~= message_items(message));
}

proof fn lemma_one_block(block: ContentBlockView)
    ensures
        from_user(seq![block]) == user_block_items(block),
{
    lemma_one_message(MessageView::User { content: seq![block] });
    let one = seq![block];
    assert(one.drop_last() =~= Seq::empty());
    assert(user_items(Seq::<ContentBlockView>::empty()) =~= Seq::empty());
    assert(user_items(one) =~= user_block_items(block));
}

/// An object of up to five entries, entry by entry.
proof fn lemma_objects(
    k1: Seq<char>,
    v1: JsonView,
    k2: Seq<char>,
    v2: JsonView,
    k3: Seq<char>,
    v3: JsonView,
    k4: Seq<char>,
    v4: JsonView,
    k5: Seq<char>,
    v5: JsonView,
)
    ensures
        object(seq![(k1, v1)]) == JsonView::Object(map![k1 => v1]),
        object(seq![(k1, v1), (k2, v2)]) == JsonView::Object(map![k1 => v1, k2 => v2]),
        object(seq![(k1, v1), (k2, v2), (k3, v3)]) == JsonView::Object(
            map![k1 => v1, k2 => v2, k3 => v3],
        ),
        object(seq![(k1, v1), (k2, v2), (k3, v3), (k4, v4)]) == JsonView::Object(
            map![k1 => v1, k2 => v2, k3 => v3, k4 => v4],
        ),
        object(seq![(k1, v1), (k2, v2), (k3, v3), (k4, v4), (k5, v5)]) == JsonView::Object(
            map![k1 => v1, k2 => v2, k3 => v3, k4 => v4, k5 => v5],
        ),
{
    let e0 = Seq::<(Seq<char>, JsonView)>::empty();
    assert(entries_map(e0) =~= Map::empty());
    lemma_entries_push(e0, k1, v1);
    let e1 = seq![(k1, v1)];
    assert(e0.push((k1, v1)) =~= e1);
    lemma_entries_push(e1, k2, v2);
    let e2 = seq![(k1, v1), (k2, v2)];
    assert(e1.push((k2, v2)) =~= e2);
    lemma_entries_push(e2, k3, v3);
    let e3 = seq![(k1, v1), (k2, v2), (k3, v3)];
    assert(e2.push((k3, v3)) =~= e3);
    lemma_entries_push(e3, k4, v4);
    let e4 = seq![(k1, v1), (k2, v2), (k3, v3), (k4, v4)];
    assert(e3.push((k4, v4)) =~= e4);
    lemma_entries_push(e4, k5, v5);
    let e5 = seq![(k1, v1), (k2, v2), (k3, v3), (k4, v4), (k5, v5)];
    assert(e4.push((k5, v5)) =~= e5);
}

/// The blocks of a user message are sent one after the other, and a message without
/// blocks is not sent.
pub proof fn law_user_blocks(a: Seq<ContentBlockView>, b: Seq<ContentBlockView>)
    ensures
        from_user(a + b) == from_user(a) + from_user(b),
        from_user(Seq::empty()).len() == 0,
{
    lemma_one_message(MessageView::User { content: a + b });
    lemma_one_message(MessageView::User { content: a });
    lemma_one_message(MessageView::User { content: b });
    lemma_one_message(MessageView::User { content: Seq::empty() });
    lemma_user_items_concat(a, b);
}

/// A text of the user is sent as a message with exactly this text, also an empty one.
pub proof fn law_user_text(text: Seq<char>)
    ensures
        from_user(seq![ContentBlockView::Text { text }]) == seq![
            JsonView::Object(
                map![
                    "type"@ => JsonView::Text("message"@),
                    "role"@ => JsonView::Text("user"@),
                    "content"@ => JsonView::Text(text),
                ],
            ),
        ],
{
    lemma_one_block(ContentBlockView::Text { text });
    lemma_three(
        "type"@,
        JsonView::Text("message"@),
        "role"@,
        JsonView::Text("user"@),
        "content"@,
        JsonView::Text(text),
    );
}

proof fn lemma_three(
    k1: Seq<char>,
    v1: JsonView,
    k2: Seq<char>,
    v2: JsonView,
    k3: Seq<char>,
    v3: JsonView,
)
    ensures
        object(seq![(k1, v1), (k2, v2), (k3, v3)]) == JsonView::Object(
            map![k1 => v1, k2 => v2, k3 => v3],
        ),
{
    lemma_objects(k1, v1, k2, v2, k3, v3, k3, v3, k3, v3);
}

/// An image is sent as a message whose only part has the address of the image: inline
/// data as a data address, a link as it is.
pub proof fn law_user_image(source: ImageSourceView, url: Seq<char>)
    requires
        match source {
            ImageSourceView::Base64 { media_type, data } => url == "data:"@ + media_type
                + ";base64,"@ + data,
            ImageSourceView::Url { url: link } => url == link,
        },
    ensures
        image_part(source) == JsonView::Object(
            map![
                "type"@ => JsonView::Text("image_url"@),
                "image_url"@ => JsonView::Object(map!["url"@ => JsonView::Text(url)]),
            ],
        ),
        from_user(seq![ContentBlockView::Image { source }]) == seq![
            JsonView::Object(
                map![
                    "type"@ => JsonView::Text("message"@),
                    "role"@ => JsonView::Text("user"@),
                    "content"@ => JsonView::Array(seq![image_part(source)]),
                ],
            ),
        ],
{
    lemma_one_block(ContentBlockView::Image { source });
    let content = JsonView::Array(seq![image_part(source)]);
    lemma_three(
        "type"@,
        JsonView::Text("message"@),
        "role"@,
        JsonView::Text("user"@),
        "content"@,
        content,
    );
    let text = JsonView::Text(url);
    lemma_objects("url"@, text, "url"@, text, "url"@, text, "url"@, text, "url"@, text);
    let kind = JsonView::Text("image_url"@);
    let inner = object(seq![("url"@, text)]);
    lemma_objects(
        "type"@,
        kind,
        "image_url"@,
        inner,
        "url"@,
        text,
        "url"@,
        text,
        "url"@,
        text,
    );
}

/// The result of a tool is sent under the id of its call, as the text of its content.
pub proof fn law_user_result(tool_use_id: Seq<char>, content: JsonView)
    ensures
        from_user(seq![ContentBlockView::ToolResult { tool_use_id, content }]) == seq![
            JsonView::Object(
                map![
                    "type"@ => JsonView::Text("function_call_output"@),
                    "call_id"@ => JsonView::Text(tool_use_id),
                    "output"@ => JsonView::Text(tool_result_text(content)),
                ],
            ),
        ],
{
    lemma_one_block(ContentBlockView::ToolResult { tool_use_id, content });
    lemma_three(
        "type"@,
        JsonView::Text("function_call_output"@),
        "call_id"@,
        JsonView::Text(tool_use_id),
        "output"@,
        JsonView::Text(tool_result_text(content)),
    );
}

/// A tool call in a user message is not sent, and a compaction block is sent as it is.
pub proof fn law_user_other(id: Seq<char>, name: Seq<char>, input: JsonView, content: JsonView)
    ensures
        from_user(seq![ContentBlockView::ToolUse { id, name, input }]).len() == 0,
        from_user(seq![ContentBlockView::Compaction { content }]) == seq![content],
{
    lemma_one_block(ContentBlockView::ToolUse { id, name, input });
    lemma_one_block(ContentBlockView::Compaction { content });
}

/// The result of a tool that is a string is sent as this string, character by character,
/// whatever it says; one that is neither a string nor an array is sent as its JSON text.
pub proof fn law_plain_result(tool_use_id: Seq<char>, content: JsonView, s: Seq<char>)
    ensures
        content == JsonView::Text(s) ==> tool_result_text(content) == s,
        content !is Text && content !is Array ==> tool_result_text(content) == json_text(content),
        content == JsonView::Text(s) ==> ({
            let sent = from_user(seq![ContentBlockView::ToolResult { tool_use_id, content }]);
            &&& sent.len() == 1
            &&& sent[0].get("output"@) == Some(JsonView::Text(s))
            &&& sent[0].get("call_id"@) == Some(JsonView::Text(tool_use_id))
        }),
{
    law_user_result(tool_use_id, content);
    lemma_item_literals();
}

/// A block of a tool's result that is a text block with this text.
pub open spec fn is_text_block(block: JsonView, text: Seq<char>) -> bool {
    &&& block.get("type"@) == Some(JsonView::Text("text"@))
    &&& block.get("text"@) == Some(JsonView::Text(text))
}

/// None of the blocks is a text block.
pub open spec fn no_text_blocks(blocks: Seq<JsonView>) -> bool {
    forall|i: int, text: Seq<char>|
        0 <= i < blocks.len() ==> !#[trigger] is_text_block(blocks[i], text)
}

proof fn lemma_block_texts_concat(a: Seq<JsonView>, b: Seq<JsonView>)
    ensures
        block_texts(a + b) == block_texts(a) + block_texts(b),
    decreases b.len(),
{
    if b.len() == 0 {
        assert(a + b =~= a);
        assert(block_texts(a) + block_texts(b) =~= block_texts(a));
    } else {
        assert((a + b).drop_last() =~= a + b.drop_last());
        assert((a + b).last() == b.last());
        lemma_block_texts_concat(a, b.drop_last());
        assert(block_texts(a + b) =~= block_texts(a) + block_texts(b));
    }
}

proof fn lemma_block_texts_none(blocks: Seq<JsonView>)
    ensures
        no_text_blocks(blocks) <==> block_texts(blocks).len() == 0,
    decreases blocks.len(),
{
    if blocks.len() > 0 {
        let front = blocks.drop_last();
        let last = blocks.len() - 1;
        lemma_block_texts_none(front);
        if no_text_blocks(blocks) {
            assert forall|i: int, text: Seq<char>| 0 <= i < front.len() implies !(
            #[trigger] is_text_block(front[i], text)) by {
                assert(!is_text_block(blocks[i], text));
            }
            if block_texts(blocks).len() > 0 {
                assert(!is_text_block(blocks[last], blocks[last].at("text"@).text()->0));
            }
        }
        if block_texts(blocks).len() == 0 {
            assert forall|i: int, text: Seq<char>| 0 <= i < blocks.len() implies !(
            #[trigger] is_text_block(blocks[i], text)) by {
                if i < last {
                    assert(!is_text_block(front[i], text));
                }
            }
        }
    }
}

/// The result of a tool that is an array is sent as the texts of its text blocks in order,
/// each on a line of its own, and nothing else of it is sent.
pub proof fn law_array_result(a: Seq<JsonView>, b: Seq<JsonView>, block: JsonView, text: Seq<char>)
    ensures
        ({
            let first = tool_result_text(JsonView::Array(a));
            let second = tool_result_text(JsonView::Array(b));
            let both = tool_result_text(JsonView::Array(a + b));
            &&& no_text_blocks(a) ==> first.len() == 0 && both == second
            &&& no_text_blocks(b) ==> both == first
            &&& !no_text_blocks(a) && !no_text_blocks(b) ==> both == first + "\n"@ + second
        }),
        is_text_block(block, text) ==> tool_result_text(JsonView::Array(seq![block])) == text,
{
    lemma_block_texts_concat(a, b);
    lemma_block_texts_none(a);
    lemma_block_texts_none(b);
    law_joined(block_texts(a), block_texts(b), text, "\n"@);
    if no_text_blocks(a) {
        assert(block_texts(a) =~= Seq::empty());
        assert(block_texts(a) + block_texts(b) =~= block_texts(b));
    }
    if no_text_blocks(b) {
        assert(block_texts(a) + block_texts(b) =~= block_texts(a));
    }
    if is_text_block(block, text) {
        assert(seq![block].drop_last() =~= Seq::empty());
        assert(block_texts(Seq::<JsonView>::empty()) =~= Seq::empty());
        assert(block_texts(seq![block]) =~= seq![text]);
    }
}

proof fn lemma_from_assistant(blocks: Seq<ContentBlockView>)
    ensures
        from_assistant(blocks) == assistant_items(blocks),
{
    lemma_one_message(MessageView::Assistant { content: blocks });
}

/// A text of the assistant is sent as a message with exactly this text; an empty one, or
/// no block at all, is not sent.
pub proof fn law_assistant_text(text: Seq<char>)
    ensures
        from_assistant(Seq::empty()).len() == 0,
        text.len() == 0 ==> from_assistant(seq![ContentBlockView::Text { text }]).len() == 0,
        text.len() > 0 ==> from_assistant(seq![ContentBlockView::Text { text }]) == seq![
            JsonView::Object(
                map![
                    "type"@ => JsonView::Text("message"@),
                    "role"@ => JsonView::Text("assistant"@),
                    "content"@ => JsonView::Text(text),
                ],
            ),
        ],
{
    let one = seq![ContentBlockView::Text { text }];
    lemma_from_assistant(Seq::empty());
    lemma_from_assistant(one);
    assert(one.drop_last() =~= Seq::empty());
    assert(assistant_split(Seq::<ContentBlockView>::empty()).0 =~= Seq::empty());
    assert(Seq::<char>::empty() + text =~= text);
    assert(assistant_items(one) =~= written(text));
    lemma_three(
        "type"@,
        JsonView::Text("message"@),
        "role"@,
        JsonView::Text("assistant"@),
        "content"@,
        JsonView::Text(text),
    );
}

proof fn lemma_merged_split(
    before: Seq<ContentBlockView>,
    first: Seq<char>,
    second: Seq<char>,
    after: Seq<ContentBlockView>,
)
    ensures
        assistant_split(
            before.push(ContentBlockView::Text { text: first }).push(
                ContentBlockView::Text { text: second },
            ) + after,
        ) == assistant_split(before.push(ContentBlockView::Text { text: first + second }) + after),
    decreases after.len(),
{
    let one = before.push(ContentBlockView::Text { text: first });
    let two = one.push(ContentBlockView::Text { text: second });
    let joint = before.push(ContentBlockView::Text { text: first + second });
    if after.len() == 0 {
        assert(two + after =~= two);
        assert(joint + after =~= joint);
        assert(two.drop_last() =~= one);
        assert(one.drop_last() =~= before);
        assert(joint.drop_last() =~= before);
        let (items, text) = assistant_split(before);
        assert(assistant_split(one) == (items, text + first));
        assert(assistant_split(two) == (items, (text + first) + second));
        assert((text + first) + second =~= text + (first + second));
    } else {
        lemma_merged_split(before, first, second, after.drop_last());
        assert((two + after).drop_last() =~= two + after.drop_last());
        assert((joint + after).drop_last() =~= joint + after.drop_last());
        assert((two + after).last() == after.last());
        assert((joint + after).last() == after.last());
    }
}

/// Texts of the assistant that follow each other are sent as one text.
pub proof fn law_assistant_texts_merge(
    before: Seq<ContentBlockView>,
    first: Seq<char>,
    second: Seq<char>,
    after: Seq<ContentBlockView>,
)
    ensures
        from_assistant(
            before.push(ContentBlockView::Text { text: first }).push(
                ContentBlockView::Text { text: second },
            ) + after,
        ) == from_assistant(before.push(ContentBlockView::Text { text: first + second }) + after),
{
    lemma_merged_split(before, first, second, after);
    lemma_from_assistant(
        before.push(ContentBlockView::Text { text: first }).push(
            ContentBlockView::Text { text: second },
        ) + after,
    );
    lemma_from_assistant(before.push(ContentBlockView::Text { text: first + second }) + after);
}

proof fn lemma_call_split(
    before: Seq<ContentBlockView>,
    id: Seq<char>,
    name: Seq<char>,
    input: JsonView,
    after: Seq<ContentBlockView>,
)
    ensures
        assistant_split(before.push(ContentBlockView::ToolUse { id, name, input }) + after) == (
            assistant_items(before).push(call_item(id, name, json_text(input))) + assistant_split(
                after,
            ).0,
            assistant_split(after).1,
        ),
    decreases after.len(),
{
    let block = ContentBlockView::ToolUse { id, name, input };
    let all = before.push(block) + after;
    let front = assistant_items(before).push(call_item(id, name, json_text(input)));
    if after.len() == 0 {
        assert(all.drop_last() =~= before);
        assert(all.last() == block);
        assert(assistant_split(all).0 =~= front + assistant_split(after).0);
    } else {
        lemma_call_split(before, id, name, input, after.drop_last());
        assert(all.drop_last() =~= before.push(block) + after.drop_last());
        assert(all.last() == after.last());
        assert(assistant_split(all).0 =~= front + assistant_split(after).0);
    }
}

/// A tool call is sent under its id and its name, with the JSON text of its input as the
/// arguments, after what stands before it and before what stands after it.
pub proof fn law_assistant_call(
    before: Seq<ContentBlockView>,
    id: Seq<char>,
    name: Seq<char>,
    input: JsonView,
    after: Seq<ContentBlockView>,
)
    ensures
        from_assistant(before.push(ContentBlockView::ToolUse { id, name, input }) + after)
            == from_assistant(before).push(
            JsonView::Object(
                map![
                    "type"@ => JsonView::Text("function_call"@),
                    "call_id"@ => JsonView::Text(id),
                    "name"@ => JsonView::Text(name),
                    "arguments"@ => JsonView::Text(json_text(input)),
                ],
            ),
        ) + from_assistant(after),
{
    let all = before.push(ContentBlockView::ToolUse { id, name, input }) + after;
    lemma_call_split(before, id, name, input, after);
    lemma_from_assistant(all);
    lemma_from_assistant(before);
    lemma_from_assistant(after);
    let arguments = JsonView::Text(json_text(input));
    lemma_objects(
        "type"@,
        JsonView::Text("function_call"@),
        "call_id"@,
        JsonView::Text(id),
        "name"@,
        JsonView::Text(name),
        "arguments"@,
        arguments,
        "arguments"@,
        arguments,
    );
    assert(assistant_items(all) =~= assistant_items(before).push(
        call_item(id, name, json_text(input)),
    ) + assistant_items(after));
}

/// A compaction block of an assistant message is sent as it is, at its place; an image or
/// the result of a tool is not sent, and does not part the text around it.
pub proof fn law_assistant_other(
    before: Seq<ContentBlockView>,
    content: JsonView,
    source: ImageSourceView,
    tool_use_id: Seq<char>,
    after: Seq<ContentBlockView>,
)
    ensures
        from_assistant(before.push(ContentBlockView::Compaction { content }) + after)
            == from_assistant(before).push(content) + from_assistant(after),
        from_assistant(before.push(ContentBlockView::Image { source }) + after) == from_assistant(
            before + after,
        ),
        from_assistant(
            before.push(ContentBlockView::ToolResult { tool_use_id, content }) + after,
        ) == from_assistant(before + after),
{
    let compaction = ContentBlockView::Compaction { content };
    let image = ContentBlockView::Image { source };
    let result = ContentBlockView::ToolResult { tool_use_id, content };
    law_compaction_from_assistant(before, content, after);
    law_silent_from_assistant(before, image, after);
    law_silent_from_assistant(before, result, after);
    lemma_from_assistant(before.push(compaction) + after);
    lemma_from_assistant(before.push(image) + after);
    lemma_from_assistant(before.push(result) + after);
    lemma_from_assistant(before + after);
    lemma_from_assistant(before);
    lemma_from_assistant(after);
}

/// The messages of a conversation are sent one after the other, and a conversation without
/// messages has nothing to send.
pub proof fn law_messages(a: Seq<MessageView>, b: Seq<MessageView>)
    ensures
        input_items(a + b) == input_items(a) + input_items(b),
        input_items(Seq::empty()).len() == 0,
{
    law_input_items_concat(a, b);
}

/// The keys of a tool are different texts.
proof fn lemma_tool_keys()
    ensures
        ({
            let keys = seq!["type"@, "name"@, "description"@, "parameters"@, "strict"@];
            forall|i: int, j: int| 0 <= i < j < keys.len() ==> keys[i] != keys[j]
        }),
{
    reveal_strlit("type");
    reveal_strlit("name");
    reveal_strlit("description");
    reveal_strlit("parameters");
    reveal_strlit("strict");
    assert("type"@.len() == 4 && "type"@[0] == 't');
    assert("name"@.len() == 4 && "name"@[0] == 'n');
    assert("description"@.len() == 11);
    assert("parameters"@.len() == 10);
    assert("strict"@.len() == 6);
}

/// Each tool is offered at its position, under its own name, with its own description and
/// the schema of its parameters as it is, as a function that is not held to the schema
/// strictly; nothing else is said of it.
pub proof fn law_tool(defs: Seq<ToolDefinitionView>, stream: bool, i: int)
    requires
        0 <= i < defs.len(),
    ensures
        ({
            let item = tool_items(defs, stream)[i];
            &&& item.get("type"@) == Some(JsonView::Text("function"@))
            &&& item.get("name"@) == Some(JsonView::Text(defs[i].name))
            &&& item.get("description"@) == Some(JsonView::Text(defs[i].description))
            &&& item.get("parameters"@) == Some(defs[i].parameters)
            &&& item.get("strict"@) == Some(JsonView::Bool(false))
            &&& forall|key: Seq<char>| #[trigger]
                item.get(key) is Some ==> key == "type"@ || key == "name"@ || key
                    == "description"@ || key == "parameters"@ || key == "strict"@
        }),
{
    let def = defs[i];
    let item = tool_items(defs, stream)[i];
    assert(item == tool_item(def));
    lemma_objects(
        "type"@,
        JsonView::Text("function"@),
        "name"@,
        JsonView::Text(def.name),
        "description"@,
        JsonView::Text(def.description),
        "parameters"@,
        def.parameters,
        "strict"@,
        JsonView::Bool(false),
    );
    lemma_tool_keys();
    let keys = seq!["type"@, "name"@, "description"@, "parameters"@, "strict"@];
    assert(keys[0] == "type"@ && keys[1] == "name"@ && keys[2] == "description"@ && keys[3]
        == "parameters"@ && keys[4] == "strict"@);
}

/// A request has one tool for each definition; a streamed one may also search the web,
/// which it says after the others.
pub proof fn law_tool_count(defs: Seq<ToolDefinitionView>)
    ensures
        tool_items(defs, false).len() == defs.len(),
        tool_items(defs, true).len() == defs.len() + 1,
        tool_items(defs, true).last() == JsonView::Object(
            map!["type"@ => JsonView::Text("web_search"@)],
        ),
{
    let kind = JsonView::Text("web_search"@);
    lemma_objects("type"@, kind, "type"@, kind, "type"@, kind, "type"@, kind, "type"@, kind);
}

} // verus!

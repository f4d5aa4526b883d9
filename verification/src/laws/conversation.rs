//! What the items of a conversation keep of it.

use vstd::prelude::*;
use vstd::string::*;

use crate::json::{
    json_parsed, json_text, lemma_entries_last, JsonView,
};
use crate::messages::{
    assistant_items, assistant_split, block_calls, call_item, carries_call, conversation_calls,
    image_part, input_items, message_blocks, message_item, message_items, no_carried_calls,
    output_item, tool_result_text, user_block_items, user_items, written,
};
use crate::response::{called, input_or_empty, is_call, output_calls, text_or};
use crate::types::{ContentBlockView, MessageView, ToolUseView};

verus! {

/// A tool call as it reads after it was sent: its input is what its text reads as.
pub open spec fn sent(call: ToolUseView) -> ToolUseView {
    ToolUseView { input: input_or_empty(json_parsed(json_text(call.input))), ..call }
}

/// The keys and the kinds of items are different texts.
pub proof fn lemma_item_literals()
    ensures
        "type"@ != "role"@,
        "type"@ != "content"@,
        "type"@ != "call_id"@,
        "type"@ != "name"@,
        "type"@ != "arguments"@,
        "type"@ != "output"@,
        "role"@ != "content"@,
        "call_id"@ != "name"@,
        "call_id"@ != "arguments"@,
        "call_id"@ != "output"@,
        "name"@ != "arguments"@,
        "message"@ != "function_call"@,
        "message"@ != "function_call_output"@,
        "function_call"@ != "function_call_output"@,
        "user"@ != "assistant"@,
{
    reveal_strlit("type");
    reveal_strlit("role");
    reveal_strlit("content");
    reveal_strlit("call_id");
    reveal_strlit("name");
    reveal_strlit("arguments");
    reveal_strlit("output");
    reveal_strlit("message");
    reveal_strlit("function_call");
    reveal_strlit("function_call_output");
    reveal_strlit("user");
    reveal_strlit("assistant");
    assert("type"@[0] != "role"@[0]);
    assert("type"@[0] != "name"@[0]);
    assert("content"@.len() == 7);
    assert("call_id"@.len() == 7);
    assert("arguments"@.len() == 9);
    assert("output"@.len() == 6);
    assert("message"@.len() == 7);
    assert("function_call"@.len() == 13);
    assert("function_call_output"@.len() == 20);
    assert("user"@.len() == 4);
    assert("assistant"@.len() == 9);
}

/// What an item that carries a tool call has at its keys.
pub proof fn lemma_call_item(call_id: Seq<char>, name: Seq<char>, arguments: Seq<char>)
    ensures
        is_call(call_item(call_id, name, arguments)),
        called(call_item(call_id, name, arguments)) == (ToolUseView {
            id: call_id,
            name,
            input: input_or_empty(json_parsed(arguments)),
        }),
{
    lemma_item_literals();
    let entries = seq![
        ("type"@, JsonView::Text("function_call"@)),
        ("call_id"@, JsonView::Text(call_id)),
        ("name"@, JsonView::Text(name)),
        ("arguments"@, JsonView::Text(arguments)),
    ];
    lemma_entries_last(entries, 0);
    lemma_entries_last(entries, 1);
    lemma_entries_last(entries, 2);
    lemma_entries_last(entries, 3);
}

/// What a message item has at its keys.
pub proof fn lemma_message_item(role: Seq<char>, content: JsonView)
    ensures
        message_item(role, content).at("type"@).text() == Some("message"@),
        message_item(role, content).at("role"@).text() == Some(role),
        message_item(role, content).at("content"@) == content,
{
    lemma_item_literals();
    let entries = seq![
        ("type"@, JsonView::Text("message"@)),
        ("role"@, JsonView::Text(role)),
        ("content"@, content),
    ];
    lemma_entries_last(entries, 0);
    lemma_entries_last(entries, 1);
    lemma_entries_last(entries, 2);
}

/// What an item that carries the result of a tool call has at its keys.
pub proof fn lemma_output_item(call_id: Seq<char>, output: Seq<char>)
    ensures
        output_item(call_id, output).at("type"@).text() == Some("function_call_output"@),
        output_item(call_id, output).at("call_id"@).text() == Some(call_id),
        output_item(call_id, output).at("output"@).text() == Some(output),
{
    lemma_item_literals();
    let entries = seq![
        ("type"@, JsonView::Text("function_call_output"@)),
        ("call_id"@, JsonView::Text(call_id)),
        ("output"@, JsonView::Text(output)),
    ];
    lemma_entries_last(entries, 0);
    lemma_entries_last(entries, 1);
    lemma_entries_last(entries, 2);
}

/// The calls of items in two parts.
pub proof fn lemma_output_calls_concat(a: Seq<JsonView>, b: Seq<JsonView>)
    ensures
        output_calls(a + b) == output_calls(a) + output_calls(b),
    decreases b.len(),
{
    if b.len() == 0 {
        assert(a + b =~= a);
        assert(output_calls(a) + output_calls(b) =~= output_calls(a));
    } else {
        assert((a + b).drop_last() =~= a + b.drop_last());
        assert((a + b).last() == b.last());
        lemma_output_calls_concat(a, b.drop_last());
        assert(output_calls(a + b) =~= output_calls(a) + output_calls(b));
    }
}

/// The calls of one item.
pub proof fn lemma_output_calls_one(item: JsonView)
    ensures
        output_calls(seq![item]) == (if is_call(item) {
            seq![called(item)]
        } else {
            Seq::empty()
        }),
{
    assert(seq![item].drop_last() =~= Seq::<JsonView>::empty());
    assert(output_calls(Seq::<JsonView>::empty()) =~= Seq::<ToolUseView>::empty());
    assert(seq![item].last() == item);
    assert(output_calls(seq![item]) =~= if is_call(item) {
        seq![called(item)]
    } else {
        Seq::empty()
    });
}

/// A user message carries no tool calls.
proof fn lemma_user_calls(blocks: Seq<ContentBlockView>)
    requires
        forall|i: int| 0 <= i < blocks.len() ==> !carries_call(#[trigger] blocks[i]),
    ensures
        output_calls(user_items(blocks)) == Seq::<ToolUseView>::empty(),
    decreases blocks.len(),
{
    if blocks.len() > 0 {
        assert(!carries_call(blocks[blocks.len() - 1]));
        assert forall|i: int| 0 <= i < blocks.drop_last().len() implies !carries_call(
            #[trigger] blocks.drop_last()[i],
        ) by {
            assert(!carries_call(blocks[i]));
        }
        lemma_user_calls(blocks.drop_last());
        lemma_output_calls_concat(user_items(blocks.drop_last()), user_block_items(blocks.last()));
        lemma_item_literals();
        match blocks.last() {
            ContentBlockView::ToolResult { tool_use_id, content } => {
                lemma_output_item(tool_use_id, tool_result_text(content));
                lemma_output_calls_one(output_item(tool_use_id, tool_result_text(content)));
            },
            ContentBlockView::Text { text } => {
                lemma_message_item("user"@, JsonView::Text(text));
                lemma_output_calls_one(message_item("user"@, JsonView::Text(text)));
            },
            ContentBlockView::Image { source } => {
                let parts = JsonView::Array(seq![image_part(source)]);
                lemma_message_item("user"@, parts);
                lemma_output_calls_one(message_item("user"@, parts));
            },
            ContentBlockView::Compaction { content } => {
                lemma_output_calls_one(content);
            },
            _ => {},
        }
        assert(output_calls(user_items(blocks)) =~= Seq::<ToolUseView>::empty());
    }
}

/// What an assistant wrote carries no tool calls.
proof fn lemma_written_calls(text: Seq<char>)
    ensures
        output_calls(written(text)) == Seq::<ToolUseView>::empty(),
{
    if text.len() > 0 {
        lemma_item_literals();
        lemma_message_item("assistant"@, JsonView::Text(text));
        lemma_output_calls_one(message_item("assistant"@, JsonView::Text(text)));
    }
}

/// An assistant message carries its tool calls.
proof fn lemma_assistant_calls(blocks: Seq<ContentBlockView>)
    requires
        forall|i: int| 0 <= i < blocks.len() ==> !carries_call(#[trigger] blocks[i]),
    ensures
        output_calls(assistant_split(blocks).0) == block_calls(blocks).map_values(
            |c: ToolUseView| sent(c),
        ),
    decreases blocks.len(),
{
    let sent_calls = |calls: Seq<ToolUseView>| calls.map_values(|c: ToolUseView| sent(c));
    if blocks.len() == 0 {
        assert(output_calls(assistant_split(blocks).0) =~= sent_calls(block_calls(blocks)));
    } else {
        assert(!carries_call(blocks[blocks.len() - 1]));
        assert forall|i: int| 0 <= i < blocks.drop_last().len() implies !carries_call(
            #[trigger] blocks.drop_last()[i],
        ) by {
            assert(!carries_call(blocks[i]));
        }
        lemma_assistant_calls(blocks.drop_last());
        let (items, text) = assistant_split(blocks.drop_last());
        if let ContentBlockView::ToolUse { id, name, input } = blocks.last() {
            let item = call_item(id, name, json_text(input));
            lemma_written_calls(text);
            lemma_call_item(id, name, json_text(input));
            lemma_output_calls_one(item);
            lemma_output_calls_concat(items, written(text));
            lemma_output_calls_concat(items + written(text), seq![item]);
            assert(called(item) == sent(ToolUseView { id, name, input }));
        }
        if let ContentBlockView::Compaction { content } = blocks.last() {
            lemma_written_calls(text);
            lemma_output_calls_one(content);
            lemma_output_calls_concat(items, written(text));
            lemma_output_calls_concat(items + written(text), seq![content]);
        }
        assert(output_calls(assistant_split(blocks).0) =~= sent_calls(block_calls(blocks)));
    }
}

/// The input items of a conversation carry its tool calls, each as it reads after it was
/// sent, in the order in which they were made, unless a compaction block that is passed
/// on reads as a call too.
pub proof fn law_calls_sent(messages: Seq<MessageView>)
    requires
        no_carried_calls(messages),
    ensures
        output_calls(input_items(messages)) == conversation_calls(messages).map_values(
            |c: ToolUseView| sent(c),
        ),
    decreases messages.len(),
{
    if messages.len() == 0 {
        assert(output_calls(input_items(messages)) =~= conversation_calls(messages).map_values(
            |c: ToolUseView| sent(c),
        ));
    } else {
        let blocks = message_blocks(messages.last());
        assert forall|i: int| 0 <= i < blocks.len() implies !carries_call(
            #[trigger] blocks[i],
        ) by {
            assert(!carries_call(message_blocks(messages[messages.len() - 1])[i]));
        }
        assert forall|m: int, i: int|
            0 <= m < messages.drop_last().len() && 0 <= i < message_blocks(
                messages.drop_last()[m],
            ).len() implies !carries_call(
            #[trigger] message_blocks(messages.drop_last()[m])[i],
        ) by {
            assert(!carries_call(message_blocks(messages[m])[i]));
        }
        law_calls_sent(messages.drop_last());
        lemma_output_calls_concat(
            input_items(messages.drop_last()),
            message_items(messages.last()),
        );
        match messages.last() {
            MessageView::User { content } => {
                lemma_user_calls(content);
            },
            MessageView::Assistant { content } => {
                lemma_assistant_calls(content);
                lemma_written_calls(assistant_split(content).1);
                lemma_output_calls_concat(
                    assistant_split(content).0,
                    written(assistant_split(content).1),
                );
            },
        }
        assert(output_calls(input_items(messages)) =~= conversation_calls(messages).map_values(
            |c: ToolUseView| sent(c),
        ));
    }
}

/// The input items of a conversation in two parts are those of its parts.
pub proof fn law_input_items_concat(a: Seq<MessageView>, b: Seq<MessageView>)
    ensures
        input_items(a + b) == input_items(a) + input_items(b),
    decreases b.len(),
{
    if b.len() == 0 {
        assert(a + b =~= a);
        assert(input_items(a) + input_items(b) =~= input_items(a));
    } else {
        assert((a + b).drop_last() =~= a + b.drop_last());
        law_input_items_concat(a, b.drop_last());
        assert(input_items(a + b) =~= input_items(a) + input_items(b));
    }
}

/// The block leaves no item in a user message.
pub open spec fn silent_from_user(block: ContentBlockView) -> bool {
    block is ToolUse
}

/// The block leaves no item in an assistant message.
pub open spec fn silent_from_assistant(block: ContentBlockView) -> bool {
    block is Image || block is ToolResult
}

/// In a user message, a tool call makes no difference.
pub proof fn law_silent_from_user(
    before: Seq<ContentBlockView>,
    block: ContentBlockView,
    after: Seq<ContentBlockView>,
)
    requires
        silent_from_user(block),
    ensures
        user_items(before.push(block) + after) == user_items(before + after),
    decreases after.len(),
{
    let long = before.push(block) + after;
    let short = before + after;
    if after.len() == 0 {
        assert(long.drop_last() =~= before);
        assert(short =~= before);
        assert(long.last() == block);
        assert(user_items(long) =~= user_items(short));
    } else {
        law_silent_from_user(before, block, after.drop_last());
        assert(long.drop_last() =~= before.push(block) + after.drop_last());
        assert(short.drop_last() =~= before + after.drop_last());
    }
}

/// In an assistant message, an image or a tool result makes no difference: the text around
/// it stays in one piece.
pub proof fn law_silent_from_assistant(
    before: Seq<ContentBlockView>,
    block: ContentBlockView,
    after: Seq<ContentBlockView>,
)
    requires
        silent_from_assistant(block),
    ensures
        assistant_items(before.push(block) + after) == assistant_items(before + after),
{
    lemma_silent_split(before, block, after);
}

proof fn lemma_silent_split(
    before: Seq<ContentBlockView>,
    block: ContentBlockView,
    after: Seq<ContentBlockView>,
)
    requires
        silent_from_assistant(block),
    ensures
        assistant_split(before.push(block) + after) == assistant_split(before + after),
    decreases after.len(),
{
    let long = before.push(block) + after;
    let short = before + after;
    if after.len() == 0 {
        assert(long.drop_last() =~= before);
        assert(short =~= before);
        assert(long.last() == block);
    } else {
        lemma_silent_split(before, block, after.drop_last());
        assert(long.drop_last() =~= before.push(block) + after.drop_last());
        assert(short.drop_last() =~= before + after.drop_last());
    }
}

pub proof fn lemma_user_items_concat(a: Seq<ContentBlockView>, b: Seq<ContentBlockView>)
    ensures
        user_items(a + b) == user_items(a) + user_items(b),
    decreases b.len(),
{
    if b.len() == 0 {
        assert(a + b =~= a);
        assert(user_items(a) + user_items(b) =~= user_items(a));
    } else {
        assert((a + b).drop_last() =~= a + b.drop_last());
        assert((a + b).last() == b.last());
        lemma_user_items_concat(a, b.drop_last());
        assert(user_items(a + b) =~= user_items(a) + user_items(b));
    }
}

/// A compaction block of a user message is passed on as it is, at its place among the
/// items.
pub proof fn law_compaction_from_user(
    before: Seq<ContentBlockView>,
    content: JsonView,
    after: Seq<ContentBlockView>,
)
    ensures
        user_items(before.push(ContentBlockView::Compaction { content }) + after) == user_items(
            before,
        ).push(content) + user_items(after),
{
    let block = ContentBlockView::Compaction { content };
    lemma_user_items_concat(before.push(block), after);
    assert(before.push(block).drop_last() =~= before);
    assert(user_items(before.push(block)) =~= user_items(before).push(content));
}

proof fn lemma_compaction_split(
    before: Seq<ContentBlockView>,
    content: JsonView,
    after: Seq<ContentBlockView>,
)
    ensures
        assistant_split(before.push(ContentBlockView::Compaction { content }) + after) == (
            assistant_items(before).push(content) + assistant_split(after).0,
            assistant_split(after).1,
        ),
    decreases after.len(),
{
    let block = ContentBlockView::Compaction { content };
    let all = before.push(block) + after;
    let front = assistant_items(before).push(content);
    if after.len() == 0 {
        assert(all.drop_last() =~= before);
        assert(all.last() == block);
        assert(assistant_split(all).0 =~= front + assistant_split(after).0);
    } else {
        lemma_compaction_split(before, content, after.drop_last());
        assert(all.drop_last() =~= before.push(block) + after.drop_last());
        assert(all.last() == after.last());
        assert(assistant_split(all).0 =~= front + assistant_split(after).0);
    }
}

/// A compaction block of an assistant message is passed on as it is, at its place among
/// the items: the text before it comes before it, the text after it after it.
pub proof fn law_compaction_from_assistant(
    before: Seq<ContentBlockView>,
    content: JsonView,
    after: Seq<ContentBlockView>,
)
    ensures
        assistant_items(before.push(ContentBlockView::Compaction { content }) + after)
            == assistant_items(before).push(content) + assistant_items(after),
{
    lemma_compaction_split(before, content, after);
    assert(assistant_items(before.push(ContentBlockView::Compaction { content }) + after)
        =~= assistant_items(before).push(content) + assistant_items(after));
}

/// The item carries the result of a tool call.
pub open spec fn is_output(item: JsonView) -> bool {
    item.at("type"@).text() == Some("function_call_output"@)
}

/// The block is a compaction block whose item reads as the result of a tool call.
pub open spec fn carries_result(block: ContentBlockView) -> bool {
    block matches ContentBlockView::Compaction { content } && is_output(content)
}

/// No compaction block of a conversation reads as the result of a tool call.
pub open spec fn no_carried_results(messages: Seq<MessageView>) -> bool {
    forall|m: int, i: int|
        0 <= m < messages.len() && 0 <= i < message_blocks(messages[m]).len() ==> !carries_result(
            #[trigger] message_blocks(messages[m])[i],
        )
}

/// The ids and the texts of the tool results that items carry.
pub open spec fn item_results(items: Seq<JsonView>) -> Seq<(Seq<char>, Seq<char>)>
    decreases items.len(),
{
    if items.len() == 0 {
        Seq::empty()
    } else {
        let before = item_results(items.drop_last());
        let item = items.last();
        if is_output(item) {
            before.push(
                (
                    text_or(item.at("call_id"@).text(), Seq::empty()),
                    text_or(item.at("output"@).text(), Seq::empty()),
                ),
            )
        } else {
            before
        }
    }
}

/// The ids and the texts of the tool results among the blocks of a user message.
pub open spec fn block_results(blocks: Seq<ContentBlockView>) -> Seq<(Seq<char>, Seq<char>)>
    decreases blocks.len(),
{
    if blocks.len() == 0 {
        Seq::empty()
    } else {
        let before = block_results(blocks.drop_last());
        match blocks.last() {
            ContentBlockView::ToolResult { tool_use_id, content } => before.push(
                (tool_use_id, tool_result_text(content)),
            ),
            _ => before,
        }
    }
}

/// The ids and the texts of the tool results of a conversation: only a user gives any.
pub open spec fn conversation_results(messages: Seq<MessageView>) -> Seq<(Seq<char>, Seq<char>)>
    decreases messages.len(),
{
    if messages.len() == 0 {
        Seq::empty()
    } else {
        conversation_results(messages.drop_last()) + match messages.last() {
            MessageView::User { content } => block_results(content),
            MessageView::Assistant { content } => Seq::empty(),
        }
    }
}

proof fn lemma_item_results_concat(a: Seq<JsonView>, b: Seq<JsonView>)
    ensures
        item_results(a + b) == item_results(a) + item_results(b),
    decreases b.len(),
{
    if b.len() == 0 {
        assert(a + b =~= a);
        assert(item_results(a) + item_results(b) =~= item_results(a));
    } else {
        assert((a + b).drop_last() =~= a + b.drop_last());
        assert((a + b).last() == b.last());
        lemma_item_results_concat(a, b.drop_last());
        assert(item_results(a + b) =~= item_results(a) + item_results(b));
    }
}

proof fn lemma_item_results_one(item: JsonView)
    ensures
        !is_output(item) ==> item_results(seq![item]) == Seq::<(Seq<char>, Seq<char>)>::empty(),
        is_output(item) ==> item_results(seq![item]) == seq![
            (
                text_or(item.at("call_id"@).text(), Seq::empty()),
                text_or(item.at("output"@).text(), Seq::empty()),
            ),
        ],
{
    assert(seq![item].drop_last() =~= Seq::<JsonView>::empty());
    assert(seq![item].last() == item);
    assert(item_results(Seq::<JsonView>::empty()) =~= Seq::<(Seq<char>, Seq<char>)>::empty());
}

proof fn lemma_user_results(blocks: Seq<ContentBlockView>)
    requires
        forall|i: int| 0 <= i < blocks.len() ==> !carries_result(#[trigger] blocks[i]),
    ensures
        item_results(user_items(blocks)) == block_results(blocks),
    decreases blocks.len(),
{
    if blocks.len() > 0 {
        assert(!carries_result(blocks[blocks.len() - 1]));
        assert forall|i: int| 0 <= i < blocks.drop_last().len() implies !carries_result(
            #[trigger] blocks.drop_last()[i],
        ) by {
            assert(!carries_result(blocks[i]));
        }
        lemma_user_results(blocks.drop_last());
        lemma_item_results_concat(user_items(blocks.drop_last()), user_block_items(blocks.last()));
        lemma_item_literals();
        match blocks.last() {
            ContentBlockView::ToolResult { tool_use_id, content } => {
                lemma_output_item(tool_use_id, tool_result_text(content));
                lemma_item_results_one(output_item(tool_use_id, tool_result_text(content)));
            },
            ContentBlockView::Text { text } => {
                lemma_message_item("user"@, JsonView::Text(text));
                lemma_item_results_one(message_item("user"@, JsonView::Text(text)));
            },
            ContentBlockView::Image { source } => {
                let parts = JsonView::Array(seq![image_part(source)]);
                lemma_message_item("user"@, parts);
                lemma_item_results_one(message_item("user"@, parts));
            },
            ContentBlockView::Compaction { content } => {
                lemma_item_results_one(content);
            },
            _ => {},
        }
        assert(item_results(user_items(blocks)) =~= block_results(blocks));
    }
}

proof fn lemma_written_results(text: Seq<char>)
    ensures
        item_results(written(text)) == Seq::<(Seq<char>, Seq<char>)>::empty(),
{
    if text.len() > 0 {
        lemma_item_literals();
        lemma_message_item("assistant"@, JsonView::Text(text));
        lemma_item_results_one(message_item("assistant"@, JsonView::Text(text)));
    }
}

proof fn lemma_assistant_results(blocks: Seq<ContentBlockView>)
    requires
        forall|i: int| 0 <= i < blocks.len() ==> !carries_result(#[trigger] blocks[i]),
    ensures
        item_results(assistant_split(blocks).0) == Seq::<(Seq<char>, Seq<char>)>::empty(),
    decreases blocks.len(),
{
    if blocks.len() > 0 {
        assert(!carries_result(blocks[blocks.len() - 1]));
        assert forall|i: int| 0 <= i < blocks.drop_last().len() implies !carries_result(
            #[trigger] blocks.drop_last()[i],
        ) by {
            assert(!carries_result(blocks[i]));
        }
        lemma_assistant_results(blocks.drop_last());
        let (items, text) = assistant_split(blocks.drop_last());
        if let ContentBlockView::ToolUse { id, name, input } = blocks.last() {
            let item = call_item(id, name, json_text(input));
            lemma_item_literals();
            lemma_written_results(text);
            lemma_call_item(id, name, json_text(input));
            lemma_item_results_one(item);
            lemma_item_results_concat(items, written(text));
            lemma_item_results_concat(items + written(text), seq![item]);
            assert(item_results(assistant_split(blocks).0) =~= Seq::<
                (Seq<char>, Seq<char>),
            >::empty());
        }
        if let ContentBlockView::Compaction { content } = blocks.last() {
            lemma_written_results(text);
            lemma_item_results_one(content);
            lemma_item_results_concat(items, written(text));
            lemma_item_results_concat(items + written(text), seq![content]);
            assert(item_results(assistant_split(blocks).0) =~= Seq::<
                (Seq<char>, Seq<char>),
            >::empty());
        }
    }
}

/// The input items of a conversation carry the result of each tool call that a user
/// message gives, under the call's id and in order, and no other results, unless a
/// compaction block that is passed on reads as one.
pub proof fn law_results_sent(messages: Seq<MessageView>)
    requires
        no_carried_results(messages),
    ensures
        item_results(input_items(messages)) == conversation_results(messages),
    decreases messages.len(),
{
    if messages.len() > 0 {
        let blocks = message_blocks(messages.last());
        assert forall|i: int| 0 <= i < blocks.len() implies !carries_result(
            #[trigger] blocks[i],
        ) by {
            assert(!carries_result(message_blocks(messages[messages.len() - 1])[i]));
        }
        assert forall|m: int, i: int|
            0 <= m < messages.drop_last().len() && 0 <= i < message_blocks(
                messages.drop_last()[m],
            ).len() implies !carries_result(
            #[trigger] message_blocks(messages.drop_last()[m])[i],
        ) by {
            assert(!carries_result(message_blocks(messages[m])[i]));
        }
        law_results_sent(messages.drop_last());
        lemma_item_results_concat(
            input_items(messages.drop_last()),
            message_items(messages.last()),
        );
        match messages.last() {
            MessageView::User { content } => {
                lemma_user_results(content);
            },
            MessageView::Assistant { content } => {
                let (items, text) = assistant_split(content);
                lemma_assistant_results(content);
                lemma_written_results(text);
                lemma_item_results_concat(items, written(text));
            },
        }
        assert(item_results(input_items(messages)) =~= conversation_results(messages));
    }
}

/// The item is a message of an assistant.
pub open spec fn is_written(item: JsonView) -> bool {
    &&& item.at("type"@).text() == Some("message"@)
    &&& item.at("role"@).text() == Some("assistant"@)
}

/// What an item says as a message of an assistant: nothing where it is none.
pub open spec fn item_says(item: JsonView) -> Seq<char> {
    if is_written(item) {
        text_or(item.at("content"@).text(), Seq::empty())
    } else {
        Seq::empty()
    }
}

/// What the assistant's messages among items say, end to end.
pub open spec fn said(items: Seq<JsonView>) -> Seq<char>
    decreases items.len(),
{
    if items.len() == 0 {
        Seq::empty()
    } else {
        said(items.drop_last()) + item_says(items.last())
    }
}

/// The block is a compaction block whose item says something as a message of an assistant.
pub open spec fn carries_text(block: ContentBlockView) -> bool {
    block matches ContentBlockView::Compaction { content } && item_says(content).len() > 0
}

/// The text blocks of an assistant message, end to end.
pub open spec fn block_text(blocks: Seq<ContentBlockView>) -> Seq<char>
    decreases blocks.len(),
{
    if blocks.len() == 0 {
        Seq::empty()
    } else {
        match blocks.last() {
            ContentBlockView::Text { text } => block_text(blocks.drop_last()) + text,
            _ => block_text(blocks.drop_last()),
        }
    }
}

proof fn lemma_said_concat(a: Seq<JsonView>, b: Seq<JsonView>)
    ensures
        said(a + b) == said(a) + said(b),
    decreases b.len(),
{
    if b.len() == 0 {
        assert(a + b =~= a);
        assert(said(a) + said(b) =~= said(a));
    } else {
        assert((a + b).drop_last() =~= a + b.drop_last());
        assert((a + b).last() == b.last());
        lemma_said_concat(a, b.drop_last());
        assert(said(a + b) =~= said(a) + said(b));
    }
}

proof fn lemma_said_written(text: Seq<char>)
    ensures
        said(written(text)) == text,
{
    if text.len() > 0 {
        let item = message_item("assistant"@, JsonView::Text(text));
        lemma_message_item("assistant"@, JsonView::Text(text));
        assert(seq![item].drop_last() =~= Seq::<JsonView>::empty());
        assert(seq![item].last() == item);
        assert(said(Seq::<JsonView>::empty()) =~= Seq::<char>::empty());
    }
    assert(said(written(text)) =~= text);
}

proof fn lemma_said_call(id: Seq<char>, name: Seq<char>, arguments: Seq<char>)
    ensures
        said(seq![call_item(id, name, arguments)]) == Seq::<char>::empty(),
{
    let item = call_item(id, name, arguments);
    lemma_item_literals();
    lemma_call_item(id, name, arguments);
    assert(seq![item].drop_last() =~= Seq::<JsonView>::empty());
    assert(seq![item].last() == item);
    assert(said(Seq::<JsonView>::empty()) =~= Seq::<char>::empty());
}

proof fn lemma_said_one(item: JsonView)
    ensures
        said(seq![item]) == item_says(item),
{
    assert(seq![item].drop_last() =~= Seq::<JsonView>::empty());
    assert(seq![item].last() == item);
    assert(said(Seq::<JsonView>::empty()) =~= Seq::<char>::empty());
    assert(said(seq![item]) =~= item_says(item));
}

proof fn lemma_said_split(blocks: Seq<ContentBlockView>)
    requires
        forall|i: int| 0 <= i < blocks.len() ==> !carries_text(#[trigger] blocks[i]),
    ensures
        said(assistant_split(blocks).0) + assistant_split(blocks).1 == block_text(blocks),
    decreases blocks.len(),
{
    if blocks.len() > 0 {
        assert(!carries_text(blocks[blocks.len() - 1]));
        assert forall|i: int| 0 <= i < blocks.drop_last().len() implies !carries_text(
            #[trigger] blocks.drop_last()[i],
        ) by {
            assert(!carries_text(blocks[i]));
        }
        lemma_said_split(blocks.drop_last());
        let (items, text) = assistant_split(blocks.drop_last());
        if let ContentBlockView::ToolUse { id, name, input } = blocks.last() {
            let item = call_item(id, name, json_text(input));
            lemma_said_written(text);
            lemma_said_call(id, name, json_text(input));
            lemma_said_concat(items, written(text));
            lemma_said_concat(items + written(text), seq![item]);
        }
        if let ContentBlockView::Compaction { content } = blocks.last() {
            lemma_said_written(text);
            lemma_said_one(content);
            lemma_said_concat(items, written(text));
            lemma_said_concat(items + written(text), seq![content]);
        }
    }
    assert(said(assistant_split(blocks).0) + assistant_split(blocks).1 =~= block_text(blocks));
}

/// The items of an assistant message say what its text blocks say, neither more nor less,
/// unless a compaction block that is passed on says something itself.
pub proof fn law_text_sent(blocks: Seq<ContentBlockView>)
    requires
        forall|i: int| 0 <= i < blocks.len() ==> !carries_text(#[trigger] blocks[i]),
    ensures
        said(assistant_items(blocks)) == block_text(blocks),
{
    let (items, text) = assistant_split(blocks);
    lemma_said_split(blocks);
    lemma_said_written(text);
    lemma_said_concat(items, written(text));
}

/// The block is a compaction block whose item is a message of an assistant without text.
pub open spec fn carries_silence(block: ContentBlockView) -> bool {
    block matches ContentBlockView::Compaction { content } && is_written(content) && item_says(
        content,
    ).len() == 0
}

proof fn lemma_split_not_empty(blocks: Seq<ContentBlockView>)
    requires
        forall|i: int| 0 <= i < blocks.len() ==> !carries_silence(#[trigger] blocks[i]),
    ensures
        forall|i: int|
            0 <= i < assistant_split(blocks).0.len() && is_written(
                #[trigger] assistant_split(blocks).0[i],
            ) ==> text_or(
                assistant_split(blocks).0[i].at("content"@).text(),
                Seq::empty(),
            ).len() > 0,
    decreases blocks.len(),
{
    if blocks.len() > 0 {
        assert(!carries_silence(blocks[blocks.len() - 1]));
        assert forall|i: int| 0 <= i < blocks.drop_last().len() implies !carries_silence(
            #[trigger] blocks.drop_last()[i],
        ) by {
            assert(!carries_silence(blocks[i]));
        }
        lemma_split_not_empty(blocks.drop_last());
        let (items, text) = assistant_split(blocks.drop_last());
        if let ContentBlockView::ToolUse { id, name, input } = blocks.last() {
            lemma_item_literals();
            lemma_call_item(id, name, json_text(input));
            lemma_message_item("assistant"@, JsonView::Text(text));
        }
        if blocks.last() is Compaction {
            lemma_message_item("assistant"@, JsonView::Text(text));
        }
    }
}

/// No item of an assistant message is a message without text, unless a compaction block
/// that is passed on is one.
pub proof fn law_no_empty_message(blocks: Seq<ContentBlockView>)
    requires
        forall|i: int| 0 <= i < blocks.len() ==> !carries_silence(#[trigger] blocks[i]),
    ensures
        forall|i: int|
            0 <= i < assistant_items(blocks).len() && is_written(
                #[trigger] assistant_items(blocks)[i],
            ) ==> text_or(assistant_items(blocks)[i].at("content"@).text(), Seq::empty()).len()
                > 0,
{
    lemma_split_not_empty(blocks);
    lemma_message_item("assistant"@, JsonView::Text(assistant_split(blocks).1));
}

/// The item is one that a compaction block among the blocks is passed on as.
pub open spec fn passed_on(blocks: Seq<ContentBlockView>, item: JsonView) -> bool {
    exists|k: int|
        0 <= k < blocks.len() && #[trigger] blocks[k] == (ContentBlockView::Compaction {
            content: item,
        })
}

proof fn lemma_passed_on(blocks: Seq<ContentBlockView>, item: JsonView)
    requires
        blocks.len() > 0,
        passed_on(blocks.drop_last(), item),
    ensures
        passed_on(blocks, item),
{
    let block = ContentBlockView::Compaction { content: item };
    let k = choose|k: int|
        0 <= k < blocks.drop_last().len() && #[trigger] blocks.drop_last()[k] == block;
    assert(blocks[k] == block);
}

proof fn lemma_split_no_neighbours(blocks: Seq<ContentBlockView>)
    ensures
        ({
            let items = assistant_split(blocks).0;
            &&& forall|i: int, j: int|
                #![trigger items[i], items[j]]
                0 <= i && j == i + 1 && j < items.len() && is_written(items[i]) && is_written(
                    items[j],
                ) ==> passed_on(blocks, items[i]) || passed_on(blocks, items[j])
            &&& items.len() > 0 && is_written(items.last()) ==> passed_on(blocks, items.last())
        }),
    decreases blocks.len(),
{
    if blocks.len() > 0 {
        lemma_split_no_neighbours(blocks.drop_last());
        let (before, text) = assistant_split(blocks.drop_last());
        let items = assistant_split(blocks).0;
        assert forall|i: int| 0 <= i < before.len() && passed_on(
            blocks.drop_last(),
            #[trigger] before[i],
        ) implies passed_on(blocks, before[i]) by {
            lemma_passed_on(blocks, before[i]);
        }
        if let ContentBlockView::ToolUse { id, name, input } = blocks.last() {
            lemma_item_literals();
            lemma_call_item(id, name, json_text(input));
            assert(!is_written(items.last()));
        }
        if let ContentBlockView::Compaction { content } = blocks.last() {
            assert(blocks[blocks.len() - 1] == blocks.last());
            assert(items.last() == content);
            assert(passed_on(blocks, items.last()));
        }
        assert forall|i: int, j: int|
            #![trigger items[i], items[j]]
            0 <= i && j == i + 1 && j < items.len() && is_written(items[i]) && is_written(
                items[j],
            ) implies passed_on(blocks, items[i]) || passed_on(blocks, items[j]) by {
            if j < before.len() {
                assert(items[i] == before[i] && items[j] == before[j]);
            } else if i < before.len() {
                assert(items[i] == before.last());
                assert(before[i] == before.last());
            }
        }
        if items.len() > 0 && blocks.last() !is ToolUse && blocks.last() !is Compaction {
            assert(items.last() == before[before.len() - 1]);
        }
    }
}

/// Of two neighbouring items of an assistant message that are both messages, one is a
/// compaction block that was passed on. So without compaction blocks no two messages stand
/// side by side: the text between two calls is one message.
pub proof fn law_no_neighbouring_messages(blocks: Seq<ContentBlockView>)
    ensures
        ({
            let items = assistant_items(blocks);
            &&& forall|i: int, j: int|
                #![trigger items[i], items[j]]
                0 <= i && j == i + 1 && j < items.len() && is_written(items[i]) && is_written(
                    items[j],
                ) ==> passed_on(blocks, items[i]) || passed_on(blocks, items[j])
            &&& (forall|k: int| 0 <= k < blocks.len() ==> #[trigger] blocks[k] !is Compaction)
                ==> forall|i: int, j: int|
                #![trigger items[i], items[j]]
                0 <= i && j == i + 1 && j < items.len() ==> !(is_written(items[i]) && is_written(
                    items[j],
                ))
        }),
{
    lemma_split_no_neighbours(blocks);
    let (before, text) = assistant_split(blocks);
    let items = assistant_items(blocks);
    assert forall|i: int, j: int|
        #![trigger items[i], items[j]]
        0 <= i && j == i + 1 && j < items.len() && is_written(items[i]) && is_written(
            items[j],
        ) implies passed_on(blocks, items[i]) || passed_on(blocks, items[j]) by {
        if j < before.len() {
            assert(items[i] == before[i] && items[j] == before[j]);
        } else {
            assert(items[i] == before.last());
        }
    }
}

} // verus!

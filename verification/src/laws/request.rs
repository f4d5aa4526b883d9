//! What a request says.

use vstd::prelude::*;
use vstd::string::*;

use crate::json::{entries_map, lemma_entries_absent, lemma_entries_last, JsonView};
use crate::laws::json::lemma_entries_push;
use crate::messages::{input_items, tool_items};
use crate::request::{
    api_request, context_management, fixed_entries, optional_entries, request_body,
    COMPACT_THRESHOLD,
};
use crate::text::joined;
use crate::types::{MessageView, ToolDefinitionView};

verus! {

/// The keys of a request are different texts.
proof fn lemma_request_keys()
    ensures
        ({
            let keys = seq![
                "model"@,
                "max_output_tokens"@,
                "input"@,
                "store"@,
                "stream"@,
                "context_management"@,
                "instructions"@,
                "tools"@,
            ];
            forall|i: int, j: int| 0 <= i < j < keys.len() ==> keys[i] != keys[j]
        }),
{
    reveal_strlit("model");
    reveal_strlit("max_output_tokens");
    reveal_strlit("input");
    reveal_strlit("store");
    reveal_strlit("stream");
    reveal_strlit("context_management");
    reveal_strlit("instructions");
    reveal_strlit("tools");
    assert("model"@.len() == 5 && "model"@[0] == 'm');
    assert("max_output_tokens"@.len() == 17);
    assert("input"@.len() == 5 && "input"@[0] == 'i');
    assert("store"@.len() == 5 && "store"@[0] == 's');
    assert("stream"@.len() == 6);
    assert("context_management"@.len() == 18);
    assert("instructions"@.len() == 12);
    assert("tools"@.len() == 5 && "tools"@[0] == 't');
}

/// A request has the model, the limit, the input and the two switches as they were
/// given. It has instructions and tools only where there are any, and asks for the
/// context to be managed only where it is streamed. It never has the response stored.
pub proof fn law_request_body(
    model: Seq<char>,
    max_tokens: u64,
    input: Seq<JsonView>,
    instructions: Seq<char>,
    tools: Seq<JsonView>,
    stream: bool,
)
    ensures
        ({
            let body = request_body(model, max_tokens, input, instructions, tools, stream);
            &&& body.get("model"@) == Some(JsonView::Text(model))
            &&& body.get("max_output_tokens"@) == Some(JsonView::Integer(max_tokens as int))
            &&& body.get("input"@) == Some(JsonView::Array(input))
            &&& body.get("store"@) == Some(JsonView::Bool(false))
            &&& body.get("stream"@) == Some(JsonView::Bool(stream))
            &&& body.get("context_management"@) == (if stream {
                Some(context_management())
            } else {
                None
            })
            &&& body.get("instructions"@) == (if instructions.len() > 0 {
                Some(JsonView::Text(instructions))
            } else {
                None
            })
            &&& body.get("tools"@) == (if tools.len() > 0 {
                Some(JsonView::Array(tools))
            } else {
                None
            })
        }),
{
    let fixed = fixed_entries(model, max_tokens, input, stream);
    let entries = fixed + optional_entries(instructions, tools);
    let keys = seq![
        "model"@,
        "max_output_tokens"@,
        "input"@,
        "store"@,
        "stream"@,
        "context_management"@,
        "instructions"@,
        "tools"@,
    ];
    lemma_request_keys();
    assert(keys[0] == "model"@);
    assert(keys[1] == "max_output_tokens"@);
    assert(keys[2] == "input"@);
    assert(keys[3] == "store"@);
    assert(keys[4] == "stream"@);
    assert(keys[5] == "context_management"@);
    assert(keys[6] == "instructions"@);
    assert(keys[7] == "tools"@);
    lemma_entries_last(entries, 0);
    lemma_entries_last(entries, 1);
    lemma_entries_last(entries, 2);
    lemma_entries_last(entries, 3);
    lemma_entries_last(entries, 4);
    if stream {
        lemma_entries_last(entries, 5);
    } else {
        lemma_entries_absent(entries, "context_management"@);
    }
    let next = fixed.len() as int;
    if instructions.len() > 0 {
        lemma_entries_last(entries, next);
    } else {
        lemma_entries_absent(entries, "instructions"@);
    }
    if tools.len() > 0 {
        lemma_entries_last(entries, entries.len() - 1);
    } else {
        lemma_entries_absent(entries, "tools"@);
    }
}

/// A streamed request has one tool more than it was given, the search tool at the end,
/// and so always has tools; another one has the tools that it was given.
pub proof fn law_tool_items(defs: Seq<ToolDefinitionView>)
    ensures
        tool_items(defs, false).len() == defs.len(),
        tool_items(defs, true).drop_last() == tool_items(defs, false),
        tool_items(defs, true).last() == crate::messages::web_search_item(),
{
    assert(tool_items(defs, true).drop_last() =~= tool_items(defs, false));
}

/// Every request is posted to the one address under the base, with the key as a bearer, and
/// says the same of the conversation, streamed or not: the model and the limit as given,
/// the items of the messages, the system parts joined by blank lines where that is not
/// empty, and the tools where there are any. It never has the response stored. Only a
/// streamed one has the context compacted, from one hundred thousand tokens on. It says
/// nothing else.
pub proof fn law_request(
    api_key: Seq<char>,
    model: Seq<char>,
    system: Seq<Seq<char>>,
    tool_defs: Seq<ToolDefinitionView>,
    messages: Seq<MessageView>,
    max_tokens: u64,
    base_url: Seq<char>,
    stream: bool,
)
    ensures
        ({
            let request = api_request(
                api_key,
                model,
                system,
                tool_defs,
                messages,
                max_tokens,
                base_url,
                stream,
            );
            let body = request.body;
            let told = joined(system, "\n\n"@);
            &&& request.url == base_url + "/v1/responses"@
            &&& request.authorization == "Bearer "@ + api_key
            &&& request.content_type == "application/json"@
            &&& body.get("model"@) == Some(JsonView::Text(model))
            &&& body.get("max_output_tokens"@) == Some(JsonView::Integer(max_tokens as int))
            &&& body.get("input"@) == Some(JsonView::Array(input_items(messages)))
            &&& body.get("store"@) == Some(JsonView::Bool(false))
            &&& body.get("stream"@) == Some(JsonView::Bool(stream))
            &&& told.len() > 0 ==> body.get("instructions"@) == Some(JsonView::Text(told))
            &&& told.len() == 0 ==> body.get("instructions"@) is None
            &&& stream || tool_defs.len() > 0 ==> body.get("tools"@) == Some(
                JsonView::Array(tool_items(tool_defs, stream)),
            )
            &&& !stream && tool_defs.len() == 0 ==> body.get("tools"@) is None
            &&& stream ==> body.get("context_management"@) == Some(
                JsonView::Array(
                    seq![
                        JsonView::Object(
                            map![
                                "type"@ => JsonView::Text("compaction"@),
                                "compact_threshold"@ => JsonView::Integer(100000),
                            ],
                        ),
                    ],
                ),
            )
            &&& !stream ==> body.get("context_management"@) is None
            &&& forall|key: Seq<char>| #[trigger]
                body.get(key) is Some ==> key == "model"@ || key == "max_output_tokens"@ || key
                    == "input"@ || key == "store"@ || key == "stream"@ || key == "instructions"@
                    || key == "tools"@ || key == "context_management"@
        }),
{
    let input = input_items(messages);
    let told = joined(system, "\n\n"@);
    let tools = tool_items(tool_defs, stream);
    law_request_body(model, max_tokens, input, told, tools, stream);
    law_tool_items(tool_defs);
    let kind = ("type"@, JsonView::Text("compaction"@));
    let threshold = ("compact_threshold"@, JsonView::Integer(COMPACT_THRESHOLD as int));
    let none = Seq::<(Seq<char>, JsonView)>::empty();
    assert(entries_map(none) =~= Map::empty());
    lemma_entries_push(none, kind.0, kind.1);
    lemma_entries_push(none.push(kind), threshold.0, threshold.1);
    assert(none.push(kind).push(threshold) =~= seq![kind, threshold]);
    let body = request_body(model, max_tokens, input, told, tools, stream);
    let entries = fixed_entries(model, max_tokens, input, stream) + optional_entries(told, tools);
    assert forall|key: Seq<char>| #[trigger] body.get(key) is Some implies key == "model"@ || key
        == "max_output_tokens"@ || key == "input"@ || key == "store"@ || key == "stream"@ || key
        == "instructions"@ || key == "tools"@ || key == "context_management"@ by {
        if forall|j: int| 0 <= j < entries.len() ==> (#[trigger] entries[j]).0 != key {
            lemma_entries_absent(entries, key);
        }
    }
}

} // verus!

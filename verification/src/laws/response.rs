//! What a whole response amounts to.

use vstd::prelude::*;
use vstd::string::*;

use crate::json::{entries_map, json_read, JsonView};
use crate::laws::conversation::{lemma_output_calls_concat, lemma_output_calls_one};
use crate::response::{
    completion, is_call, item_text, items_or_none, output_calls, output_text, parts_text,
    stop_reason, token_usage,
};

verus! {

/// The three reasons to stop are different texts, none of them empty.
pub proof fn lemma_reasons()
    ensures
        "tool_use"@.len() > 0,
        "max_tokens"@.len() > 0,
        "end_turn"@.len() > 0,
        "tool_use"@ != "max_tokens"@,
        "tool_use"@ != "end_turn"@,
        "max_tokens"@ != "end_turn"@,
{
    reveal_strlit("tool_use");
    reveal_strlit("max_tokens");
    reveal_strlit("end_turn");
    assert("tool_use"@[0] == 't');
    assert("end_turn"@[0] == 'e');
    assert("max_tokens"@[0] == 'm');
}

/// One of the reasons to stop.
pub open spec fn is_reason(reason: Seq<char>) -> bool {
    reason == "tool_use"@ || reason == "max_tokens"@ || reason == "end_turn"@
}

/// Items have tool calls wherever one of them is a call.
proof fn lemma_calls_exist(items: Seq<JsonView>)
    ensures
        output_calls(items).len() > 0 <==> exists|i: int|
            0 <= i < items.len() && is_call(#[trigger] items[i]),
    decreases items.len(),
{
    if items.len() > 0 {
        let rest = items.drop_last();
        lemma_calls_exist(rest);
        if output_calls(items).len() > 0 && !is_call(items.last()) {
            let i = choose|i: int| 0 <= i < rest.len() && is_call(#[trigger] rest[i]);
            assert(is_call(items[i]));
        }
        if is_call(items.last()) {
            assert(is_call(items[items.len() - 1]));
        } else if exists|i: int| 0 <= i < items.len() && is_call(#[trigger] items[i]) {
            let i = choose|i: int| 0 <= i < items.len() && is_call(#[trigger] items[i]);
            assert(is_call(rest[i]));
        }
    }
}

/// A response stops for a tool if and only if it calls one, and always for one of the
/// three reasons.
pub proof fn law_stop_reason(response: JsonView)
    ensures
        completion(response).stop_reason == "tool_use"@ <==> completion(response).tool_uses.len()
            > 0,
        is_reason(stop_reason(response)),
{
    lemma_reasons();
    lemma_calls_exist(items_or_none(response.at("output"@)));
}

/// The input is made up of its cached and its uncached part, unless more is reported as
/// cached than there was input: then nothing counts as uncached.
pub proof fn law_token_usage(usage: JsonView)
    ensures
        ({
            let u = token_usage(usage);
            if u.cached <= u.input {
                u.cached + u.uncached == u.input
            } else {
                u.uncached == 0
            }
        }),
{
}

/// One of the output items is a tool call.
pub open spec fn calls_a_tool(response: JsonView) -> bool {
    response.get("output"@) matches Some(JsonView::Array(items)) && exists|i: int|
        0 <= i < items.len() && (#[trigger] items[i]).get("type"@) == Some(
            JsonView::Text("function_call"@),
        )
}

/// A response stops for a tool if and only if one of its output items is a call. Without a
/// call, and whatever else the output holds, it is out of tokens if and only if it says that
/// it is incomplete for this reason, and otherwise it has ended its turn.
pub proof fn law_stop_reason_by_keys(response: JsonView, details: JsonView)
    requires
        response.get("incomplete_details"@) == Some(details) || (response.get(
            "incomplete_details"@,
        ) is None && details is Null),
    ensures
        completion(response).stop_reason == stop_reason(response),
        calls_a_tool(response) <==> stop_reason(response) == "tool_use"@,
        !calls_a_tool(response) ==> (stop_reason(response) == "max_tokens"@ <==> response.get(
            "status"@,
        ) == Some(JsonView::Text("incomplete"@)) && details.get("reason"@) == Some(
            JsonView::Text("max_output_tokens"@),
        )),
        stop_reason(response) == "tool_use"@ || stop_reason(response) == "max_tokens"@
            || stop_reason(response) == "end_turn"@,
{
    lemma_reasons();
    let items = items_or_none(response.at("output"@));
    if calls_a_tool(response) {
        let i = choose|i: int|
            0 <= i < items.len() && (#[trigger] items[i]).get("type"@) == Some(
                JsonView::Text("function_call"@),
            );
        assert(is_call(items[i]));
    } else if exists|i: int| 0 <= i < items.len() && is_call(#[trigger] items[i]) {
        let i = choose|i: int| 0 <= i < items.len() && is_call(#[trigger] items[i]);
        assert(items[i].get("type"@) == Some(JsonView::Text("function_call"@)));
    }
}

proof fn lemma_output_text_concat(a: Seq<JsonView>, b: Seq<JsonView>)
    ensures
        output_text(a + b) == output_text(a) + output_text(b),
    decreases b.len(),
{
    if b.len() == 0 {
        assert(a + b =~= a);
        assert(output_text(a) + output_text(b) =~= output_text(a));
    } else {
        assert((a + b).drop_last() =~= a + b.drop_last());
        assert((a + b).last() == b.last());
        lemma_output_text_concat(a, b.drop_last());
        assert(output_text(a + b) =~= output_text(a) + output_text(b));
    }
}

proof fn lemma_parts_text_concat(a: Seq<JsonView>, b: Seq<JsonView>)
    ensures
        parts_text(a + b) == parts_text(a) + parts_text(b),
    decreases b.len(),
{
    if b.len() == 0 {
        assert(a + b =~= a);
        assert(parts_text(a) + parts_text(b) =~= parts_text(a));
    } else {
        assert((a + b).drop_last() =~= a + b.drop_last());
        assert((a + b).last() == b.last());
        lemma_parts_text_concat(a, b.drop_last());
        assert(parts_text(a + b) =~= parts_text(a) + parts_text(b));
    }
}

/// The text and the calls of a response are those of its output items in order; without
/// an array of items it has neither.
pub proof fn law_output_in_order(
    first: JsonView,
    second: JsonView,
    both: JsonView,
    a: Seq<JsonView>,
    b: Seq<JsonView>,
)
    ensures
        first.at("output"@) !is Array ==> completion(first).text.len() == 0 && completion(
            first,
        ).tool_uses.len() == 0,
        first.get("output"@) == Some(JsonView::Array(a)) && second.get("output"@) == Some(
            JsonView::Array(b),
        ) && both.get("output"@) == Some(JsonView::Array(a + b)) ==> {
            &&& completion(both).text == completion(first).text + completion(second).text
            &&& completion(both).tool_uses == completion(first).tool_uses + completion(
                second,
            ).tool_uses
        },
{
    lemma_output_text_concat(a, b);
    lemma_output_calls_concat(a, b);
}

/// What arguments are read as: an empty object where they are no JSON text.
pub open spec fn as_input(arguments: Seq<char>) -> JsonView {
    match json_read(arguments) {
        Ok(j) => j,
        Err(_) => JsonView::Object(Map::empty()),
    }
}

/// An output item that is a tool call gives one tool use, under its call id and its name,
/// with what its arguments are read as; any other item gives none. Only a message has text.
pub proof fn law_output_item(response: JsonView, item: JsonView)
    requires
        response.get("output"@) == Some(JsonView::Array(seq![item])),
    ensures
        ({
            let c = completion(response);
            &&& item.get("type"@) != Some(JsonView::Text("message"@)) ==> c.text.len() == 0
            &&& item.at("content"@) !is Array ==> c.text.len() == 0
            &&& item.get("type"@) != Some(JsonView::Text("function_call"@)) ==> c.tool_uses.len()
                == 0
            &&& item.get("type"@) == Some(JsonView::Text("function_call"@)) ==> {
                &&& c.tool_uses.len() == 1
                &&& item.at("call_id"@) matches JsonView::Text(id) ==> c.tool_uses[0].id == id
                &&& item.at("call_id"@) !is Text ==> c.tool_uses[0].id.len() == 0
                &&& item.at("name"@) matches JsonView::Text(name) ==> c.tool_uses[0].name == name
                &&& item.at("name"@) !is Text ==> c.tool_uses[0].name.len() == 0
                &&& item.at("arguments"@) matches JsonView::Text(arguments)
                    ==> c.tool_uses[0].input == as_input(arguments)
                &&& item.at("arguments"@) !is Text ==> c.tool_uses[0].input == as_input("{}"@)
            }
        }),
{
    lemma_output_calls_one(item);
    assert(seq![item].drop_last() =~= Seq::empty());
    assert(output_text(Seq::<JsonView>::empty()) =~= Seq::empty());
    assert(output_text(seq![item]) =~= item_text(item));
    assert(parts_text(Seq::<JsonView>::empty()) =~= Seq::empty());
    assert(entries_map(Seq::<(Seq<char>, JsonView)>::empty()) =~= Map::empty());
}

/// The text of a message is that of its parts in order, where a part that is output text
/// has its text and any other part has none.
pub proof fn law_message_text(
    first: JsonView,
    second: JsonView,
    both: JsonView,
    a: Seq<JsonView>,
    b: Seq<JsonView>,
    part: JsonView,
    text: Seq<char>,
)
    requires
        first.get("type"@) == Some(JsonView::Text("message"@)),
        second.get("type"@) == Some(JsonView::Text("message"@)),
        both.get("type"@) == Some(JsonView::Text("message"@)),
        first.get("content"@) == Some(JsonView::Array(a)),
        second.get("content"@) == Some(JsonView::Array(b)),
        both.get("content"@) == Some(JsonView::Array(a + b)),
    ensures
        output_text(seq![both]) == output_text(seq![first]) + output_text(seq![second]),
        a == seq![part] && part.get("type"@) == Some(JsonView::Text("output_text"@)) && part.get(
            "text"@,
        ) == Some(JsonView::Text(text)) ==> output_text(seq![first]) == text,
        a == seq![part] && part.get("type"@) != Some(JsonView::Text("output_text"@))
            ==> output_text(seq![first]).len() == 0,
        a == seq![part] && part.at("text"@) !is Text ==> output_text(seq![first]).len() == 0,
{
    lemma_parts_text_concat(a, b);
    lemma_one_text(first);
    lemma_one_text(second);
    lemma_one_text(both);
    if a == seq![part] {
        assert(seq![part].drop_last() =~= Seq::empty());
        assert(parts_text(Seq::<JsonView>::empty()) =~= Seq::empty());
        if part.get("type"@) == Some(JsonView::Text("output_text"@)) && part.get("text"@) == Some(
            JsonView::Text(text),
        ) {
            assert(parts_text(a) =~= text);
        }
    }
}

proof fn lemma_one_text(item: JsonView)
    ensures
        output_text(seq![item]) == item_text(item),
{
    assert(seq![item].drop_last() =~= Seq::empty());
    assert(output_text(Seq::<JsonView>::empty()) =~= Seq::empty());
    assert(output_text(seq![item]) =~= item_text(item));
}

/// The text of a response is what its output items say.
pub proof fn law_response_text(response: JsonView, items: Seq<JsonView>)
    requires
        response.get("output"@) == Some(JsonView::Array(items)),
    ensures
        completion(response).text == output_text(items),
        completion(response).tool_uses == output_calls(items),
{
}

/// The tokens of a response are those that its report has at their keys; what is not
/// reported counts as none.
pub proof fn law_usage_by_keys(response: JsonView, report: JsonView, details: JsonView)
    requires
        response.get("usage"@) == Some(report) || (response.get("usage"@) is None && report is Null),
        report.get("input_tokens_details"@) == Some(details) || (report.get(
            "input_tokens_details"@,
        ) is None && details is Null),
    ensures
        ({
            let u = token_usage(report);
            &&& completion(response).usage == u
            &&& report.at("input_tokens"@).unsigned() matches Some(n) ==> u.input == n
            &&& report.at("input_tokens"@).unsigned() is None ==> u.input == 0
            &&& report.at("output_tokens"@).unsigned() matches Some(n) ==> u.output == n
            &&& report.at("output_tokens"@).unsigned() is None ==> u.output == 0
            &&& details.at("cached_tokens"@).unsigned() matches Some(n) ==> u.cached == n
            &&& details.at("cached_tokens"@).unsigned() is None ==> u.cached == 0
            &&& u.cached <= u.input ==> u.cached + u.uncached == u.input
            &&& u.cached > u.input ==> u.uncached == 0
        }),
{
}

} // verus!

//! What each event adds to a streamed response, and what the response ends as.

use vstd::prelude::*;
use vstd::string::*;

use crate::json::{entries_map, JsonView};
use crate::laws::response::as_input;
use crate::laws::stream::law_in_order;
use crate::response::{stop_reason, token_usage};
use crate::state::{
    after_event, initial_state, lemma_ascending, stream_result, EffectView, StateView,
};
use crate::types::ContentBlockView;

verus! {

/// The kinds of events and of items are different texts.
proof fn lemma_kinds()
    ensures
        "response.output_text.delta"@ != "response.function_call_arguments.delta"@,
        "response.output_text.delta"@ != "response.output_item.added"@,
        "response.output_text.delta"@ != "response.completed"@,
        "response.function_call_arguments.delta"@ != "response.output_item.added"@,
        "response.function_call_arguments.delta"@ != "response.completed"@,
        "response.output_item.added"@ != "response.completed"@,
        "function_call"@ != "web_search_call"@,
{
    reveal_strlit("response.output_text.delta");
    reveal_strlit("response.function_call_arguments.delta");
    reveal_strlit("response.output_item.added");
    reveal_strlit("response.completed");
    reveal_strlit("function_call");
    reveal_strlit("web_search_call");
    assert("response.output_text.delta"@.len() == 26 && "response.output_text.delta"@[16] == 't');
    assert("response.output_item.added"@.len() == 26 && "response.output_item.added"@[16] == 'i');
    assert("response.function_call_arguments.delta"@.len() == 38);
    assert("response.completed"@.len() == 18);
    assert("function_call"@.len() == 13);
    assert("web_search_call"@.len() == 15);
}

/// Before the first event there is nothing.
pub proof fn law_start()
    ensures
        initial_state().text.len() == 0,
        initial_state().calls.dom() == Set::<usize>::empty(),
        initial_state().current == 0,
        initial_state().stop_reason.len() == 0,
        initial_state().usage is None,
{
    assert(initial_state().calls.dom() =~= Set::<usize>::empty());
}

/// A piece of text is appended to the text and told as it is; nothing else changes. An
/// event without a piece changes nothing.
pub proof fn law_text_event(s: StateView, event: JsonView, delta: Seq<char>)
    requires
        event.get("type"@) == Some(JsonView::Text("response.output_text.delta"@)),
    ensures
        event.get("delta"@) == Some(JsonView::Text(delta)) ==> after_event(s, event) == (
            StateView { text: s.text + delta, ..s },
            Some(EffectView::Delta { text: delta }),
        ),
        event.at("delta"@) !is Text ==> after_event(s, event) == (s, None::<EffectView>),
{
    lemma_kinds();
}

/// A piece of arguments is appended to those of the call at its index, or without an index
/// at that of the piece before it. The call keeps its id and its name, the other calls and
/// the rest stay as they are, and nothing is told.
pub proof fn law_arguments_event(s: StateView, event: JsonView, delta: Seq<char>, k: usize)
    requires
        event.get("type"@) == Some(JsonView::Text("response.function_call_arguments.delta"@)),
        event.at("output_index"@).unsigned() matches Some(u) ==> k == u as usize,
        event.at("output_index"@).unsigned() is None ==> k == s.current,
    ensures
        after_event(s, event).1 is None,
        event.at("delta"@) !is Text ==> after_event(s, event).0 == s,
        event.get("delta"@) == Some(JsonView::Text(delta)) ==> ({
            let next = after_event(s, event).0;
            &&& next.calls.dom() == s.calls.dom().insert(k)
            &&& forall|j: usize| j != k ==> #[trigger] next.calls[j] == s.calls[j]
            &&& s.calls.contains_key(k) ==> {
                &&& next.calls[k].call_id == s.calls[k].call_id
                &&& next.calls[k].name == s.calls[k].name
                &&& next.calls[k].arguments == s.calls[k].arguments + delta
            }
            &&& !s.calls.contains_key(k) ==> {
                &&& next.calls[k].call_id.len() == 0
                &&& next.calls[k].name.len() == 0
                &&& next.calls[k].arguments == delta
            }
            &&& next.current == k
            &&& next.text == s.text
            &&& next.stop_reason == s.stop_reason
            &&& next.usage == s.usage
        }),
{
    lemma_kinds();
    if event.get("delta"@) == Some(JsonView::Text(delta)) {
        let next = after_event(s, event).0;
        assert(next.calls.dom() =~= s.calls.dom().insert(k));
        assert(Seq::<char>::empty() + delta =~= delta);
    }
}

/// A new item that is a tool call is kept at its index, the first one without an index,
/// under its call id and its name and without arguments, whatever else the item says. The
/// other calls and the rest stay as they are. It is told by its name.
pub proof fn law_call_event(s: StateView, event: JsonView, item: JsonView, k: usize)
    requires
        event.get("type"@) == Some(JsonView::Text("response.output_item.added"@)),
        event.get("item"@) == Some(item),
        item.get("type"@) == Some(JsonView::Text("function_call"@)),
        event.at("output_index"@).unsigned() matches Some(u) ==> k == u as usize,
        event.at("output_index"@).unsigned() is None ==> k == 0,
    ensures
        ({
            let next = after_event(s, event).0;
            let call = next.calls[k];
            &&& next.calls.dom() == s.calls.dom().insert(k)
            &&& forall|j: usize| j != k ==> #[trigger] next.calls[j] == s.calls[j]
            &&& item.at("call_id"@) matches JsonView::Text(id) ==> call.call_id == id
            &&& item.at("call_id"@) !is Text ==> call.call_id.len() == 0
            &&& item.at("name"@) matches JsonView::Text(name) ==> call.name == name
            &&& item.at("name"@) !is Text ==> call.name.len() == 0
            &&& call.arguments.len() == 0
            &&& next.current == s.current
            &&& next.text == s.text
            &&& next.stop_reason == s.stop_reason
            &&& next.usage == s.usage
        }),
        item.at("name"@) matches JsonView::Text(name) ==> after_event(s, event).1 == Some(
            EffectView::ToolCall { content: "calling "@ + name, tool_name: Some(name) },
        ),
        item.at("name"@) !is Text ==> after_event(s, event).1 == Some(
            EffectView::ToolCall { content: "calling "@ + "function"@, tool_name: None },
        ),
{
    lemma_kinds();
    assert(after_event(s, event).0.calls.dom() =~= s.calls.dom().insert(k));
}

/// A new item that is a search of the web is told and changes nothing; one of another kind,
/// or none at all, is not told either.
pub proof fn law_item_event(s: StateView, event: JsonView, item: JsonView)
    requires
        event.get("type"@) == Some(JsonView::Text("response.output_item.added"@)),
    ensures
        event.get("item"@) is None ==> after_event(s, event) == (s, None::<EffectView>),
        event.get("item"@) == Some(item) && item.get("type"@) == Some(
            JsonView::Text("web_search_call"@),
        ) ==> after_event(s, event) == (s, Some(EffectView::WebSearch)),
        event.get("item"@) == Some(item) && item.get("type"@) != Some(
            JsonView::Text("web_search_call"@),
        ) && item.get("type"@) != Some(JsonView::Text("function_call"@)) ==> after_event(s, event)
            == (s, None::<EffectView>),
{
    lemma_kinds();
}

/// The end of a response settles why it stopped and, where it is reported, what it took,
/// which is told. The text and the calls stay as they are. Without the response nothing
/// changes.
pub proof fn law_end_event(s: StateView, event: JsonView, response: JsonView, report: JsonView)
    requires
        event.get("type"@) == Some(JsonView::Text("response.completed"@)),
    ensures
        event.get("response"@) is None ==> after_event(s, event) == (s, None::<EffectView>),
        event.get("response"@) == Some(response) && response.get("usage"@) is None
            ==> after_event(s, event) == (
            StateView { stop_reason: stop_reason(response), ..s },
            None::<EffectView>,
        ),
        event.get("response"@) == Some(response) && response.get("usage"@) == Some(report)
            ==> after_event(s, event) == (
            StateView {
                stop_reason: stop_reason(response),
                usage: Some(token_usage(report)),
                ..s
            },
            Some(EffectView::Usage { usage: token_usage(report) }),
        ),
{
    lemma_kinds();
}

/// An event of any other kind changes nothing and is not told.
pub proof fn law_other_event(s: StateView, event: JsonView)
    requires
        event.get("type"@) != Some(JsonView::Text("response.output_text.delta"@)),
        event.get("type"@) != Some(JsonView::Text("response.function_call_arguments.delta"@)),
        event.get("type"@) != Some(JsonView::Text("response.output_item.added"@)),
        event.get("type"@) != Some(JsonView::Text("response.completed"@)),
    ensures
        after_event(s, event) == (s, None::<EffectView>),
{
}

/// The indices in ascending order, each of the set once and no others.
pub open spec fn ascends_through(order: Seq<usize>, indices: Set<usize>) -> bool {
    &&& forall|i: int, j: int| 0 <= i < j < order.len() ==> order[i] < order[j]
    &&& forall|k: usize| #[trigger] indices.contains(k) <==> order.contains(k)
}

/// Every call ends as one tool use under its id and its name, with what its arguments are
/// read as, in ascending order of the indices of the calls.
pub proof fn law_calls_end(s: StateView, charged: Option<u64>, order: Seq<usize>)
    requires
        ascends_through(order, s.calls.dom()),
    ensures
        ({
            let ended = stream_result(s, charged).tool_uses;
            &&& ended.len() == order.len()
            &&& forall|i: int|
                0 <= i < order.len() ==> {
                    &&& (#[trigger] ended[i]).id == s.calls[order[i]].call_id
                    &&& ended[i].name == s.calls[order[i]].name
                    &&& ended[i].input == as_input(s.calls[order[i]].arguments)
                }
        }),
{
    lemma_ascending(order);
    assert(order.to_set() =~= s.calls.dom());
    assert(entries_map(Seq::<(Seq<char>, JsonView)>::empty()) =~= Map::empty());
}

/// A response ends with its text, with why it stopped or by its calls where it broke off,
/// with what its usage is charged with, and with its text as the only content, none where
/// the text is empty.
pub proof fn law_result(s: StateView, charged: Option<u64>)
    requires
        s.calls.dom().finite(),
    ensures
        ({
            let r = stream_result(s, charged);
            &&& r.text == s.text
            &&& s.stop_reason.len() > 0 ==> r.stop_reason == s.stop_reason
            &&& s.stop_reason.len() == 0 && s.calls.dom() == Set::<usize>::empty()
                ==> r.stop_reason == "end_turn"@
            &&& s.stop_reason.len() == 0 && s.calls.dom() != Set::<usize>::empty()
                ==> r.stop_reason == "tool_use"@
            &&& charged matches Some(n) ==> r.tokens_used == n
            &&& charged is None ==> r.tokens_used == 0
            &&& s.text.len() == 0 ==> r.ordered_content.len() == 0
            &&& s.text.len() > 0 ==> r.ordered_content == seq![
                ContentBlockView::Text { text: s.text },
            ]
        }),
{
    law_in_order(s.calls.dom());
    if s.calls.dom().len() == 0 {
        assert(s.calls.dom() =~= Set::empty());
    }
}

/// A tool call that an event announces ends as the tool use at its place, under its call id
/// and its name and whatever else the item says, if no arguments follow.
pub proof fn law_announced_call_ends(
    s: StateView,
    event: JsonView,
    item: JsonView,
    index: u64,
    id: Seq<char>,
    name: Seq<char>,
    charged: Option<u64>,
    order: Seq<usize>,
    place: int,
)
    requires
        event.get("type"@) == Some(JsonView::Text("response.output_item.added"@)),
        event.get("output_index"@) == Some(JsonView::Integer(index as int)),
        event.get("item"@) == Some(item),
        item.get("type"@) == Some(JsonView::Text("function_call"@)),
        item.get("call_id"@) == Some(JsonView::Text(id)),
        item.get("name"@) == Some(JsonView::Text(name)),
        ascends_through(order, s.calls.dom().insert(index as usize)),
        0 <= place < order.len(),
        order[place] == index as usize,
    ensures
        ({
            let ended = stream_result(after_event(s, event).0, charged).tool_uses;
            &&& ended.len() == order.len()
            &&& ended[place].id == id
            &&& ended[place].name == name
            &&& ended[place].input == as_input(Seq::empty())
        }),
{
    law_call_event(s, event, item, index as usize);
    let next = after_event(s, event).0;
    law_calls_end(next, charged, order);
    let ended = stream_result(next, charged).tool_uses;
    assert(ended[place].id == next.calls[order[place]].call_id);
    assert(next.calls[order[place]].arguments =~= Seq::empty());
}

} // verus!

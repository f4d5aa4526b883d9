//! What the events of a streamed response add up to.

use std::collections::BTreeMap;
use vstd::prelude::*;
use vstd::string::*;

use crate::json::{json_parsed, Json, JsonView};
use crate::response::{
    count, has_text, input_or_empty, read_arguments, read_stop_reason, read_usage, stop_reason,
    text_at, text_or, token_usage, TokenUsage,
};
use crate::text::same;
use crate::types::{
    block_views, tool_use_views, ContentBlock, ContentBlockView, StreamOnceResult, StreamOnceView,
    ToolUseBlock, ToolUseView,
};

verus! {

broadcast use vstd::std_specs::btree::group_btree_axioms;

/// A tool call whose arguments are still coming in.
#[derive(Debug, PartialEq)]
pub struct FunctionCall {
    pub call_id: String,
    pub name: String,
    pub arguments: String,
}

pub struct CallView {
    pub call_id: Seq<char>,
    pub name: Seq<char>,
    pub arguments: Seq<char>,
}

impl View for FunctionCall {
    type V = CallView;

    open spec fn view(&self) -> CallView {
        CallView { call_id: self.call_id@, name: self.name@, arguments: self.arguments@ }
    }
}

/// What the events so far have said.
#[derive(Debug, PartialEq)]
pub struct ResponseState {
    pub text: String,
    /// The tool calls by the index of their item in the output.
    pub calls: BTreeMap<usize, FunctionCall>,
    /// The index for arguments that come without one.
    pub current: usize,
    /// Empty until the response is complete.
    pub stop_reason: String,
    pub usage: Option<TokenUsage>,
}

#[verifier::ext_equal]
pub struct StateView {
    pub text: Seq<char>,
    pub calls: Map<usize, CallView>,
    pub current: usize,
    pub stop_reason: Seq<char>,
    pub usage: Option<TokenUsage>,
}

/// The calls, call by call.
pub open spec fn call_views(calls: Map<usize, FunctionCall>) -> Map<usize, CallView> {
    calls.map_values(|c: FunctionCall| c@)
}

impl View for ResponseState {
    type V = StateView;

    open spec fn view(&self) -> StateView {
        StateView {
            text: self.text@,
            calls: call_views(self.calls@),
            current: self.current,
            stop_reason: self.stop_reason@,
            usage: self.usage,
        }
    }
}

/// What is to be made known of an event.
#[derive(Debug, PartialEq)]
pub enum Effect {
    /// More text has come.
    Delta { text: String },
    /// The model calls a tool.
    ToolCall { content: String, tool_name: Option<String> },
    /// The service searches the web.
    WebSearch,
    /// The service reports the tokens that the response took.
    Usage { usage: TokenUsage },
}

pub enum EffectView {
    Delta { text: Seq<char> },
    ToolCall { content: Seq<char>, tool_name: Option<Seq<char>> },
    WebSearch,
    Usage { usage: TokenUsage },
}

impl View for Effect {
    type V = EffectView;

    open spec fn view(&self) -> EffectView {
        match *self {
            Effect::Delta { text } => EffectView::Delta { text: text@ },
            Effect::ToolCall { content, tool_name } => EffectView::ToolCall {
                content: content@,
                tool_name: match tool_name {
                    Some(s) => Some(s@),
                    None => None,
                },
            },
            Effect::WebSearch => EffectView::WebSearch,
            Effect::Usage { usage } => EffectView::Usage { usage },
        }
    }
}

/// The state before the first event.
pub open spec fn initial_state() -> StateView {
    StateView {
        text: Seq::empty(),
        calls: Map::empty(),
        current: 0,
        stop_reason: Seq::empty(),
        usage: None,
    }
}

/// More text.
pub open spec fn text_delta(s: StateView, event: JsonView) -> (StateView, Option<EffectView>) {
    match event.at("delta"@).text() {
        Some(delta) => (
            StateView { text: s.text + delta, ..s },
            Some(EffectView::Delta { text: delta }),
        ),
        None => (s, None),
    }
}

/// The call at an index, one without anything where there is none.
pub open spec fn call_at(calls: Map<usize, CallView>, index: usize) -> CallView {
    if calls.contains_key(index) {
        calls[index]
    } else {
        CallView { call_id: Seq::empty(), name: Seq::empty(), arguments: Seq::empty() }
    }
}

/// More arguments: without an index they belong where the last ones belonged.
pub open spec fn arguments_delta(s: StateView, event: JsonView) -> (StateView, Option<EffectView>) {
    match event.at("delta"@).text() {
        Some(delta) => {
            let index = match event.at("output_index"@).unsigned() {
                Some(u) => u as usize,
                None => s.current,
            };
            let call = call_at(s.calls, index);
            let more = CallView { arguments: call.arguments + delta, ..call };
            (StateView { calls: s.calls.insert(index, more), current: index, ..s }, None)
        },
        None => (s, None),
    }
}

/// A new item: a tool call starts without arguments.
pub open spec fn item_added(s: StateView, event: JsonView) -> (StateView, Option<EffectView>) {
    match event.get("item"@) {
        Some(item) => {
            let kind = item.at("type"@).text();
            let name = item.at("name"@).text();
            if kind == Some("function_call"@) {
                let index = count(event.at("output_index"@).unsigned()) as usize;
                let call = CallView {
                    call_id: text_or(item.at("call_id"@).text(), Seq::empty()),
                    name: text_or(name, Seq::empty()),
                    arguments: Seq::empty(),
                };
                (
                    StateView { calls: s.calls.insert(index, call), ..s },
                    Some(
                        EffectView::ToolCall {
                            content: "calling "@ + text_or(name, "function"@),
                            tool_name: name,
                        },
                    ),
                )
            } else if kind == Some("web_search_call"@) {
                (s, Some(EffectView::WebSearch))
            } else {
                (s, None)
            }
        },
        None => (s, None),
    }
}

/// The end of the response, with its stop reason and, where it reports them, its tokens.
pub open spec fn completed(s: StateView, event: JsonView) -> (StateView, Option<EffectView>) {
    match event.get("response"@) {
        Some(response) => {
            let stopped = StateView { stop_reason: stop_reason(response), ..s };
            match response.get("usage"@) {
                Some(report) => {
                    let usage = token_usage(report);
                    (
                        StateView { usage: Some(usage), ..stopped },
                        Some(EffectView::Usage { usage }),
                    )
                },
                None => (stopped, None),
            }
        },
        None => (s, None),
    }
}

/// The state after an event, and what is to be made known of it.
pub open spec fn after_event(s: StateView, event: JsonView) -> (StateView, Option<EffectView>) {
    let kind = event.at("type"@).text();
    if kind == Some("response.output_text.delta"@) {
        text_delta(s, event)
    } else if kind == Some("response.function_call_arguments.delta"@) {
        arguments_delta(s, event)
    } else if kind == Some("response.output_item.added"@) {
        item_added(s, event)
    } else if kind == Some("response.completed"@) {
        completed(s, event)
    } else {
        (s, None)
    }
}

/// What is to be made known, if anything.
pub open spec fn effect_view(effect: Option<Effect>) -> Option<EffectView> {
    match effect {
        Some(e) => Some(e@),
        None => None,
    }
}

/// The greatest index of a set.
pub open spec fn greatest(indices: Set<usize>) -> usize {
    choose|k: usize| #[trigger]
        indices.contains(k) && forall|j: usize| #[trigger] indices.contains(j) ==> j <= k
}

/// The indices of a set in ascending order.
pub open spec fn in_order(indices: Set<usize>) -> Seq<usize>
    decreases indices.len(),
{
    if indices.finite() && indices.contains(greatest(indices)) {
        in_order(indices.remove(greatest(indices))).push(greatest(indices))
    } else {
        Seq::empty()
    }
}

/// The tool use that a call ends as.
pub open spec fn ended(call: CallView) -> ToolUseView {
    ToolUseView {
        id: call.call_id,
        name: call.name,
        input: input_or_empty(json_parsed(call.arguments)),
    }
}

/// The tool uses that calls end as, in the order of their indices.
pub open spec fn ended_calls(calls: Map<usize, CallView>) -> Seq<ToolUseView> {
    in_order(calls.dom()).map_values(|i: usize| ended(calls[i]))
}

/// What a response amounts to that ends in this state: its calls in the order of their
/// indices, its text as the only content, and a stop reason by its calls where it was
/// not complete. `charged` is what its reported usage is charged with.
pub open spec fn stream_result(s: StateView, charged: Option<u64>) -> StreamOnceView {
    let tool_uses = ended_calls(s.calls);
    StreamOnceView {
        text: s.text,
        tool_uses,
        stop_reason: if s.stop_reason.len() > 0 {
            s.stop_reason
        } else if tool_uses.len() == 0 {
            "end_turn"@
        } else {
            "tool_use"@
        },
        tokens_used: count(charged),
        ordered_content: if s.text.len() == 0 {
            Seq::empty()
        } else {
            seq![ContentBlockView::Text { text: s.text }]
        },
    }
}

/// In a sequence that increases each index is less than those after it.
proof fn lemma_increasing(keys: Seq<usize>)
    requires
        vstd::std_specs::btree::increasing_seq(keys),
    ensures
        forall|i: int, j: int| 0 <= i < j < keys.len() ==> keys[i] < keys[j],
{
    assert(vstd::laws_cmp::obeys_cmp::<usize>());
    assert forall|i: int, j: int| 0 <= i < j < keys.len() implies keys[i] < keys[j] by {
        assert(vstd::std_specs::cmp::OrdSpec::cmp_spec(&keys[i], &keys[j]) is Less);
    }
}

/// Indices that ascend are the indices of their set in ascending order.
pub proof fn lemma_ascending(keys: Seq<usize>)
    requires
        forall|i: int, j: int| 0 <= i < j < keys.len() ==> keys[i] < keys[j],
    ensures
        keys == in_order(keys.to_set()),
    decreases keys.len(),
{
    let indices = keys.to_set();
    broadcast use vstd::seq_lib::seq_to_set_is_finite;

    if keys.len() == 0 {
        assert(indices =~= Set::empty());
    } else {
        let last = keys.last();
        assert(indices.contains(last));
        assert forall|j: usize| #[trigger] indices.contains(j) implies j <= last by {
            let i = choose|i: int| 0 <= i < keys.len() && keys[i] == j;
            assert(i == keys.len() - 1 || keys[i] < keys[keys.len() - 1]);
        }
        assert(greatest(indices) == last);
        let rest = keys.drop_last();
        lemma_ascending(rest);
        assert(rest.to_set() =~= indices.remove(last)) by {
            assert forall|k: usize| #[trigger]
                indices.remove(last).contains(k) implies rest.to_set().contains(k) by {
                let i = choose|i: int| 0 <= i < keys.len() && keys[i] == k;
                assert(rest[i] == k);
            }
            assert forall|k: usize| #[trigger]
                rest.to_set().contains(k) implies indices.remove(last).contains(k) by {
                let i = choose|i: int| 0 <= i < rest.len() && rest[i] == k;
                assert(keys[i] == k);
            }
        }
        assert(keys =~= rest.push(last));
    }
}

/// The tool uses that calls end as, in the order of their indices.
fn end_calls(calls: &BTreeMap<usize, FunctionCall>) -> (r: Vec<ToolUseBlock>)
    ensures
        tool_use_views(r@) == ended_calls(call_views(calls@)),
{
    let mut r: Vec<ToolUseBlock> = Vec::new();
    let iter = calls.iter();
    let ghost pairs = vstd::std_specs::iter::IteratorSpec::remaining(&iter);
    let ghost keys = pairs.map_values(|kv: (&usize, &FunctionCall)| *kv.0);
    proof {
        lemma_increasing(keys);
        lemma_ascending(keys);
        assert forall|i: int| 0 <= i < pairs.len() implies calls@.contains_key(
            *(#[trigger] pairs[i]).0,
        ) && calls@[*pairs[i].0] == *pairs[i].1 by {}
        assert forall|k: usize| #[trigger] calls@.contains_key(k) implies keys.to_set().contains(
            k,
        ) by {
            let i = choose|i: int| 0 <= i < pairs.len() && pairs[i] == (&k, &calls@[k]);
            assert(keys[i] == k);
        }
        assert(keys.to_set() =~= call_views(calls@).dom());
    }
    for pair in it: iter
        invariant
            it.seq() == pairs,
            r@.len() == it.index(),
            forall|i: int| 0 <= i < r@.len() ==> (#[trigger] r@[i])@ == ended((*pairs[i].1)@),
    {
        let call = pair.1;
        let input = read_arguments(call.arguments.as_str());
        r.push(ToolUseBlock { id: call.call_id.clone(), name: call.name.clone(), input });
    }
    proof {
        assert forall|i: int| 0 <= i < r@.len() implies tool_use_views(r@)[i] == ended_calls(
            call_views(calls@),
        )[i] by {
            assert(r@[i]@ == ended((*pairs[i].1)@));
            assert(keys[i] == *pairs[i].0);
        }
        assert(tool_use_views(r@) =~= ended_calls(call_views(calls@)));
    }
    r
}

impl ResponseState {
    /// The state before the first event.
    pub fn new() -> (r: ResponseState)
        ensures
            r@ == initial_state(),
    {
        let r = ResponseState {
            text: String::new(),
            calls: BTreeMap::new(),
            current: 0,
            stop_reason: String::new(),
            usage: None,
        };
        assert(r@.calls =~= Map::empty());
        r
    }

    /// Takes in more text.
    fn take_text(&mut self, event: &Json) -> (r: Option<Effect>)
        ensures
            (final(self)@, effect_view(r)) == text_delta(old(self)@, event@),
    {
        match event.str_at("delta") {
            Some(delta) => {
                self.text.append(delta);
                Some(Effect::Delta { text: delta.to_owned() })
            },
            None => None,
        }
    }

    /// Takes in more arguments of a tool call.
    fn take_arguments(&mut self, event: &Json) -> (r: Option<Effect>)
        ensures
            (final(self)@, effect_view(r)) == arguments_delta(old(self)@, event@),
    {
        if let Some(delta) = event.str_at("delta") {
            let index: usize = match event.u64_at("output_index") {
                Some(u) => u as usize,
                None => self.current,
            };
            self.current = index;
            let mut call = match self.calls.remove(&index) {
                Some(call) => call,
                None => FunctionCall {
                    call_id: String::new(),
                    name: String::new(),
                    arguments: String::new(),
                },
            };
            call.arguments.append(delta);
            self.calls.insert(index, call);
            assert(self@.calls =~= arguments_delta(old(self)@, event@).0.calls);
        }
        None
    }

    /// Takes in a new item.
    fn take_item(&mut self, event: &Json) -> (r: Option<Effect>)
        ensures
            (final(self)@, effect_view(r)) == item_added(old(self)@, event@),
    {
        let item = match event.get("item") {
            Some(item) => item,
            None => {
                return None;
            },
        };
        proof {
            reveal_strlit("");
            assert(""@ =~= Seq::empty());
        }
        if has_text(item, "type", "function_call") {
            let index: usize = event.u64_at("output_index").unwrap_or(0) as usize;
            let call = FunctionCall {
                call_id: text_at(item, "call_id", ""),
                name: text_at(item, "name", ""),
                arguments: String::new(),
            };
            self.calls.insert(index, call);
            assert(self@.calls =~= item_added(old(self)@, event@).0.calls);
            let name = text_at(item, "name", "function");
            let tool_name = match item.str_at("name") {
                Some(s) => Some(s.to_owned()),
                None => None,
            };
            Some(
                Effect::ToolCall {
                    content: "calling ".to_owned().concat(name.as_str()),
                    tool_name,
                },
            )
        } else if has_text(item, "type", "web_search_call") {
            Some(Effect::WebSearch)
        } else {
            None
        }
    }

    /// Takes in the end of the response.
    fn take_end(&mut self, event: &Json) -> (r: Option<Effect>)
        ensures
            (final(self)@, effect_view(r)) == completed(old(self)@, event@),
    {
        match event.get("response") {
            Some(response) => {
                self.stop_reason = read_stop_reason(response);
                match response.get("usage") {
                    Some(report) => {
                        let usage = read_usage(report);
                        self.usage = Some(usage);
                        Some(Effect::Usage { usage })
                    },
                    None => None,
                }
            },
            None => None,
        }
    }

    /// Takes in an event, and returns what is to be made known of it.
    pub fn apply(&mut self, event: &Json) -> (r: Option<Effect>)
        ensures
            (final(self)@, effect_view(r)) == after_event(old(self)@, event@),
    {
        let kind = match event.str_at("type") {
            Some(kind) => kind,
            None => {
                return None;
            },
        };
        if same(kind, "response.output_text.delta") {
            self.take_text(event)
        } else if same(kind, "response.function_call_arguments.delta") {
            self.take_arguments(event)
        } else if same(kind, "response.output_item.added") {
            self.take_item(event)
        } else if same(kind, "response.completed") {
            self.take_end(event)
        } else {
            None
        }
    }

    /// What the response amounts to, given what its reported usage is charged with: nothing
    /// where none was reported.
    pub fn finish(self, charged: Option<u64>) -> (r: StreamOnceResult)
        ensures
            r@ == stream_result(self@, charged),
    {
        let tool_uses = end_calls(&self.calls);
        let mut ordered_content: Vec<ContentBlock> = Vec::new();
        if !self.text.as_str().is_empty() {
            ordered_content.push(ContentBlock::Text { text: self.text.clone() });
        }
        assert(block_views(ordered_content@) =~= stream_result(self@, charged).ordered_content);
        let stop_reason = if !self.stop_reason.as_str().is_empty() {
            self.stop_reason
        } else if tool_uses.is_empty() {
            "end_turn".to_owned()
        } else {
            "tool_use".to_owned()
        };
        let tokens_used: u64 = match charged {
            Some(n) => n,
            None => 0,
        };
        StreamOnceResult { text: self.text, tool_uses, stop_reason, tokens_used, ordered_content }
    }
}

} // verus!

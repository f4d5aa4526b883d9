//! Whole responses of the Responses API.

use vstd::prelude::*;
use vstd::string::*;

use crate::json::{json_parsed, json_read, object, Json, JsonView};
use crate::laws::response::{calls_a_tool, law_stop_reason_by_keys};
use crate::text::same;
use crate::types::{tool_use_views, ToolUseBlock, ToolUseView};

verus! {

/// The tokens that a response took.
#[derive(Debug, Clone, Copy, PartialEq, Eq)]
pub struct TokenUsage {
    pub input: u64,
    pub output: u64,
    /// The part of the input that the service had from its cache.
    pub cached: u64,
    /// The part of the input that it had not.
    pub uncached: u64,
}

/// What a whole response amounts to.
#[derive(Debug)]
pub struct Completion {
    pub text: String,
    pub tool_uses: Vec<ToolUseBlock>,
    pub stop_reason: String,
    pub usage: TokenUsage,
}

pub struct CompletionView {
    pub text: Seq<char>,
    pub tool_uses: Seq<ToolUseView>,
    pub stop_reason: Seq<char>,
    pub usage: TokenUsage,
}

impl View for Completion {
    type V = CompletionView;

    open spec fn view(&self) -> CompletionView {
        CompletionView {
            text: self.text@,
            tool_uses: tool_use_views(self.tool_uses@),
            stop_reason: self.stop_reason@,
            usage: self.usage,
        }
    }
}

/// Why a reply is no response.
#[derive(Debug)]
pub enum ReplyError {
    /// The service refused the request.
    Status { message: String },
    /// The reply is no JSON text: the error that reading it gives.
    Malformed { error: serde_json::Error },
}

/// A text, or another where there is none.
pub open spec fn text_or(text: Option<Seq<char>>, other: Seq<char>) -> Seq<char> {
    match text {
        Some(s) => s,
        None => other,
    }
}

/// A number, zero where there is none.
pub open spec fn count(n: Option<u64>) -> u64 {
    match n {
        Some(u) => u,
        None => 0,
    }
}

/// The items of an array, none where there is no array.
pub open spec fn items_or_none(j: JsonView) -> Seq<JsonView> {
    match j.items() {
        Some(items) => items,
        None => Seq::empty(),
    }
}

/// The input of a tool call by what its arguments were read as: an empty object where
/// they could not be read.
pub open spec fn input_or_empty(parsed: Option<JsonView>) -> JsonView {
    match parsed {
        Some(j) => j,
        None => object(Seq::empty()),
    }
}

/// The response stopped because it was out of tokens.
pub open spec fn cut_short(response: JsonView) -> bool {
    &&& response.at("status"@).text() == Some("incomplete"@)
    &&& response.at("incomplete_details"@).at("reason"@).text() == Some("max_output_tokens"@)
}

/// The item is a call of a tool.
pub open spec fn is_call(item: JsonView) -> bool {
    item.at("type"@).text() == Some("function_call"@)
}

/// Why a response stopped.
pub open spec fn stop_reason(response: JsonView) -> Seq<char> {
    let items = items_or_none(response.at("output"@));
    if exists|i: int| 0 <= i < items.len() && is_call(#[trigger] items[i]) {
        "tool_use"@
    } else if cut_short(response) {
        "max_tokens"@
    } else {
        "end_turn"@
    }
}

/// The text of the parts of a message that are text.
pub open spec fn parts_text(parts: Seq<JsonView>) -> Seq<char>
    decreases parts.len(),
{
    if parts.len() == 0 {
        Seq::empty()
    } else {
        let before = parts_text(parts.drop_last());
        let part = parts.last();
        if part.at("type"@).text() == Some("output_text"@) {
            before + text_or(part.at("text"@).text(), Seq::empty())
        } else {
            before
        }
    }
}

/// The text of an item of a response: only a message has any.
pub open spec fn item_text(item: JsonView) -> Seq<char> {
    if item.at("type"@).text() == Some("message"@) {
        parts_text(items_or_none(item.at("content"@)))
    } else {
        Seq::empty()
    }
}

/// The text of a response.
pub open spec fn output_text(items: Seq<JsonView>) -> Seq<char>
    decreases items.len(),
{
    if items.len() == 0 {
        Seq::empty()
    } else {
        output_text(items.drop_last()) + item_text(items.last())
    }
}

/// The tool call that an item carries.
pub open spec fn called(item: JsonView) -> ToolUseView {
    ToolUseView {
        id: text_or(item.at("call_id"@).text(), Seq::empty()),
        name: text_or(item.at("name"@).text(), Seq::empty()),
        input: input_or_empty(json_parsed(text_or(item.at("arguments"@).text(), "{}"@))),
    }
}

/// The tool calls of a response.
pub open spec fn output_calls(items: Seq<JsonView>) -> Seq<ToolUseView>
    decreases items.len(),
{
    if items.len() == 0 {
        Seq::empty()
    } else {
        let before = output_calls(items.drop_last());
        if is_call(items.last()) {
            before.push(called(items.last()))
        } else {
            before
        }
    }
}

/// The tokens that a report of the service speaks of.
pub open spec fn token_usage(usage: JsonView) -> TokenUsage {
    let input = count(usage.at("input_tokens"@).unsigned());
    let cached = count(usage.at("input_tokens_details"@).at("cached_tokens"@).unsigned());
    TokenUsage {
        input,
        output: count(usage.at("output_tokens"@).unsigned()),
        cached,
        uncached: if cached <= input {
            (input - cached) as u64
        } else {
            0
        },
    }
}

/// What a response amounts to.
pub open spec fn completion(response: JsonView) -> CompletionView {
    let items = items_or_none(response.at("output"@));
    CompletionView {
        text: output_text(items),
        tool_uses: output_calls(items),
        stop_reason: stop_reason(response),
        usage: token_usage(response.at("usage"@)),
    }
}

/// A string that is there, or another one.
fn owned_or(text: Option<&str>, other: &str) -> (r: String)
    ensures
        r@ == text_or(
            match text {
                Some(s) => Some(s@),
                None => None,
            },
            other@,
        ),
{
    match text {
        Some(s) => s.to_owned(),
        None => other.to_owned(),
    }
}

/// The string at a key is the given one.
pub(crate) fn has_text(j: &Json, key: &str, text: &str) -> (r: bool)
    ensures
        r == (j@.at(key@).text() == Some(text@)),
{
    match j.str_at(key) {
        Some(s) => same(s, text),
        None => false,
    }
}

/// The string at a key, or another one.
pub(crate) fn text_at(j: &Json, key: &str, other: &str) -> (r: String)
    ensures
        r@ == text_or(j@.at(key@).text(), other@),
{
    owned_or(j.str_at(key), other)
}

/// The input of a tool call by what its arguments were read as.
pub fn tool_input(parsed: Option<Json>) -> (r: Json)
    ensures
        r@ == input_or_empty(
            match parsed {
                Some(j) => Some(j@),
                None => None,
            },
        ),
{
    match parsed {
        Some(j) => j,
        None => {
            let entries: Vec<(String, Json)> = Vec::new();
            assert(Json::entry_models(entries@) =~= Seq::empty());
            Json::Object(entries)
        },
    }
}

/// The input of a tool call by the text of its arguments.
pub fn read_arguments(arguments: &str) -> (r: Json)
    ensures
        r@ == input_or_empty(json_parsed(arguments@)),
{
    match Json::parse(arguments) {
        Ok(j) => tool_input(Some(j)),
        Err(_) => tool_input(None),
    }
}

/// The tokens that a report of the service speaks of.
pub fn read_usage(usage: &Json) -> (r: TokenUsage)
    ensures
        r == token_usage(usage@),
{
    let input: u64 = usage.u64_at("input_tokens").unwrap_or(0);
    let output: u64 = usage.u64_at("output_tokens").unwrap_or(0);
    let cached: u64 = match usage.get("input_tokens_details") {
        Some(details) => details.u64_at("cached_tokens").unwrap_or(0),
        None => 0,
    };
    TokenUsage { input, output, cached, uncached: input.saturating_sub(cached) }
}

/// Why a response stopped: for a tool, or for want of tokens, or at the end of its turn.
pub fn read_stop_reason(response: &Json) -> (r: String)
    ensures
        r@ == stop_reason(response@),
        calls_a_tool(response@) <==> r@ == "tool_use"@,
        !calls_a_tool(response@) ==> (r@ == "max_tokens"@ <==> response@.get("status"@) == Some(
            JsonView::Text("incomplete"@),
        ) && response@.at("incomplete_details"@).get("reason"@) == Some(
            JsonView::Text("max_output_tokens"@),
        )),
{
    proof {
        law_stop_reason_by_keys(response@, response@.at("incomplete_details"@));
    }
    let ghost items = items_or_none(response@.at("output"@));
    if let Some(output) = response.array_at("output") {
        assert(items == Json::models(output@));
        for i in 0..output.len()
            invariant
                items == items_or_none(response@.at("output"@)),
                items == Json::models(output@),
                forall|j: int| 0 <= j < i ==> !is_call(#[trigger] items[j]),
        {
            assert(items[i as int] == output@[i as int]@);
            if has_text(&output[i], "type", "function_call") {
                proof {
                    law_stop_reason_by_keys(response@, response@.at("incomplete_details"@));
                }
                return "tool_use".to_owned();
            }
        }
    }
    if has_text(response, "status", "incomplete") {
        if let Some(details) = response.get("incomplete_details") {
            if has_text(details, "reason", "max_output_tokens") {
                return "max_tokens".to_owned();
            }
        }
    }
    "end_turn".to_owned()
}

/// Appends the text of a message.
fn add_parts(text: &mut String, parts: &Vec<Json>)
    ensures
        final(text)@ == old(text)@ + parts_text(Json::models(parts@)),
{
    let ghost before = text@;
    let ghost views = Json::models(parts@);
    assert(text@ =~= before + parts_text(views.take(0)));
    for i in 0..parts.len()
        invariant
            views == Json::models(parts@),
            text@ == before + parts_text(views.take(i as int)),
    {
        let part = &parts[i];
        proof {
            assert(views.take(i + 1).drop_last() =~= views.take(i as int));
            assert(views.take(i + 1).last() == part@);
        }
        if has_text(part, "type", "output_text") {
            if let Some(t) = part.str_at("text") {
                text.append(t);
            }
        }
        assert(text@ =~= before + parts_text(views.take(i + 1)));
    }
    assert(views.take(parts.len() as int) =~= views);
}

/// The tool call that an item carries.
fn read_call(item: &Json) -> (r: ToolUseBlock)
    ensures
        r@ == called(item@),
{
    let arguments = text_at(item, "arguments", "{}");
    let input = read_arguments(arguments.as_str());
    proof {
        reveal_strlit("");
        assert(""@ =~= Seq::empty());
    }
    ToolUseBlock { id: text_at(item, "call_id", ""), name: text_at(item, "name", ""), input }
}

/// What a response amounts to.
pub fn read_completion(response: &Json) -> (r: Completion)
    ensures
        r@ == completion(response@),
        r.text@ == completion(response@).text,
        tool_use_views(r.tool_uses@) == completion(response@).tool_uses,
        r.stop_reason@ == stop_reason(response@),
        r.usage == token_usage(response@.at("usage"@)),
{
    let ghost items = items_or_none(response@.at("output"@));
    let mut text = String::new();
    let mut tool_uses: Vec<ToolUseBlock> = Vec::new();
    if let Some(output) = response.array_at("output") {
        assert(tool_use_views(tool_uses@) =~= output_calls(items.take(0)));
        for i in 0..output.len()
            invariant
                items == Json::models(output@),
                text@ == output_text(items.take(i as int)),
                tool_use_views(tool_uses@) == output_calls(items.take(i as int)),
        {
            let item = &output[i];
            proof {
                assert(items.take(i + 1).drop_last() =~= items.take(i as int));
                assert(items.take(i + 1).last() == item@);
                reveal_strlit("message");
                reveal_strlit("function_call");
                assert("message"@.len() != "function_call"@.len());
            }
            let ghost calls = tool_use_views(tool_uses@);
            if has_text(item, "type", "message") {
                if let Some(parts) = item.array_at("content") {
                    add_parts(&mut text, parts);
                }
            } else if has_text(item, "type", "function_call") {
                tool_uses.push(read_call(item));
                assert(tool_use_views(tool_uses@) =~= calls.push(called(item@)));
            }
            assert(text@ =~= output_text(items.take(i + 1)));
        }
        assert(items.take(output.len() as int) =~= items);
    }
    assert(tool_use_views(tool_uses@) =~= output_calls(items));
    let usage = match response.get("usage") {
        Some(usage) => read_usage(usage),
        None => TokenUsage { input: 0, output: 0, cached: 0, uncached: 0 },
    };
    Completion { text, tool_uses, stop_reason: read_stop_reason(response), usage }
}

/// What the service's reply to a request for a whole response amounts to: `success`
/// tells whether its status is one of success, `status` is how the status reads.
pub fn read_reply(success: bool, status: &str, body: &str) -> (r: Result<Completion, ReplyError>)
    ensures
        match r {
            Ok(c) => success && (json_read(body@) matches Ok(response) && c@ == completion(
                response,
            )),
            Err(ReplyError::Status { message }) => !success && message@ == "OpenAI API error "@
                + status@ + ": "@ + body@,
            Err(ReplyError::Malformed { error }) => success && (json_read(body@) matches Err(e)
                && error == e),
        },
{
    if !success {
        let message = "OpenAI API error ".to_owned().concat(status).concat(": ").concat(body);
        return Err(ReplyError::Status { message });
    }
    match Json::parse(body) {
        Ok(response) => Ok(read_completion(&response)),
        Err(error) => Err(ReplyError::Malformed { error }),
    }
}

/// What a refused request for a streamed response is answered: `body` is the body of
/// the reply where it could be read.
pub fn stream_refusal(status: &str, body: Option<&str>) -> (r: String)
    ensures
        r@ == "OpenAI stream error "@ + status@ + ": "@ + text_or(
            match body {
                Some(s) => Some(s@),
                None => None,
            },
            Seq::empty(),
        ),
{
    proof {
        reveal_strlit("");
        assert(""@ =~= Seq::empty());
    }
    let text = owned_or(body, "");
    "OpenAI stream error ".to_owned().concat(status).concat(": ").concat(text.as_str())
}

} // verus!

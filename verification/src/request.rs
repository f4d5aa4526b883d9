//! Requests to the Responses API.

use vstd::prelude::*;
use vstd::string::*;

use crate::json::{object, set_entry, Json, JsonView};
use crate::laws::request::law_request;
use crate::messages::{input_items, messages_to_openai, tool_items, tools_to_openai};
use crate::text::joined;
use crate::types::{
    definition_views, message_views, Message, MessageView, ToolDefinition, ToolDefinitionView,
};

verus! {

/// A request that is to be posted.
pub struct ApiRequest {
    pub url: String,
    pub authorization: String,
    pub content_type: String,
    pub body: Json,
}

pub struct ApiRequestView {
    pub url: Seq<char>,
    pub authorization: Seq<char>,
    pub content_type: Seq<char>,
    pub body: JsonView,
}

impl View for ApiRequest {
    type V = ApiRequestView;

    open spec fn view(&self) -> ApiRequestView {
        ApiRequestView {
            url: self.url@,
            authorization: self.authorization@,
            content_type: self.content_type@,
            body: self.body@,
        }
    }
}

/// The number of tokens from which on the service compacts a streamed conversation.
pub const COMPACT_THRESHOLD: u64 = 100000;

/// What a streamed request asks for the context to be done with.
pub open spec fn context_management() -> JsonView {
    JsonView::Array(
        seq![
            object(
                seq![
                    ("type"@, JsonView::Text("compaction"@)),
                    ("compact_threshold"@, JsonView::Integer(COMPACT_THRESHOLD as int)),
                ],
            ),
        ],
    )
}

/// The entries that every request of its kind has.
pub open spec fn fixed_entries(
    model: Seq<char>,
    max_tokens: u64,
    input: Seq<JsonView>,
    stream: bool,
) -> Seq<(Seq<char>, JsonView)> {
    let common = seq![
        ("model"@, JsonView::Text(model)),
        ("max_output_tokens"@, JsonView::Integer(max_tokens as int)),
        ("input"@, JsonView::Array(input)),
        ("store"@, JsonView::Bool(false)),
        ("stream"@, JsonView::Bool(stream)),
    ];
    if stream {
        common.push(("context_management"@, context_management()))
    } else {
        common
    }
}

/// The entries for instructions and tools, each only where there are any.
pub open spec fn optional_entries(instructions: Seq<char>, tools: Seq<JsonView>) -> Seq<
    (Seq<char>, JsonView),
> {
    let told = if instructions.len() == 0 {
        Seq::empty()
    } else {
        seq![("instructions"@, JsonView::Text(instructions))]
    };
    if tools.len() == 0 {
        told
    } else {
        told.push(("tools"@, JsonView::Array(tools)))
    }
}

/// The body of a request.
pub open spec fn request_body(
    model: Seq<char>,
    max_tokens: u64,
    input: Seq<JsonView>,
    instructions: Seq<char>,
    tools: Seq<JsonView>,
    stream: bool,
) -> JsonView {
    object(
        fixed_entries(model, max_tokens, input, stream) + optional_entries(instructions, tools),
    )
}

/// A request with a conversation and tools.
pub open spec fn api_request(
    api_key: Seq<char>,
    model: Seq<char>,
    system: Seq<Seq<char>>,
    tool_defs: Seq<ToolDefinitionView>,
    messages: Seq<MessageView>,
    max_tokens: u64,
    base_url: Seq<char>,
    stream: bool,
) -> ApiRequestView {
    ApiRequestView {
        url: base_url + "/v1/responses"@,
        authorization: "Bearer "@ + api_key,
        content_type: "application/json"@,
        body: request_body(
            model,
            max_tokens,
            input_items(messages),
            joined(system, "\n\n"@),
            tool_items(tool_defs, stream),
            stream,
        ),
    }
}

/// What a streamed request asks for the context to be done with.
fn make_context_management() -> (r: Json)
    ensures
        r@ == context_management(),
{
    let mut entries: Vec<(String, Json)> = Vec::new();
    set_entry(&mut entries, "type", Json::Text("compaction".to_owned()));
    set_entry(&mut entries, "compact_threshold", Json::Unsigned(COMPACT_THRESHOLD));
    assert(Json::entry_models(entries@) =~= seq![
        ("type"@, JsonView::Text("compaction"@)),
        ("compact_threshold"@, JsonView::Integer(COMPACT_THRESHOLD as int)),
    ]);
    let mut items: Vec<Json> = Vec::new();
    items.push(Json::Object(entries));
    let r = Json::Array(items);
    assert(Json::models(items@) =~= context_management()->Array_0);
    r
}

/// The body of a request.
fn make_body(
    model: &str,
    max_tokens: u64,
    input: Vec<Json>,
    instructions: String,
    tools: Vec<Json>,
    stream: bool,
) -> (r: Json)
    ensures
        r@ == request_body(
            model@,
            max_tokens,
            Json::models(input@),
            instructions@,
            Json::models(tools@),
            stream,
        ),
{
    let mut entries: Vec<(String, Json)> = Vec::new();
    set_entry(&mut entries, "model", Json::Text(model.to_owned()));
    set_entry(&mut entries, "max_output_tokens", Json::Unsigned(max_tokens));
    set_entry(&mut entries, "input", Json::Array(input));
    set_entry(&mut entries, "store", Json::Bool(false));
    set_entry(&mut entries, "stream", Json::Bool(stream));
    if stream {
        set_entry(&mut entries, "context_management", make_context_management());
    }
    let ghost fixed = fixed_entries(model@, max_tokens, Json::models(input@), stream);
    assert(Json::entry_models(entries@) =~= fixed);
    let ghost told = instructions@;
    let ghost tool_views = Json::models(tools@);
    if !instructions.as_str().is_empty() {
        set_entry(&mut entries, "instructions", Json::Text(instructions));
    }
    if !tools.is_empty() {
        set_entry(&mut entries, "tools", Json::Array(tools));
    }
    assert(Json::entry_models(entries@) =~= fixed + optional_entries(told, tool_views));
    Json::Object(entries)
}

/// A request with a conversation and tools.
fn make_request(
    api_key: &str,
    model: &str,
    system: &[&str],
    tool_defs: &[ToolDefinition],
    messages: &[Message],
    max_tokens: u64,
    base_url: &str,
    stream: bool,
) -> (r: ApiRequest)
    ensures
        r@ == api_request(
            api_key@,
            model@,
            system@.map_values(|part: &str| part@),
            definition_views(tool_defs@),
            message_views(messages@),
            max_tokens,
            base_url@,
            stream,
        ),
        ({
            let told = joined(system@.map_values(|part: &str| part@), "\n\n"@);
            &&& told.len() > 0 ==> r.body@.get("instructions"@) == Some(JsonView::Text(told))
            &&& told.len() == 0 ==> r.body@.get("instructions"@) is None
        }),
{
    let (instructions, input) = messages_to_openai(system, messages);
    let tools = tools_to_openai(tool_defs, stream);
    let body = make_body(model, max_tokens, input, instructions, tools, stream);
    proof {
        law_request(
            api_key@,
            model@,
            system@.map_values(|part: &str| part@),
            definition_views(tool_defs@),
            message_views(messages@),
            max_tokens,
            base_url@,
            stream,
        );
    }
    ApiRequest {
        url: base_url.to_owned().concat("/v1/responses"),
        authorization: "Bearer ".to_owned().concat(api_key),
        content_type: "application/json".to_owned(),
        body,
    }
}

/// The request for a whole response.
pub fn complete_request(
    api_key: &str,
    model: &str,
    system: &[&str],
    tool_defs: &[ToolDefinition],
    messages: &[Message],
    max_tokens: u64,
    base_url: &str,
) -> (r: ApiRequest)
    ensures
        r@ == api_request(
            api_key@,
            model@,
            system@.map_values(|part: &str| part@),
            definition_views(tool_defs@),
            message_views(messages@),
            max_tokens,
            base_url@,
            false,
        ),
        ({
            let told = joined(system@.map_values(|part: &str| part@), "\n\n"@);
            &&& told.len() > 0 ==> r.body@.get("instructions"@) == Some(JsonView::Text(told))
            &&& told.len() == 0 ==> r.body@.get("instructions"@) is None
        }),
{
    make_request(api_key, model, system, tool_defs, messages, max_tokens, base_url, false)
}

/// The request for a streamed response.
pub fn stream_request(
    api_key: &str,
    model: &str,
    system: &[&str],
    tool_defs: &[ToolDefinition],
    messages: &[Message],
    max_tokens: u64,
    base_url: &str,
) -> (r: ApiRequest)
    ensures
        r@ == api_request(
            api_key@,
            model@,
            system@.map_values(|part: &str| part@),
            definition_views(tool_defs@),
            message_views(messages@),
            max_tokens,
            base_url@,
            true,
        ),
        ({
            let told = joined(system@.map_values(|part: &str| part@), "\n\n"@);
            &&& told.len() > 0 ==> r.body@.get("instructions"@) == Some(JsonView::Text(told))
            &&& told.len() == 0 ==> r.body@.get("instructions"@) is None
        }),
{
    make_request(api_key, model, system, tool_defs, messages, max_tokens, base_url, true)
}

} // verus!

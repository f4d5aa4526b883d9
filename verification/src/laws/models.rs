//! That the models of the types leave nothing out.

use vstd::prelude::*;
use vstd::string::*;

use crate::events::{ChatMessage, ServerEvent, ServerEventView};
use crate::json::{Json, JsonView};
use crate::request::ApiRequest;
use crate::response::Completion;
use crate::state::{call_views, Effect, EffectView, FunctionCall, ResponseState};
use crate::stream::{effect_views, Line, LineView};
use crate::types::{
    block_views, definition_views, message_views, tool_use_views, ContentBlock, ContentBlockView,
    ImageSource, ImageSourceView, Message, MessageView, StreamOnceResult, ToolDefinition,
    ToolUseBlock,
};

verus! {

/// Lists are modelled item by item, each at its place and none left out.
pub proof fn law_lists(
    messages: Seq<Message>,
    blocks: Seq<ContentBlock>,
    definitions: Seq<ToolDefinition>,
    tool_uses: Seq<ToolUseBlock>,
    effects: Seq<Effect>,
    items: Seq<Json>,
)
    ensures
        message_views(messages).len() == messages.len(),
        forall|i: int| 0 <= i < messages.len() ==> #[trigger] message_views(messages)[i] == messages[i]@,
        block_views(blocks).len() == blocks.len(),
        forall|i: int| 0 <= i < blocks.len() ==> #[trigger] block_views(blocks)[i] == blocks[i]@,
        definition_views(definitions).len() == definitions.len(),
        forall|i: int|
            0 <= i < definitions.len() ==> #[trigger] definition_views(definitions)[i]
                == definitions[i]@,
        tool_use_views(tool_uses).len() == tool_uses.len(),
        forall|i: int|
            0 <= i < tool_uses.len() ==> #[trigger] tool_use_views(tool_uses)[i] == tool_uses[i]@,
        effect_views(effects).len() == effects.len(),
        forall|i: int| 0 <= i < effects.len() ==> #[trigger] effect_views(effects)[i] == effects[i]@,
        Json::models(items).len() == items.len(),
        forall|i: int| 0 <= i < items.len() ==> #[trigger] Json::models(items)[i] == items[i]@,
{
}

/// A conversation is modelled by all that its messages, their blocks and their images hold.
pub proof fn law_conversation_models(
    message: Message,
    block: ContentBlock,
    source: ImageSource,
    definition: ToolDefinition,
)
    ensures
        match message {
            Message::User { content } => message@ == (MessageView::User {
                content: block_views(content@),
            }),
            Message::Assistant { content } => message@ == (MessageView::Assistant {
                content: block_views(content@),
            }),
        },
        match block {
            ContentBlock::Text { text } => block@ == (ContentBlockView::Text { text: text@ }),
            ContentBlock::Image { source } => block@ == (ContentBlockView::Image {
                source: source@,
            }),
            ContentBlock::ToolUse { id, name, input } => block@ == (ContentBlockView::ToolUse {
                id: id@,
                name: name@,
                input: input@,
            }),
            ContentBlock::ToolResult { tool_use_id, content } => block@ == (
            ContentBlockView::ToolResult { tool_use_id: tool_use_id@, content: content@ }),
            ContentBlock::Compaction { content } => block@ == (ContentBlockView::Compaction {
                content: content@,
            }),
        },
        match source {
            ImageSource::Base64 { media_type, data } => source@ == (ImageSourceView::Base64 {
                media_type: media_type@,
                data: data@,
            }),
            ImageSource::Url { url } => source@ == (ImageSourceView::Url { url: url@ }),
        },
        definition@.name == definition.name@,
        definition@.description == definition.description@,
        definition@.parameters == definition.parameters@,
{
}

/// Requests and results are modelled by all that they hold.
pub proof fn law_result_models(
    request: ApiRequest,
    completion: Completion,
    streamed: StreamOnceResult,
    tool_use: ToolUseBlock,
)
    ensures
        request@.url == request.url@,
        request@.authorization == request.authorization@,
        request@.content_type == request.content_type@,
        request@.body == request.body@,
        completion@.text == completion.text@,
        completion@.tool_uses == tool_use_views(completion.tool_uses@),
        completion@.stop_reason == completion.stop_reason@,
        completion@.usage == completion.usage,
        streamed@.text == streamed.text@,
        streamed@.tool_uses == tool_use_views(streamed.tool_uses@),
        streamed@.stop_reason == streamed.stop_reason@,
        streamed@.tokens_used == streamed.tokens_used,
        streamed@.ordered_content == block_views(streamed.ordered_content@),
        tool_use@.id == tool_use.id@,
        tool_use@.name == tool_use.name@,
        tool_use@.input == tool_use.input@,
{
}

/// A stream is modelled by all that is kept of it, and by all that its lines and what is to
/// be made known of them hold.
pub proof fn law_stream_models(
    state: ResponseState,
    call: FunctionCall,
    effect: Effect,
    line: Line,
    k: usize,
)
    ensures
        state@.text == state.text@,
        state@.calls == call_views(state.calls@),
        call_views(state.calls@).contains_key(k) <==> state.calls@.contains_key(k),
        state.calls@.contains_key(k) ==> call_views(state.calls@)[k] == state.calls@[k]@,
        state@.current == state.current,
        state@.stop_reason == state.stop_reason@,
        state@.usage == state.usage,
        call@.call_id == call.call_id@,
        call@.name == call.name@,
        call@.arguments == call.arguments@,
        match effect {
            Effect::Delta { text } => effect@ == (EffectView::Delta { text: text@ }),
            Effect::ToolCall { content, tool_name: Some(name) } => effect@ == (
            EffectView::ToolCall { content: content@, tool_name: Some(name@) }),
            Effect::ToolCall { content, tool_name: None } => effect@ == (EffectView::ToolCall {
                content: content@,
                tool_name: None,
            }),
            Effect::WebSearch => effect@ is WebSearch,
            Effect::Usage { usage } => effect@ == (EffectView::Usage { usage }),
        },
        match line {
            Line::Skip => line@ is Skip,
            Line::Done => line@ is Done,
            Line::Data(data) => line@ == LineView::Data(data@),
        },
{
}

/// What subscribers are told is modelled by all that it holds.
pub proof fn law_event_models(event: ServerEvent, message: ChatMessage)
    ensures
        match event {
            ServerEvent::ChatStreamDelta { instance_slug, chat_id, message_id, delta } => event@
                == (ServerEventView::ChatStreamDelta {
                instance_slug: instance_slug@,
                chat_id: chat_id@,
                message_id: message_id@,
                delta: delta@,
            }),
            ServerEvent::ChatMessageCreated { instance_slug, chat_id, message } => event@ == (
            ServerEventView::ChatMessageCreated {
                instance_slug: instance_slug@,
                chat_id: chat_id@,
                message: message@,
            }),
        },
        message@.id == message.id@,
        message@.role == message.role,
        message@.content == message.content@,
        message@.created_at == message.created_at@,
        message@.kind == message.kind,
        message.tool_name matches Some(name) ==> message@.tool_name == Some(name@),
        message.tool_name is None ==> message@.tool_name is None,
        message@.mcp_app_html is None <==> message.mcp_app_html is None,
        message@.mcp_app_input is None <==> message.mcp_app_input is None,
        message@.model is None <==> message.model is None,
{
}

/// A JSON value is modelled by what it was made as.
pub proof fn law_json_models(b: bool, u: u64, i: i64, s: String, items: Vec<Json>)
    ensures
        Json::Null@ == JsonView::Null,
        Json::Bool(b)@ == JsonView::Bool(b),
        Json::Unsigned(u)@ == JsonView::Integer(u as int),
        Json::Signed(i)@ == JsonView::Integer(i as int),
        Json::Text(s)@ == JsonView::Text(s@),
        Json::Array(items)@ == JsonView::Array(Json::models(items@)),
{
}

} // verus!

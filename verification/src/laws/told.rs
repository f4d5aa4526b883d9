//! What subscribers are told.

use vstd::prelude::*;
use vstd::string::*;

use crate::events::{announced, ChatRole, MessageKind, ServerEventView};
use crate::state::EffectView;

verus! {

/// More text is told as it is, to the chat and for the message that it belongs to.
pub proof fn law_told_text(
    text: Seq<char>,
    instance_slug: Seq<char>,
    chat_id: Seq<char>,
    message_id: Seq<char>,
    named_at: Seq<char>,
    created_at: Seq<char>,
)
    ensures
        announced(
            EffectView::Delta { text },
            instance_slug,
            chat_id,
            message_id,
            named_at,
            created_at,
        ) == Some(
            ServerEventView::ChatStreamDelta { instance_slug, chat_id, message_id, delta: text },
        ),
{
}

/// A tool at work is told as a new message of the assistant in the chat, of the kind of tool
/// calls: one that the model calls with what is said of it and its name, the search of the
/// web under a name of its own. The ids of the two begin differently. A report of tokens is
/// not told.
pub proof fn law_told_tool(
    effect: EffectView,
    instance_slug: Seq<char>,
    chat_id: Seq<char>,
    message_id: Seq<char>,
    named_at: Seq<char>,
    created_at: Seq<char>,
)
    ensures
        ({
            let told = announced(effect, instance_slug, chat_id, message_id, named_at, created_at);
            &&& told is None <==> effect is Usage
            &&& told is Some ==> (told->0 is ChatStreamDelta <==> effect is Delta)
            &&& told matches Some(
                ServerEventView::ChatMessageCreated { instance_slug: to, chat_id: at, message },
            ) ==> {
                &&& to == instance_slug
                &&& at == chat_id
                &&& message.role == ChatRole::Assistant
                &&& message.kind == MessageKind::ToolCall
                &&& message.created_at == created_at
                &&& message.mcp_app_html is None
                &&& message.mcp_app_input is None
                &&& message.model is None
                &&& effect is WebSearch ==> {
                    &&& message.id == "ws_"@ + named_at
                    &&& message.content == "searching the web"@
                    &&& message.tool_name == Some("web_search"@)
                }
                &&& effect matches EffectView::ToolCall { content, tool_name } ==> {
                    &&& message.id == "fn_"@ + named_at
                    &&& message.content == content
                    &&& message.tool_name == tool_name
                }
            }
        }),
{
}

} // verus!

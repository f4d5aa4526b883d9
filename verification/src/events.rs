//! What subscribers of a chat are told while a response comes in.

use vstd::prelude::*;
use vstd::string::*;

use crate::state::{Effect, EffectView};

verus! {

/// Who a chat message is from.
#[derive(Debug, Clone, Copy, PartialEq, Eq)]
pub enum ChatRole {
    User,
    Assistant,
}

/// What a chat message is.
#[derive(Debug, Clone, Copy, PartialEq, Eq)]
pub enum MessageKind {
    Message,
    ToolCall,
}

/// A message of a chat; the times in it are milliseconds since the epoch.
#[derive(Debug, Clone, PartialEq)]
pub struct ChatMessage {
    pub id: String,
    pub role: ChatRole,
    pub content: String,
    pub created_at: String,
    pub kind: MessageKind,
    pub tool_name: Option<String>,
    pub mcp_app_html: Option<String>,
    pub mcp_app_input: Option<String>,
    pub model: Option<String>,
}

/// What subscribers are told.
#[derive(Debug, Clone, PartialEq)]
pub enum ServerEvent {
    ChatStreamDelta {
        instance_slug: String,
        chat_id: String,
        message_id: String,
        delta: String,
    },
    ChatMessageCreated { instance_slug: String, chat_id: String, message: ChatMessage },
}

pub struct ChatMessageView {
    pub id: Seq<char>,
    pub role: ChatRole,
    pub content: Seq<char>,
    pub created_at: Seq<char>,
    pub kind: MessageKind,
    pub tool_name: Option<Seq<char>>,
    pub mcp_app_html: Option<Seq<char>>,
    pub mcp_app_input: Option<Seq<char>>,
    pub model: Option<Seq<char>>,
}

pub enum ServerEventView {
    ChatStreamDelta {
        instance_slug: Seq<char>,
        chat_id: Seq<char>,
        message_id: Seq<char>,
        delta: Seq<char>,
    },
    ChatMessageCreated { instance_slug: Seq<char>, chat_id: Seq<char>, message: ChatMessageView },
}

/// The characters of a text that may be missing.
pub open spec fn option_text(text: Option<String>) -> Option<Seq<char>> {
    match text {
        Some(s) => Some(s@),
        None => None,
    }
}

impl View for ChatMessage {
    type V = ChatMessageView;

    open spec fn view(&self) -> ChatMessageView {
        ChatMessageView {
            id: self.id@,
            role: self.role,
            content: self.content@,
            created_at: self.created_at@,
            kind: self.kind,
            tool_name: option_text(self.tool_name),
            mcp_app_html: option_text(self.mcp_app_html),
            mcp_app_input: option_text(self.mcp_app_input),
            model: option_text(self.model),
        }
    }
}

impl View for ServerEvent {
    type V = ServerEventView;

    open spec fn view(&self) -> ServerEventView {
        match *self {
            ServerEvent::ChatStreamDelta { instance_slug, chat_id, message_id, delta } => {
                ServerEventView::ChatStreamDelta {
                    instance_slug: instance_slug@,
                    chat_id: chat_id@,
                    message_id: message_id@,
                    delta: delta@,
                }
            },
            ServerEvent::ChatMessageCreated { instance_slug, chat_id, message } => {
                ServerEventView::ChatMessageCreated {
                    instance_slug: instance_slug@,
                    chat_id: chat_id@,
                    message: message@,
                }
            },
        }
    }
}

/// The message that announces a tool at work.
pub open spec fn tool_message(
    id: Seq<char>,
    content: Seq<char>,
    tool_name: Option<Seq<char>>,
    created_at: Seq<char>,
) -> ChatMessageView {
    ChatMessageView {
        id,
        role: ChatRole::Assistant,
        content,
        created_at,
        kind: MessageKind::ToolCall,
        tool_name,
        mcp_app_html: None,
        mcp_app_input: None,
        model: None,
    }
}

/// What subscribers are told of an effect: `named_at` is the time in the message's id,
/// `created_at` that of the message.
pub open spec fn announced(
    effect: EffectView,
    instance_slug: Seq<char>,
    chat_id: Seq<char>,
    message_id: Seq<char>,
    named_at: Seq<char>,
    created_at: Seq<char>,
) -> Option<ServerEventView> {
    match effect {
        EffectView::Delta { text } => Some(
            ServerEventView::ChatStreamDelta { instance_slug, chat_id, message_id, delta: text },
        ),
        EffectView::ToolCall { content, tool_name } => Some(
            ServerEventView::ChatMessageCreated {
                instance_slug,
                chat_id,
                message: tool_message("fn_"@ + named_at, content, tool_name, created_at),
            },
        ),
        EffectView::WebSearch => Some(
            ServerEventView::ChatMessageCreated {
                instance_slug,
                chat_id,
                message: tool_message(
                    "ws_"@ + named_at,
                    "searching the web"@,
                    Some("web_search"@),
                    created_at,
                ),
            },
        ),
        EffectView::Usage { usage } => None,
    }
}

/// The message that announces a tool at work.
fn make_tool_message(id: String, content: String, tool_name: Option<String>, created_at: &str) -> (r:
    ChatMessage)
    ensures
        r@ == tool_message(id@, content@, option_text(tool_name), created_at@),
{
    ChatMessage {
        id,
        role: ChatRole::Assistant,
        content,
        created_at: created_at.to_owned(),
        kind: MessageKind::ToolCall,
        tool_name,
        mcp_app_html: None,
        mcp_app_input: None,
        model: None,
    }
}

/// What subscribers are told of an effect.
pub fn announce(
    effect: &Effect,
    instance_slug: &str,
    chat_id: &str,
    message_id: &str,
    named_at: &str,
    created_at: &str,
) -> (r: Option<ServerEvent>)
    ensures
        (match r {
            Some(event) => Some(event@),
            None => None,
        }) == announced(
            effect@,
            instance_slug@,
            chat_id@,
            message_id@,
            named_at@,
            created_at@,
        ),
{
    let message = match effect {
        Effect::Delta { text } => {
            return Some(
                ServerEvent::ChatStreamDelta {
                    instance_slug: instance_slug.to_owned(),
                    chat_id: chat_id.to_owned(),
                    message_id: message_id.to_owned(),
                    delta: text.clone(),
                },
            );
        },
        Effect::ToolCall { content, tool_name } => {
            let name = match tool_name {
                Some(name) => Some(name.clone()),
                None => None,
            };
            make_tool_message(
                "fn_".to_owned().concat(named_at),
                content.clone(),
                name,
                created_at,
            )
        },
        Effect::WebSearch => make_tool_message(
            "ws_".to_owned().concat(named_at),
            "searching the web".to_owned(),
            Some("web_search".to_owned()),
            created_at,
        ),
        Effect::Usage { usage } => {
            return None;
        },
    };
    Some(
        ServerEvent::ChatMessageCreated {
            instance_slug: instance_slug.to_owned(),
            chat_id: chat_id.to_owned(),
            message,
        },
    )
}

} // verus!

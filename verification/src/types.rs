//! The conversation: messages, their content blocks, and tools.

use vstd::prelude::*;

use crate::json::{Json, JsonView};

verus! {

/// Where an image comes from.
#[derive(Debug, PartialEq)]
pub enum ImageSource {
    Base64 { media_type: String, data: String },
    Url { url: String },
}

/// A piece of a message.
#[derive(Debug)]
pub enum ContentBlock {
    Text { text: String },
    Image { source: ImageSource },
    ToolUse { id: String, name: String, input: Json },
    ToolResult { tool_use_id: String, content: Json },
    /// What the service made of an earlier part of the conversation: an item that it
    /// returned, and that goes back to it as it is.
    Compaction { content: Json },
}

/// A message of the conversation.
#[derive(Debug)]
pub enum Message {
    User { content: Vec<ContentBlock> },
    Assistant { content: Vec<ContentBlock> },
}

/// A call of a tool that the model asks for.
#[derive(Debug)]
pub struct ToolUseBlock {
    pub id: String,
    pub name: String,
    pub input: Json,
}

/// A tool that the model may call; `parameters` is the schema of its input.
#[derive(Debug)]
pub struct ToolDefinition {
    pub name: String,
    pub description: String,
    pub parameters: Json,
}

/// What one streamed response amounts to.
#[derive(Debug)]
pub struct StreamOnceResult {
    pub text: String,
    pub tool_uses: Vec<ToolUseBlock>,
    pub stop_reason: String,
    pub tokens_used: u64,
    pub ordered_content: Vec<ContentBlock>,
}

pub enum ImageSourceView {
    Base64 { media_type: Seq<char>, data: Seq<char> },
    Url { url: Seq<char> },
}

pub enum ContentBlockView {
    Text { text: Seq<char> },
    Image { source: ImageSourceView },
    ToolUse { id: Seq<char>, name: Seq<char>, input: JsonView },
    ToolResult { tool_use_id: Seq<char>, content: JsonView },
    Compaction { content: JsonView },
}

pub enum MessageView {
    User { content: Seq<ContentBlockView> },
    Assistant { content: Seq<ContentBlockView> },
}

pub struct ToolUseView {
    pub id: Seq<char>,
    pub name: Seq<char>,
    pub input: JsonView,
}

pub struct ToolDefinitionView {
    pub name: Seq<char>,
    pub description: Seq<char>,
    pub parameters: JsonView,
}

pub struct StreamOnceView {
    pub text: Seq<char>,
    pub tool_uses: Seq<ToolUseView>,
    pub stop_reason: Seq<char>,
    pub tokens_used: u64,
    pub ordered_content: Seq<ContentBlockView>,
}

impl View for ImageSource {
    type V = ImageSourceView;

    open spec fn view(&self) -> ImageSourceView {
        match *self {
            ImageSource::Base64 { media_type, data } => ImageSourceView::Base64 {
                media_type: media_type@,
                data: data@,
            },
            ImageSource::Url { url } => ImageSourceView::Url { url: url@ },
        }
    }
}

impl View for ContentBlock {
    type V = ContentBlockView;

    open spec fn view(&self) -> ContentBlockView {
        match *self {
            ContentBlock::Text { text } => ContentBlockView::Text { text: text@ },
            ContentBlock::Image { source } => ContentBlockView::Image { source: source@ },
            ContentBlock::ToolUse { id, name, input } => ContentBlockView::ToolUse {
                id: id@,
                name: name@,
                input: input@,
            },
            ContentBlock::ToolResult { tool_use_id, content } => ContentBlockView::ToolResult {
                tool_use_id: tool_use_id@,
                content: content@,
            },
            ContentBlock::Compaction { content } => ContentBlockView::Compaction {
                content: content@,
            },
        }
    }
}

/// The content of a message, block by block.
pub open spec fn block_views(blocks: Seq<ContentBlock>) -> Seq<ContentBlockView> {
    blocks.map_values(|b: ContentBlock| b@)
}

impl View for Message {
    type V = MessageView;

    open spec fn view(&self) -> MessageView {
        match *self {
            Message::User { content } => MessageView::User { content: block_views(content@) },
            Message::Assistant { content } => MessageView::Assistant {
                content: block_views(content@),
            },
        }
    }
}

/// The conversation, message by message.
pub open spec fn message_views(messages: Seq<Message>) -> Seq<MessageView> {
    messages.map_values(|m: Message| m@)
}

impl View for ToolUseBlock {
    type V = ToolUseView;

    open spec fn view(&self) -> ToolUseView {
        ToolUseView { id: self.id@, name: self.name@, input: self.input@ }
    }
}

/// The tool calls, call by call.
pub open spec fn tool_use_views(blocks: Seq<ToolUseBlock>) -> Seq<ToolUseView> {
    blocks.map_values(|b: ToolUseBlock| b@)
}

impl View for ToolDefinition {
    type V = ToolDefinitionView;

    open spec fn view(&self) -> ToolDefinitionView {
        ToolDefinitionView {
            name: self.name@,
            description: self.description@,
            parameters: self.parameters@,
        }
    }
}

/// The tools, definition by definition.
pub open spec fn definition_views(defs: Seq<ToolDefinition>) -> Seq<ToolDefinitionView> {
    defs.map_values(|d: ToolDefinition| d@)
}

impl View for StreamOnceResult {
    type V = StreamOnceView;

    open spec fn view(&self) -> StreamOnceView {
        StreamOnceView {
            text: self.text@,
            tool_uses: tool_use_views(self.tool_uses@),
            stop_reason: self.stop_reason@,
            tokens_used: self.tokens_used,
            ordered_content: block_views(self.ordered_content@),
        }
    }
}

} // verus!

//! A client for the OpenAI Responses API: what it sends and what it makes of the replies.

pub mod events;
pub mod json;
pub mod laws;
pub mod messages;
pub mod request;
pub mod response;
pub mod state;
pub mod stream;
pub mod text;
pub mod types;

pub use crate::events::{announce, ChatMessage, ChatRole, MessageKind, ServerEvent};
pub use crate::json::Json;
pub use crate::messages::{
    call_to_openai, image_source_to_openai, messages_to_openai, tool_result_to_string,
    tool_use_to_openai, tools_to_openai,
};
pub use crate::request::{complete_request, stream_request, ApiRequest, COMPACT_THRESHOLD};
pub use crate::response::{
    read_arguments, read_completion, read_reply, read_stop_reason, read_usage, stream_refusal,
    tool_input, Completion, ReplyError, TokenUsage,
};
pub use crate::state::{Effect, FunctionCall, ResponseState};
pub use crate::stream::{
    classify, Arrival, Line, Opening, Step, StreamReader, STREAM_TIMEOUT_SECS,
};
pub use crate::types::{
    ContentBlock, ImageSource, Message, StreamOnceResult, ToolDefinition, ToolUseBlock,
};

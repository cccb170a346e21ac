//! Conversation and provider types: messages and their content blocks,
//! chat requests and responses, streaming events and model descriptions.

use vstd::prelude::*;
use crate::json::{Json, JsonView};

verus! {

/// Who a message is from.
#[derive(Clone, Copy, PartialEq, Eq, Structural, Debug)]
pub enum MessageRole {
    User,
    Assistant,
    ToolResult,
}

/// One block of a message's content.
pub enum ContentBlock {
    Text { text: String },
    Image { media_type: String, data: String },
    ToolUse { tool_use_id: String, tool_name: String, tool_input: Json },
    ToolResult { tool_use_id: String, tool_result: String, is_error: bool },
    Thinking { thinking: String, signature: Option<String>, redacted: bool },
}

/// The contents of a [`ContentBlock`].
pub enum ContentBlockView {
    Text { text: Seq<char> },
    Image { media_type: Seq<char>, data: Seq<char> },
    ToolUse { tool_use_id: Seq<char>, tool_name: Seq<char>, tool_input: JsonView },
    ToolResult { tool_use_id: Seq<char>, tool_result: Seq<char>, is_error: bool },
    Thinking { thinking: Seq<char>, signature: Option<Seq<char>>, redacted: bool },
}

impl View for ContentBlock {
    type V = ContentBlockView;

    open spec fn view(&self) -> ContentBlockView {
        match self {
            ContentBlock::Text { text } => ContentBlockView::Text { text: text@ },
            ContentBlock::Image { media_type, data } => ContentBlockView::Image {
                media_type: media_type@,
                data: data@,
            },
            ContentBlock::ToolUse { tool_use_id, tool_name, tool_input } => ContentBlockView::ToolUse {
                tool_use_id: tool_use_id@,
                tool_name: tool_name@,
                tool_input: tool_input@,
            },
            ContentBlock::ToolResult { tool_use_id, tool_result, is_error } => ContentBlockView::ToolResult {
                tool_use_id: tool_use_id@,
                tool_result: tool_result@,
                is_error: *is_error,
            },
            ContentBlock::Thinking { thinking, signature, redacted } => ContentBlockView::Thinking {
                thinking: thinking@,
                signature: match signature {
                    Some(s) => Some(s@),
                    None => None,
                },
                redacted: *redacted,
            },
        }
    }
}

/// The views of a list of blocks.
pub open spec fn blocks_view(v: Seq<ContentBlock>) -> Seq<ContentBlockView> {
    v.map_values(|b: ContentBlock| b@)
}

/// A message of a conversation.
pub struct Message {
    pub role: MessageRole,
    pub content: Vec<ContentBlock>,
}

/// The contents of a [`Message`].
pub struct MessageView {
    pub role: MessageRole,
    pub content: Seq<ContentBlockView>,
}

impl View for Message {
    type V = MessageView;

    open spec fn view(&self) -> MessageView {
        MessageView { role: self.role, content: blocks_view(self.content@) }
    }
}

/// The views of a list of messages.
pub open spec fn messages_view(v: Seq<Message>) -> Seq<MessageView> {
    v.map_values(|m: Message| m@)
}

impl Message {
    /// A message from `role` with the given blocks.
    pub fn new(role: MessageRole, content: Vec<ContentBlock>) -> (res: Message)
        ensures
            res@ == (MessageView { role, content: blocks_view(content@) }),
    {
        Message { role, content }
    }

    /// A user message holding one text block.
    pub fn user_text(text: String) -> (res: Message)
        ensures
            res@ == (MessageView { role: MessageRole::User, content: seq![ContentBlockView::Text { text: text@ }] }),
    {
        let mut content: Vec<ContentBlock> = Vec::new();
        content.push(ContentBlock::Text { text });
        let res = Message { role: MessageRole::User, content };
        proof {
            assert(blocks_view(res.content@) =~= seq![ContentBlockView::Text { text: text@ }]);
        }
        res
    }
}

/// A tool offered to the model.
pub struct ToolDef {
    pub name: String,
    pub description: String,
    pub input_schema: Json,
}

/// Why the model stopped.
#[derive(Clone, Copy, PartialEq, Eq, Structural, Debug)]
pub enum StopReason {
    EndTurn,
    MaxTokens,
    ToolUse,
}

/// Token usage of a request.
#[derive(Clone, Copy, PartialEq, Eq, Structural, Debug)]
pub struct Usage {
    pub input_tokens: u64,
    pub output_tokens: u64,
    pub cache_creation_tokens: u64,
    pub cache_read_tokens: u64,
}

/// A chat request (its floating-point sampling parameters are held by the caller).
pub struct ChatRequest {
    pub model: String,
    pub messages: Vec<Message>,
    pub system: Option<String>,
    pub tools: Vec<ToolDef>,
    pub max_tokens: u64,
    pub stop: Vec<String>,
    pub extended_thinking: bool,
    pub reasoning_effort: Option<String>,
    pub thinking_budget: Option<u32>,
}

/// The answer to a chat request.
pub struct ChatResponse {
    pub message: Message,
    pub stop_reason: StopReason,
    pub usage: Usage,
    pub model: String,
}

/// An incremental piece of a streamed answer.
pub enum StreamChunk {
    TextDelta { delta: String },
    ThinkingDelta { delta: String },
    ToolCallStart { call_id: String, tool_name: String },
    /// A piece of the tool call's input, as JSON text.
    ToolCallInput { call_id: String, delta: String },
    ToolCallDone { call_id: String, full_input: Json },
}

/// The contents of a [`StreamChunk`].
pub enum StreamChunkView {
    TextDelta { delta: Seq<char> },
    ThinkingDelta { delta: Seq<char> },
    ToolCallStart { call_id: Seq<char>, tool_name: Seq<char> },
    ToolCallInput { call_id: Seq<char>, delta: Seq<char> },
    ToolCallDone { call_id: Seq<char>, full_input: JsonView },
}

impl View for StreamChunk {
    type V = StreamChunkView;

    open spec fn view(&self) -> StreamChunkView {
        match self {
            StreamChunk::TextDelta { delta } => StreamChunkView::TextDelta { delta: delta@ },
            StreamChunk::ThinkingDelta { delta } => StreamChunkView::ThinkingDelta { delta: delta@ },
            StreamChunk::ToolCallStart { call_id, tool_name } => StreamChunkView::ToolCallStart {
                call_id: call_id@,
                tool_name: tool_name@,
            },
            StreamChunk::ToolCallInput { call_id, delta } => StreamChunkView::ToolCallInput {
                call_id: call_id@,
                delta: delta@,
            },
            StreamChunk::ToolCallDone { call_id, full_input } => StreamChunkView::ToolCallDone {
                call_id: call_id@,
                full_input: full_input@,
            },
        }
    }
}

/// An event of a streamed answer.
pub enum StreamEvent {
    Chunk(StreamChunk),
    Done { stop_reason: StopReason, usage: Usage },
    Error(String),
}

/// The contents of a [`StreamEvent`].
pub enum StreamEventView {
    Chunk(StreamChunkView),
    Done { stop_reason: StopReason, usage: Usage },
    Error(Seq<char>),
}

impl View for StreamEvent {
    type V = StreamEventView;

    open spec fn view(&self) -> StreamEventView {
        match self {
            StreamEvent::Chunk(c) => StreamEventView::Chunk(c@),
            StreamEvent::Done { stop_reason, usage } => StreamEventView::Done {
                stop_reason: *stop_reason,
                usage: *usage,
            },
            StreamEvent::Error(e) => StreamEventView::Error(e@),
        }
    }
}

/// The views of a list of events.
pub open spec fn events_view(v: Seq<StreamEvent>) -> Seq<StreamEventView> {
    v.map_values(|e: StreamEvent| e@)
}

/// What a model offers.
pub struct ModelInfo {
    pub id: String,
    pub display_name: String,
    pub context_window: u64,
    pub max_output_tokens: u64,
    pub supports_vision: bool,
    pub supports_thinking: bool,
    pub supports_tools: bool,
}

/// The contents of a [`ModelInfo`].
pub struct ModelInfoView {
    pub id: Seq<char>,
    pub display_name: Seq<char>,
    pub context_window: u64,
    pub max_output_tokens: u64,
    pub supports_vision: bool,
    pub supports_thinking: bool,
    pub supports_tools: bool,
}

impl View for ModelInfo {
    type V = ModelInfoView;

    open spec fn view(&self) -> ModelInfoView {
        ModelInfoView {
            id: self.id@,
            display_name: self.display_name@,
            context_window: self.context_window,
            max_output_tokens: self.max_output_tokens,
            supports_vision: self.supports_vision,
            supports_thinking: self.supports_thinking,
            supports_tools: self.supports_tools,
        }
    }
}

} // verus!

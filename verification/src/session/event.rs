//! Content blocks, messages and the events of a session log.
use vstd::prelude::*;

use crate::duplicate::Duplicate;
use crate::json::{Json, Tree};

verus! {

/// One block of content inside a message.
#[derive(Debug, Clone)]
pub enum ContentBlock {
    /// Plain text.
    Text { text: String },
    /// A tool invocation that the model asks for.
    ToolCall { id: String, name: String, arguments: Json },
    /// What a tool invocation gave, returned to the model.
    ToolResult { id: String, output: Json, is_error: bool },
}

/// What a content block stands for.
pub enum BlockView {
    Text { text: Seq<char> },
    ToolCall { id: Seq<char>, name: Seq<char>, arguments: Tree },
    ToolResult { id: Seq<char>, output: Tree, is_error: bool },
}

impl View for ContentBlock {
    type V = BlockView;

    open spec fn view(&self) -> BlockView {
        match self {
            ContentBlock::Text { text } => BlockView::Text { text: text@ },
            ContentBlock::ToolCall { id, name, arguments } => BlockView::ToolCall {
                id: id@,
                name: name@,
                arguments: arguments@,
            },
            ContentBlock::ToolResult { id, output, is_error } => BlockView::ToolResult {
                id: id@,
                output: output@,
                is_error: *is_error,
            },
        }
    }
}

impl DeepView for ContentBlock {
    type V = BlockView;

    open spec fn deep_view(&self) -> BlockView {
        self@
    }
}

impl Duplicate for ContentBlock {
    fn duplicate(&self) -> (r: Self) {
        match self {
            ContentBlock::Text { text } => ContentBlock::Text { text: text.clone() },
            ContentBlock::ToolCall { id, name, arguments } => ContentBlock::ToolCall {
                id: id.clone(),
                name: name.clone(),
                arguments: arguments.duplicate(),
            },
            ContentBlock::ToolResult { id, output, is_error } => ContentBlock::ToolResult {
                id: id.clone(),
                output: output.duplicate(),
                is_error: *is_error,
            },
        }
    }
}

/// The part that a message plays in a conversation.
#[derive(Debug, Clone, Copy, PartialEq, Eq, Structural)]
pub enum Role {
    System,
    User,
    Assistant,
    Tool,
}

/// A message as a model or a reader sees it.
#[derive(Debug, Clone)]
pub struct Message {
    pub role: Role,
    pub content: Vec<ContentBlock>,
}

/// What a message stands for.
#[verifier::ext_equal]
pub struct MessageView {
    pub role: Role,
    pub content: Seq<BlockView>,
}

impl View for Message {
    type V = MessageView;

    open spec fn view(&self) -> MessageView {
        MessageView { role: self.role, content: self.content.deep_view() }
    }
}

impl DeepView for Message {
    type V = MessageView;

    open spec fn deep_view(&self) -> MessageView {
        self@
    }
}

impl Duplicate for Message {
    fn duplicate(&self) -> (r: Self) {
        Message { role: self.role, content: self.content.duplicate() }
    }
}

/// A message of one text.
pub open spec fn text_message(role: Role, text: Seq<char>) -> MessageView {
    MessageView { role, content: seq![BlockView::Text { text }] }
}

/// The content that is one text.
pub fn text_content(text: &str) -> (r: Vec<ContentBlock>)
    ensures
        r.deep_view() == seq![BlockView::Text { text: text@ }],
{
    let mut content: Vec<ContentBlock> = Vec::new();
    content.push(ContentBlock::Text { text: text.to_owned() });
    assert(content.deep_view() =~= seq![BlockView::Text { text: text@ }]);
    content
}

impl Message {
    /// A system message.
    pub fn system(text: &str) -> (r: Message)
        ensures
            r@ == text_message(Role::System, text@),
    {
        Message { role: Role::System, content: text_content(text) }
    }

    /// A user message.
    pub fn user(text: &str) -> (r: Message)
        ensures
            r@ == text_message(Role::User, text@),
    {
        Message { role: Role::User, content: text_content(text) }
    }
}

/// A durable fact of a session.
#[derive(Debug, Clone)]
pub enum SessionEvent {
    UserMessage { message_id: String, content: Vec<ContentBlock> },
    AssistantMessage { message_id: String, content: Vec<ContentBlock> },
    AssistantChunk { message_id: String, text: String },
    ReasoningChunk { message_id: String, text: String },
    ToolCall { tool_call_id: String, tool_name: String, arguments: Json },
    ToolResult { tool_call_id: String, output: Json, is_error: bool },
    TurnStart { turn_id: String },
    StepStart { step_id: String },
    StepEnd { step_id: String },
    TurnEnd { turn_id: String },
    WorkflowStep { mode: String, step: String },
}

/// What an event stands for.
pub enum EventView {
    UserMessage { message_id: Seq<char>, content: Seq<BlockView> },
    AssistantMessage { message_id: Seq<char>, content: Seq<BlockView> },
    AssistantChunk { message_id: Seq<char>, text: Seq<char> },
    ReasoningChunk { message_id: Seq<char>, text: Seq<char> },
    ToolCall { tool_call_id: Seq<char>, tool_name: Seq<char>, arguments: Tree },
    ToolResult { tool_call_id: Seq<char>, output: Tree, is_error: bool },
    TurnStart { turn_id: Seq<char> },
    StepStart { step_id: Seq<char> },
    StepEnd { step_id: Seq<char> },
    TurnEnd { turn_id: Seq<char> },
    WorkflowStep { mode: Seq<char>, step: Seq<char> },
}

impl View for SessionEvent {
    type V = EventView;

    open spec fn view(&self) -> EventView {
        match self {
            SessionEvent::UserMessage { message_id, content } => EventView::UserMessage {
                message_id: message_id@,
                content: content.deep_view(),
            },
            SessionEvent::AssistantMessage { message_id, content } => EventView::AssistantMessage {
                message_id: message_id@,
                content: content.deep_view(),
            },
            SessionEvent::AssistantChunk { message_id, text } => EventView::AssistantChunk {
                message_id: message_id@,
                text: text@,
            },
            SessionEvent::ReasoningChunk { message_id, text } => EventView::ReasoningChunk {
                message_id: message_id@,
                text: text@,
            },
            SessionEvent::ToolCall { tool_call_id, tool_name, arguments } => EventView::ToolCall {
                tool_call_id: tool_call_id@,
                tool_name: tool_name@,
                arguments: arguments@,
            },
            SessionEvent::ToolResult { tool_call_id, output, is_error } => EventView::ToolResult {
                tool_call_id: tool_call_id@,
                output: output@,
                is_error: *is_error,
            },
            SessionEvent::TurnStart { turn_id } => EventView::TurnStart { turn_id: turn_id@ },
            SessionEvent::StepStart { step_id } => EventView::StepStart { step_id: step_id@ },
            SessionEvent::StepEnd { step_id } => EventView::StepEnd { step_id: step_id@ },
            SessionEvent::TurnEnd { turn_id } => EventView::TurnEnd { turn_id: turn_id@ },
            SessionEvent::WorkflowStep { mode, step } => EventView::WorkflowStep {
                mode: mode@,
                step: step@,
            },
        }
    }
}

impl DeepView for SessionEvent {
    type V = EventView;

    open spec fn deep_view(&self) -> EventView {
        self@
    }
}

impl Duplicate for SessionEvent {
    fn duplicate(&self) -> (r: Self) {
        match self {
            SessionEvent::UserMessage { message_id, content } => SessionEvent::UserMessage {
                message_id: message_id.clone(),
                content: content.duplicate(),
            },
            SessionEvent::AssistantMessage { message_id, content } =>
            SessionEvent::AssistantMessage {
                message_id: message_id.clone(),
                content: content.duplicate(),
            },
            SessionEvent::AssistantChunk { message_id, text } => SessionEvent::AssistantChunk {
                message_id: message_id.clone(),
                text: text.clone(),
            },
            SessionEvent::ReasoningChunk { message_id, text } => SessionEvent::ReasoningChunk {
                message_id: message_id.clone(),
                text: text.clone(),
            },
            SessionEvent::ToolCall { tool_call_id, tool_name, arguments } =>
            SessionEvent::ToolCall {
                tool_call_id: tool_call_id.clone(),
                tool_name: tool_name.clone(),
                arguments: arguments.duplicate(),
            },
            SessionEvent::ToolResult { tool_call_id, output, is_error } =>
            SessionEvent::ToolResult {
                tool_call_id: tool_call_id.clone(),
                output: output.duplicate(),
                is_error: *is_error,
            },
            SessionEvent::TurnStart { turn_id } => SessionEvent::TurnStart {
                turn_id: turn_id.clone(),
            },
            SessionEvent::StepStart { step_id } => SessionEvent::StepStart {
                step_id: step_id.clone(),
            },
            SessionEvent::StepEnd { step_id } => SessionEvent::StepEnd { step_id: step_id.clone() },
            SessionEvent::TurnEnd { turn_id } => SessionEvent::TurnEnd { turn_id: turn_id.clone() },
            SessionEvent::WorkflowStep { mode, step } => SessionEvent::WorkflowStep {
                mode: mode.clone(),
                step: step.clone(),
            },
        }
    }
}

} // verus!

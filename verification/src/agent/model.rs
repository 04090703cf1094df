//! What goes to a model and what comes back.
use vstd::prelude::*;
use vstd::std_specs::convert::FromSpecImpl;

use crate::duplicate::Duplicate;
use crate::json::{Json, Tree, json_compact};
use crate::session::event::{BlockView, ContentBlock, Message, MessageView, Role};
use crate::text::{join, joined};
use crate::tool::description::{DescriptionView, ToolDescription};

verus! {

/// The part that a message plays for a model.
#[derive(Debug, Clone, Copy, PartialEq, Eq, Structural)]
pub enum ModelRole {
    System,
    User,
    Assistant,
    Tool,
}

/// The part that a message of a session plays for a model.
pub open spec fn model_role(role: Role) -> ModelRole {
    match role {
        Role::System => ModelRole::System,
        Role::User => ModelRole::User,
        Role::Assistant => ModelRole::Assistant,
        Role::Tool => ModelRole::Tool,
    }
}

impl From<Role> for ModelRole {
    fn from(role: Role) -> (r: Self) {
        match role {
            Role::System => ModelRole::System,
            Role::User => ModelRole::User,
            Role::Assistant => ModelRole::Assistant,
            Role::Tool => ModelRole::Tool,
        }
    }
}

impl FromSpecImpl<Role> for ModelRole {
    open spec fn obeys_from_spec() -> bool {
        true
    }

    open spec fn from_spec(role: Role) -> Self {
        model_role(role)
    }
}

/// One tool invocation that a model asks for.
#[derive(Debug, Clone)]
pub struct ModelToolCall {
    pub id: String,
    pub name: String,
    pub arguments: Json,
}

/// What a tool invocation stands for.
pub struct ToolCallView {
    pub id: Seq<char>,
    pub name: Seq<char>,
    pub arguments: Tree,
}

impl View for ModelToolCall {
    type V = ToolCallView;

    open spec fn view(&self) -> ToolCallView {
        ToolCallView { id: self.id@, name: self.name@, arguments: self.arguments@ }
    }
}

impl DeepView for ModelToolCall {
    type V = ToolCallView;

    open spec fn deep_view(&self) -> ToolCallView {
        self@
    }
}

impl Duplicate for ModelToolCall {
    fn duplicate(&self) -> (r: Self) {
        ModelToolCall {
            id: self.id.clone(),
            name: self.name.clone(),
            arguments: self.arguments.duplicate(),
        }
    }
}

/// A message on the way to a model.
#[derive(Debug, Clone)]
pub struct ModelMessage {
    pub role: ModelRole,
    pub content: Option<String>,
    pub tool_calls: Vec<ModelToolCall>,
    pub tool_call_id: Option<String>,
}

/// What a message on the way to a model stands for.
#[verifier::ext_equal]
pub struct WireView {
    pub role: ModelRole,
    pub content: Option<Seq<char>>,
    pub tool_calls: Seq<ToolCallView>,
    pub tool_call_id: Option<Seq<char>>,
}

impl View for ModelMessage {
    type V = WireView;

    open spec fn view(&self) -> WireView {
        WireView {
            role: self.role,
            content: self.content.deep_view(),
            tool_calls: self.tool_calls.deep_view(),
            tool_call_id: self.tool_call_id.deep_view(),
        }
    }
}

impl DeepView for ModelMessage {
    type V = WireView;

    open spec fn deep_view(&self) -> WireView {
        self@
    }
}

/// The tool calls among content blocks.
pub open spec fn block_calls(content: Seq<BlockView>) -> Seq<ToolCallView>
    decreases content.len(),
{
    if content.len() == 0 {
        Seq::empty()
    } else {
        match content.last() {
            BlockView::ToolCall { id, name, arguments } => block_calls(content.drop_last()).push(
                ToolCallView { id, name, arguments },
            ),
            _ => block_calls(content.drop_last()),
        }
    }
}

/// The identity of the last tool result among content blocks.
pub open spec fn last_result(content: Seq<BlockView>) -> Option<Seq<char>>
    decreases content.len(),
{
    if content.len() == 0 {
        None
    } else {
        match content.last() {
            BlockView::ToolResult { id, .. } => Some(id),
            _ => last_result(content.drop_last()),
        }
    }
}

/// What a model reads of the output of a tool: a text as it is, and any other value as JSON.
pub open spec fn output_text(output: Tree) -> Seq<char> {
    match output {
        Tree::Text(s) => s,
        _ => json_compact(output),
    }
}

/// What a model reads in content blocks: the texts, and the outputs of tools.
pub open spec fn readable(content: Seq<BlockView>) -> Seq<Seq<char>>
    decreases content.len(),
{
    if content.len() == 0 {
        Seq::empty()
    } else {
        match content.last() {
            BlockView::Text { text } => readable(content.drop_last()).push(text),
            BlockView::ToolResult { output, .. } => readable(content.drop_last()).push(
                output_text(output),
            ),
            BlockView::ToolCall { .. } => readable(content.drop_last()),
        }
    }
}

/// A message of a session on the way to a model.
pub open spec fn wire(m: MessageView) -> WireView {
    WireView {
        role: model_role(m.role),
        content: (if readable(m.content).len() == 0 {
            None
        } else {
            Some(joined(readable(m.content), "\n"@))
        }),
        tool_calls: block_calls(m.content),
        tool_call_id: last_result(m.content),
    }
}

/// Messages of a session on the way to a model.
pub open spec fn wires(ms: Seq<MessageView>) -> Seq<WireView> {
    Seq::new(ms.len(), |i: int| wire(ms[i]))
}

/// The result of a tool is returned to the model: the message carries the output's text, under the
/// identity of the call.
pub proof fn lemma_result_reaches_the_model(id: Seq<char>, output: Tree, is_error: bool)
    ensures
        wire(
            (MessageView {
                role: Role::Tool,
                content: seq![BlockView::ToolResult { id, output, is_error }],
            }),
        ) == (WireView {
            role: ModelRole::Tool,
            content: Some(output_text(output)),
            tool_calls: Seq::empty(),
            tool_call_id: Some(id),
        }),
{
    let block = BlockView::ToolResult { id, output, is_error };
    let none: Seq<BlockView> = Seq::empty();
    let one = seq![block];
    assert(one.drop_last() =~= none);
    assert(one.last() == block);
    assert(readable(none) =~= Seq::empty());
    assert(block_calls(none) =~= Seq::empty());
    let parts = readable(one);
    assert(parts =~= seq![output_text(output)]);
    reveal_with_fuel(joined, 2);
    assert(joined(parts, "\n"@) =~= output_text(output));
}

fn readable_parts(content: &Vec<ContentBlock>) -> (parts: Vec<String>)
    ensures
        parts.deep_view() == readable(content.deep_view()),
{
    let mut parts: Vec<String> = Vec::new();
    let ghost all = content.deep_view();
    let mut i: usize = 0;
    assert(parts.deep_view() =~= readable(all.take(0)));
    while i < content.len()
        invariant
            i <= content@.len(),
            all == content.deep_view(),
            parts.deep_view() == readable(all.take(i as int)),
        decreases content@.len() - i,
    {
        let ghost before = parts.deep_view();
        proof {
            assert(all.take(i + 1).drop_last() =~= all.take(i as int));
            assert(all.take(i + 1).last() == content@[i as int]@);
        }
        match &content[i] {
            ContentBlock::Text { text } => {
                parts.push(text.clone());
                assert(parts.deep_view() =~= before.push(text@));
            },
            ContentBlock::ToolResult { output, .. } => {
                let text = match output.as_str() {
                    Some(s) => s.to_owned(),
                    None => output.to_text(),
                };
                parts.push(text);
                assert(parts.deep_view() =~= before.push(text@));
            },
            ContentBlock::ToolCall { .. } => {},
        }
        i = i + 1;
    }
    assert(all.take(i as int) =~= all);
    parts
}

fn calls_among(content: &Vec<ContentBlock>) -> (calls: Vec<ModelToolCall>)
    ensures
        calls.deep_view() == block_calls(content.deep_view()),
{
    let mut calls: Vec<ModelToolCall> = Vec::new();
    let ghost all = content.deep_view();
    let mut i: usize = 0;
    assert(calls.deep_view() =~= block_calls(all.take(0)));
    while i < content.len()
        invariant
            i <= content@.len(),
            all == content.deep_view(),
            calls.deep_view() == block_calls(all.take(i as int)),
        decreases content@.len() - i,
    {
        let ghost before = calls.deep_view();
        proof {
            assert(all.take(i + 1).drop_last() =~= all.take(i as int));
            assert(all.take(i + 1).last() == content@[i as int]@);
        }
        match &content[i] {
            ContentBlock::ToolCall { id, name, arguments } => {
                let call = ModelToolCall {
                    id: id.clone(),
                    name: name.clone(),
                    arguments: arguments.duplicate(),
                };
                calls.push(call);
                assert(calls.deep_view() =~= before.push(call@));
            },
            _ => {},
        }
        i = i + 1;
    }
    assert(all.take(i as int) =~= all);
    calls
}

fn result_among(content: &Vec<ContentBlock>) -> (r: Option<String>)
    ensures
        r.deep_view() == last_result(content.deep_view()),
{
    let ghost all = content.deep_view();
    let mut n: usize = content.len();
    assert(all.take(n as int) =~= all);
    while n > 0
        invariant
            n <= content@.len(),
            all == content.deep_view(),
            last_result(all.take(n as int)) == last_result(all),
        decreases n,
    {
        proof {
            assert(all.take(n as int).drop_last() =~= all.take(n - 1));
            assert(all.take(n as int).last() == content@[n - 1]@);
        }
        match &content[n - 1] {
            ContentBlock::ToolResult { id, .. } => {
                return Some(id.clone());
            },
            _ => {},
        }
        n = n - 1;
    }
    None
}

impl ModelMessage {
    /// Puts the messages of a session on the way to a model. There is no other way, and this one
    /// depends on the messages alone.
    pub fn from_session(messages: &Vec<Message>) -> (out: Vec<ModelMessage>)
        ensures
            out.deep_view() == wires(messages.deep_view()),
    {
        let mut out: Vec<ModelMessage> = Vec::new();
        let mut i: usize = 0;
        while i < messages.len()
            invariant
                i <= messages@.len(),
                out@.len() == i,
                forall|k: int| 0 <= k < i ==> (#[trigger] out@[k])@ == wire(messages@[k]@),
            decreases messages@.len() - i,
        {
            let message = &messages[i];
            let parts = readable_parts(&message.content);
            let content = if parts.len() == 0 {
                None
            } else {
                Some(join(&parts, "\n"))
            };
            out.push(
                ModelMessage {
                    role: ModelRole::from(message.role),
                    content,
                    tool_calls: calls_among(&message.content),
                    tool_call_id: result_among(&message.content),
                },
            );
            i = i + 1;
        }
        assert(out.deep_view() =~= wires(messages.deep_view()));
        out
    }
}

/// Why a completion ended.
#[derive(Debug, Clone, Copy, PartialEq, Eq, Structural)]
pub enum FinishReason {
    Stop,
    ToolCalls,
    Length,
}

/// A request to a model.
#[derive(Debug, Clone)]
pub struct ModelRequest {
    /// The model that is asked.
    pub model: String,
    pub messages: Vec<ModelMessage>,
    pub tools: Vec<ToolDescription>,
}

/// What a request stands for.
#[verifier::ext_equal]
pub struct RequestView {
    pub model: Seq<char>,
    pub messages: Seq<WireView>,
    pub tools: Seq<DescriptionView>,
}

impl View for ModelRequest {
    type V = RequestView;

    open spec fn view(&self) -> RequestView {
        RequestView {
            model: self.model@,
            messages: self.messages.deep_view(),
            tools: self.tools.deep_view(),
        }
    }
}

/// One event of a completion.
#[derive(Debug, Clone)]
pub enum ModelEvent {
    /// A piece of the assistant's text.
    Text(String),
    /// A piece of the assistant's reasoning.
    Reasoning(String),
    /// A tool call that the model wants.
    ToolCall(ModelToolCall),
    /// Why the completion ended; always last.
    Done(FinishReason),
}

/// What an event of a completion stands for.
pub enum ModelEventView {
    Text(Seq<char>),
    Reasoning(Seq<char>),
    ToolCall(ToolCallView),
    Done(FinishReason),
}

impl View for ModelEvent {
    type V = ModelEventView;

    open spec fn view(&self) -> ModelEventView {
        match self {
            ModelEvent::Text(s) => ModelEventView::Text(s@),
            ModelEvent::Reasoning(s) => ModelEventView::Reasoning(s@),
            ModelEvent::ToolCall(c) => ModelEventView::ToolCall(c@),
            ModelEvent::Done(r) => ModelEventView::Done(*r),
        }
    }
}

impl DeepView for ModelEvent {
    type V = ModelEventView;

    open spec fn deep_view(&self) -> ModelEventView {
        self@
    }
}

/// What the user said last; the empty text where the user said nothing.
pub open spec fn said_last(messages: Seq<WireView>) -> Seq<char>
    decreases messages.len(),
{
    if messages.len() == 0 {
        Seq::empty()
    } else if messages.last().role == ModelRole::User {
        match messages.last().content {
            Some(s) => s,
            None => Seq::empty(),
        }
    } else {
        said_last(messages.drop_last())
    }
}

/// The answer of the model that needs no key: what the user said last, and that it is done.
pub fn mock_answer(request: &ModelRequest) -> (r: Vec<ModelEvent>)
    ensures
        r.deep_view() == seq![
            ModelEventView::Text(said_last(request@.messages)),
            ModelEventView::Done(FinishReason::Stop),
        ],
{
    let ghost all = request@.messages;
    let mut said = String::new();
    let mut n: usize = request.messages.len();
    assert(all.take(n as int) =~= all);
    while n > 0
        invariant_except_break
            said@ == Seq::<char>::empty(),
        invariant
            n <= request.messages@.len(),
            all == request.messages.deep_view(),
            said_last(all.take(n as int)) == said_last(all),
        ensures
            said@ == said_last(all),
        decreases n,
    {
        let m = &request.messages[n - 1];
        proof {
            assert(all.take(n as int).drop_last() =~= all.take(n - 1));
            assert(all.take(n as int).last() == m@);
        }
        if m.role == ModelRole::User {
            match &m.content {
                Some(s) => {
                    said = s.clone();
                },
                None => {},
            }
            break;
        }
        n = n - 1;
    }
    let mut out: Vec<ModelEvent> = Vec::new();
    out.push(ModelEvent::Text(said));
    out.push(ModelEvent::Done(FinishReason::Stop));
    assert(out.deep_view() =~= seq![
        ModelEventView::Text(said_last(request@.messages)),
        ModelEventView::Done(FinishReason::Stop),
    ]);
    out
}

} // verus!

//! The projection from the log to what a model sees, and why nothing else is seen.
use vstd::prelude::*;

use crate::duplicate::Duplicate;
use crate::session::event::{
    BlockView, ContentBlock, EventView, Message, MessageView, Role, SessionEvent, text_message,
};

verus! {

/// A tool call joins the assistant message that ends the history, or begins one.
pub open spec fn with_call(ms: Seq<MessageView>, call: BlockView) -> Seq<MessageView> {
    if ms.len() > 0 && ms.last().role == Role::Assistant {
        ms.drop_last().push(
            MessageView { role: Role::Assistant, content: ms.last().content.push(call) },
        )
    } else {
        ms.push(MessageView { role: Role::Assistant, content: seq![call] })
    }
}

/// The history after one more event.
pub open spec fn extended(ms: Seq<MessageView>, e: EventView) -> Seq<MessageView> {
    match e {
        EventView::UserMessage { content, .. } => ms.push(
            MessageView { role: Role::User, content },
        ),
        EventView::AssistantMessage { content, .. } => ms.push(
            MessageView { role: Role::Assistant, content },
        ),
        EventView::ToolCall { tool_call_id, tool_name, arguments } => with_call(
            ms,
            BlockView::ToolCall { id: tool_call_id, name: tool_name, arguments },
        ),
        EventView::ToolResult { tool_call_id, output, is_error } => ms.push(
            MessageView {
                role: Role::Tool,
                content: seq![BlockView::ToolResult { id: tool_call_id, output, is_error }],
            },
        ),
        _ => ms,
    }
}

/// The history that a log stands for.
pub open spec fn project(log: Seq<EventView>) -> Seq<MessageView>
    decreases log.len(),
{
    if log.len() == 0 {
        Seq::empty()
    } else {
        extended(project(log.drop_last()), log.last())
    }
}

/// The system message, where there is a prompt.
pub open spec fn prompt_messages(prompt: Option<Seq<char>>) -> Seq<MessageView> {
    match prompt {
        Some(p) => seq![text_message(Role::System, p)],
        None => Seq::empty(),
    }
}

/// What a model is shown: the system prompt, then the projection of the log.
pub open spec fn model_history(prompt: Option<Seq<char>>, log: Seq<EventView>) -> Seq<MessageView> {
    prompt_messages(prompt) + project(log)
}

/// Adds a tool call to a history.
pub fn push_tool_call(out: &mut Vec<Message>, block: ContentBlock)
    ensures
        final(out).deep_view() == with_call(old(out).deep_view(), block@),
{
    let ghost before = out.deep_view();
    let n = out.len();
    if n > 0 && out[n - 1].role == Role::Assistant {
        match out.pop() {
            Some(mut last) => {
                let ghost content = last.content.deep_view();
                last.content.push(block);
                assert(last.content.deep_view() =~= content.push(block@));
                out.push(last);
                assert(out.deep_view() =~= with_call(before, block@));
            },
            None => {},
        }
    } else {
        let mut content: Vec<ContentBlock> = Vec::new();
        content.push(block);
        assert(content.deep_view() =~= seq![block@]);
        out.push(Message { role: Role::Assistant, content });
        assert(out.deep_view() =~= with_call(before, block@));
    }
}

/// Extends a history by one event.
fn extend(out: &mut Vec<Message>, event: &SessionEvent)
    ensures
        final(out).deep_view() == extended(old(out).deep_view(), event@),
{
    let ghost before = out.deep_view();
    match event {
        SessionEvent::UserMessage { content, .. } => {
            out.push(Message { role: Role::User, content: content.duplicate() });
        },
        SessionEvent::AssistantMessage { content, .. } => {
            out.push(Message { role: Role::Assistant, content: content.duplicate() });
        },
        SessionEvent::ToolCall { tool_call_id, tool_name, arguments } => {
            push_tool_call(
                out,
                ContentBlock::ToolCall {
                    id: tool_call_id.clone(),
                    name: tool_name.clone(),
                    arguments: arguments.duplicate(),
                },
            );
        },
        SessionEvent::ToolResult { tool_call_id, output, is_error } => {
            let mut content: Vec<ContentBlock> = Vec::new();
            content.push(
                ContentBlock::ToolResult {
                    id: tool_call_id.clone(),
                    output: output.duplicate(),
                    is_error: *is_error,
                },
            );
            assert(content.deep_view() =~= seq![content@[0]@]);
            out.push(Message { role: Role::Tool, content });
        },
        _ => {},
    }
    assert(out.deep_view() =~= extended(before, event@));
}

proof fn lemma_prefix_extended(front: Seq<MessageView>, ms: Seq<MessageView>, e: EventView)
    requires
        front.len() > 0 ==> front.last().role != Role::Assistant,
    ensures
        extended(front + ms, e) == front + extended(ms, e),
{
    if ms.len() == 0 {
        assert(front + ms =~= front);
    } else {
        assert((front + ms).last() == ms.last());
        assert((front + ms).drop_last() =~= front + ms.drop_last());
    }
    assert(extended(front + ms, e) =~= front + extended(ms, e));
}

/// Projects the history of a log for a model.
pub fn derived(prompt: Option<&str>, events: &Vec<SessionEvent>) -> (out: Vec<Message>)
    ensures
        out.deep_view() == model_history(
            (match prompt {
                Some(p) => Some(p@),
                None => None,
            }),
            events.deep_view(),
        ),
{
    let mut out: Vec<Message> = Vec::new();
    let ghost prompt_view: Option<Seq<char>> = match prompt {
        Some(p) => Some(p@),
        None => None,
    };
    match prompt {
        Some(p) => {
            out.push(Message::system(p));
        },
        None => {},
    }
    let ghost front = prompt_messages(prompt_view);
    assert(out.deep_view() =~= front);
    let ghost log = events.deep_view();
    let mut i: usize = 0;
    assert(front + project(log.take(0)) =~= front);
    while i < events.len()
        invariant
            i <= events@.len(),
            log == events.deep_view(),
            front == prompt_messages(prompt_view),
            out.deep_view() == front + project(log.take(i as int)),
        decreases events@.len() - i,
    {
        extend(&mut out, &events[i]);
        proof {
            let part = log.take(i + 1);
            assert(part.drop_last() =~= log.take(i as int));
            assert(part.last() == events@[i as int]@);
            lemma_prefix_extended(front, project(log.take(i as int)), part.last());
        }
        i = i + 1;
    }
    assert(log.take(i as int) =~= log);
    out
}

// ---------- model-visible means logged ----------

/// A block, and the part under which a model sees it.
pub struct Shown {
    pub role: Role,
    pub block: BlockView,
}

/// The blocks of a message.
pub open spec fn message_blocks(m: MessageView) -> Seq<Shown> {
    Seq::new(m.content.len(), |i: int| Shown { role: m.role, block: m.content[i] })
}

/// All the blocks that a history shows, in order.
pub open spec fn visible(ms: Seq<MessageView>) -> Seq<Shown>
    decreases ms.len(),
{
    if ms.len() == 0 {
        Seq::empty()
    } else {
        visible(ms.drop_last()) + message_blocks(ms.last())
    }
}

/// The blocks that one event records.
pub open spec fn event_blocks(e: EventView) -> Seq<Shown> {
    match e {
        EventView::UserMessage { content, .. } => message_blocks(
            MessageView { role: Role::User, content },
        ),
        EventView::AssistantMessage { content, .. } => message_blocks(
            MessageView { role: Role::Assistant, content },
        ),
        EventView::ToolCall { tool_call_id, tool_name, arguments } => seq![
            Shown {
                role: Role::Assistant,
                block: BlockView::ToolCall { id: tool_call_id, name: tool_name, arguments },
            },
        ],
        EventView::ToolResult { tool_call_id, output, is_error } => seq![
            Shown {
                role: Role::Tool,
                block: BlockView::ToolResult { id: tool_call_id, output, is_error },
            },
        ],
        _ => Seq::empty(),
    }
}

/// All the blocks that a log records, in order.
pub open spec fn recorded(log: Seq<EventView>) -> Seq<Shown>
    decreases log.len(),
{
    if log.len() == 0 {
        Seq::empty()
    } else {
        recorded(log.drop_last()) + event_blocks(log.last())
    }
}

proof fn lemma_visible_push(ms: Seq<MessageView>, m: MessageView)
    ensures
        visible(ms.push(m)) == visible(ms) + message_blocks(m),
{
    assert(ms.push(m).drop_last() =~= ms);
}

/// Model-visible means logged: the blocks that the projection shows are the blocks that the log
/// records, all of them, in their order and under their roles.
pub proof fn lemma_visible_is_recorded(log: Seq<EventView>)
    ensures
        visible(project(log)) == recorded(log),
    decreases log.len(),
{
    if log.len() > 0 {
        let front = log.drop_last();
        let ms = project(front);
        let e = log.last();
        lemma_visible_is_recorded(front);
        match e {
            EventView::UserMessage { content, .. } => {
                lemma_visible_push(ms, MessageView { role: Role::User, content });
            },
            EventView::AssistantMessage { content, .. } => {
                lemma_visible_push(ms, MessageView { role: Role::Assistant, content });
            },
            EventView::ToolResult { tool_call_id, output, is_error } => {
                let m = MessageView {
                    role: Role::Tool,
                    content: seq![BlockView::ToolResult { id: tool_call_id, output, is_error }],
                };
                lemma_visible_push(ms, m);
                assert(message_blocks(m) =~= event_blocks(e));
            },
            EventView::ToolCall { tool_call_id, tool_name, arguments } => {
                let call = BlockView::ToolCall { id: tool_call_id, name: tool_name, arguments };
                if ms.len() > 0 && ms.last().role == Role::Assistant {
                    let m = MessageView {
                        role: Role::Assistant,
                        content: ms.last().content.push(call),
                    };
                    lemma_visible_push(ms.drop_last(), m);
                    assert(message_blocks(m) =~= message_blocks(ms.last()) + event_blocks(e));
                    assert(visible(ms.drop_last()) + (message_blocks(ms.last()) + event_blocks(e))
                        =~= visible(ms) + event_blocks(e));
                } else {
                    let m = MessageView { role: Role::Assistant, content: seq![call] };
                    lemma_visible_push(ms, m);
                    assert(message_blocks(m) =~= event_blocks(e));
                }
            },
            _ => {
                assert(recorded(front) + Seq::<Shown>::empty() =~= recorded(front));
            },
        }
    }
}

/// An event that records no content: a streamed chunk, a lifecycle mark or a workflow step.
pub open spec fn unseen(e: EventView) -> bool {
    match e {
        EventView::UserMessage { .. } | EventView::AssistantMessage { .. } => false,
        EventView::ToolCall { .. } | EventView::ToolResult { .. } => false,
        _ => true,
    }
}

/// Chunks and lifecycle marks are durable but never change what a model sees.
pub proof fn lemma_unseen_changes_nothing(log: Seq<EventView>, e: EventView)
    requires
        unseen(e),
    ensures
        project(log.push(e)) == project(log),
{
    assert(log.push(e).drop_last() =~= log);
}

/// Appending to a log never changes an earlier message: all but the last stay as they are, and
/// the last only gains blocks.
pub proof fn lemma_history_only_grows(log: Seq<EventView>, e: EventView)
    ensures
        project(log).len() <= project(log.push(e)).len(),
        forall|i: int|
            0 <= i < project(log).len() - 1 ==> project(log.push(e))[i] == project(log)[i],
        project(log).len() > 0 ==> {
            let n = project(log).len() as int;
            &&& project(log.push(e))[n - 1].role == project(log)[n - 1].role
            &&& project(log)[n - 1].content.is_prefix_of(project(log.push(e))[n - 1].content)
        },
{
    assert(log.push(e).drop_last() =~= log);
    let ms = project(log);
    let after = project(log.push(e));
    if ms.len() > 0 {
        let n = ms.len() as int;
        assert(after[n - 1].content == ms[n - 1].content || after[n - 1].content.drop_last()
            =~= ms[n - 1].content);
        assert(ms[n - 1].content =~= after[n - 1].content.subrange(
            0,
            ms[n - 1].content.len() as int,
        ));
    }
}

} // verus!

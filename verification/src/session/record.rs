//! The JSON form of a session: every event carries a tag, and reading what was written gives
//! back what was written.
use vstd::prelude::*;

use crate::codec::{
    Codec, field, field_or, head_text, listed, listed_behind, membered, name_views, read_field,
    read_field_or, tagged, trees,
};
use crate::json::{
    Json, Tree, json_pretty, json_read, lemma_nested_deeper, lemma_nested_with, nested, object,
    parse,
};
use crate::session::event::{BlockView, ContentBlock, EventView, SessionEvent};
use crate::session::log::{MetaView, RecordView, Session, SessionMeta, SessionRecord, record_of};
use crate::session::task::{
    TaskItem, TaskStatus, TaskView, lemma_status_roundtrip, parse_status, status_named,
    status_text, status_word,
};
use crate::text::same;

verus! {

/// The JSON form of a content block.
pub open spec fn block_tree(x: BlockView) -> Tree {
    match x {
        BlockView::Text { text } => object().with("kind"@, Tree::Text("text"@)).with(
            "text"@,
            String::tree(text),
        ),
        BlockView::ToolCall { id, name, arguments } => object().with(
            "kind"@,
            Tree::Text("tool_call"@),
        ).with("id"@, String::tree(id)).with("name"@, String::tree(name)).with(
            "arguments"@,
            Json::tree(arguments),
        ),
        BlockView::ToolResult { id, output, is_error } => object().with(
            "kind"@,
            Tree::Text("tool_result"@),
        ).with("id"@, String::tree(id)).with("output"@, Json::tree(output)).with(
            "is_error"@,
            bool::tree(is_error),
        ),
    }
}

/// The names of the members of a content block of a kind, in their order.
pub open spec fn block_names() -> spec_fn(Seq<char>) -> Seq<Seq<char>> {
    |tag: Seq<char>|
        if tag == "text"@ {
            seq!["text"@]
        } else if tag == "tool_call"@ {
            seq!["id"@, "name"@, "arguments"@]
        } else if tag == "tool_result"@ {
            seq!["id"@, "output"@, "is_error"@]
        } else {
            Seq::empty()
        }
}

fn names_of_block(tag: &str) -> (names: Vec<&'static str>)
    ensures
        name_views(names@) == block_names()(tag@),
{
    let names: Vec<&'static str> = if same(tag, "text") {
        vec!["text"]
    } else if same(tag, "tool_call") {
        vec!["id", "name", "arguments"]
    } else if same(tag, "tool_result") {
        vec!["id", "output", "is_error"]
    } else {
        Vec::new()
    };
    assert(name_views(names@) =~= block_names()(tag@));
    names
}

/// The content block from its members.
pub open spec fn block_from(t: Tree) -> Option<BlockView> {
    match t.text_at("kind"@) {
        None => None,
        Some(tag) => if tag == "text"@ {
            match field::<String>(t, "text"@) {
                Some(text) => Some(BlockView::Text { text }),
                None => None,
            }
        } else if tag == "tool_call"@ {
            match (
                field::<String>(t, "id"@),
                field::<String>(t, "name"@),
                field::<Json>(t, "arguments"@),
            ) {
                (Some(id), Some(name), Some(arguments)) => Some(
                    BlockView::ToolCall { id, name, arguments },
                ),
                _ => None,
            }
        } else if tag == "tool_result"@ {
            match (
                field::<String>(t, "id"@),
                field::<Json>(t, "output"@),
                field::<bool>(t, "is_error"@),
            ) {
                (Some(id), Some(output), Some(is_error)) => Some(
                    BlockView::ToolResult { id, output, is_error },
                ),
                _ => None,
            }
        } else {
            None
        },
    }
}

fn read_block(j: &Json) -> (r: Option<ContentBlock>)
    ensures
        r.deep_view() == block_from(j@),
{
    let tag = match j.str_at("kind") {
        Some(t) => t,
        None => return None,
    };
    if same(tag, "text") {
        match read_field::<String>(j, "text") {
            Some(text) => Some(ContentBlock::Text { text }),
            None => None,
        }
    } else if same(tag, "tool_call") {
        match (
            read_field::<String>(j, "id"),
            read_field::<String>(j, "name"),
            read_field::<Json>(j, "arguments"),
        ) {
            (Some(id), Some(name), Some(arguments)) => Some(
                ContentBlock::ToolCall { id, name, arguments },
            ),
            _ => None,
        }
    } else if same(tag, "tool_result") {
        match (
            read_field::<String>(j, "id"),
            read_field::<Json>(j, "output"),
            read_field::<bool>(j, "is_error"),
        ) {
            (Some(id), Some(output), Some(is_error)) => Some(
                ContentBlock::ToolResult { id, output, is_error },
            ),
            _ => None,
        }
    } else {
        None
    }
}

impl Codec for ContentBlock {
    open spec fn tree(v: BlockView) -> Tree {
        block_tree(v)
    }

    open spec fn read(t: Tree) -> Option<BlockView> {
        block_from(tagged(t, "kind"@, block_names()))
    }

    fn to_json(&self) -> (r: Json) {
        match self {
            ContentBlock::Text { text } => Json::object().with("kind", Json::text("text")).with(
                "text",
                text.to_json(),
            ),
            ContentBlock::ToolCall { id, name, arguments } => Json::object().with(
                "kind",
                Json::text("tool_call"),
            ).with("id", id.to_json()).with("name", name.to_json()).with(
                "arguments",
                arguments.to_json(),
            ),
            ContentBlock::ToolResult { id, output, is_error } => Json::object().with(
                "kind",
                Json::text("tool_result"),
            ).with("id", id.to_json()).with("output", output.to_json()).with(
                "is_error",
                is_error.to_json(),
            ),
        }
    }

    fn from_json(j: &Json) -> (r: Option<ContentBlock>) {
        match head_text(j) {
            Some(tag) => match listed_behind(j, "kind", tag, &names_of_block(tag)) {
                Some(m) => read_block(&m),
                None => read_block(j),
            },
            None => read_block(j),
        }
    }

    proof fn reads_back(v: BlockView) {
        reveal_strlit("kind");
        reveal_strlit("text");
        reveal_strlit("id");
        reveal_strlit("name");
        reveal_strlit("arguments");
        reveal_strlit("output");
        reveal_strlit("is_error");
        reveal_strlit("tool_call");
        reveal_strlit("tool_result");
        assert("kind"@[0] != "text"@[0]);
        assert("kind"@.len() != "id"@.len());
        assert("kind"@[0] != "name"@[0]);
        assert("kind"@.len() != "arguments"@.len());
        assert("kind"@.len() != "output"@.len());
        assert("kind"@.len() != "is_error"@.len());
        assert("id"@.len() != "name"@.len());
        assert("id"@.len() != "arguments"@.len());
        assert("id"@.len() != "output"@.len());
        assert("id"@.len() != "is_error"@.len());
        assert("name"@.len() != "arguments"@.len());
        assert("name"@.len() != "output"@.len());
        assert("name"@.len() != "is_error"@.len());
        assert("arguments"@.len() != "output"@.len());
        assert("arguments"@.len() != "is_error"@.len());
        assert("output"@.len() != "is_error"@.len());
        assert("text"@.len() != "tool_call"@.len());
        assert("text"@.len() != "tool_result"@.len());
        assert("tool_call"@.len() != "tool_result"@.len());
    }
}

/// The JSON form of an event.
pub open spec fn event_tree(x: EventView) -> Tree {
    match x {
        EventView::UserMessage { message_id, content } => object().with(
            "type"@,
            Tree::Text("user_message"@),
        ).with("message_id"@, String::tree(message_id)).with(
            "content"@,
            Vec::<ContentBlock>::tree(content),
        ),
        EventView::AssistantMessage { message_id, content } => object().with(
            "type"@,
            Tree::Text("assistant_message"@),
        ).with("message_id"@, String::tree(message_id)).with(
            "content"@,
            Vec::<ContentBlock>::tree(content),
        ),
        EventView::AssistantChunk { message_id, text } => object().with(
            "type"@,
            Tree::Text("assistant_chunk"@),
        ).with("message_id"@, String::tree(message_id)).with("text"@, String::tree(text)),
        EventView::ReasoningChunk { message_id, text } => object().with(
            "type"@,
            Tree::Text("reasoning_chunk"@),
        ).with("message_id"@, String::tree(message_id)).with("text"@, String::tree(text)),
        EventView::ToolCall { tool_call_id, tool_name, arguments } => object().with(
            "type"@,
            Tree::Text("tool_call"@),
        ).with("tool_call_id"@, String::tree(tool_call_id)).with(
            "tool_name"@,
            String::tree(tool_name),
        ).with("arguments"@, Json::tree(arguments)),
        EventView::ToolResult { tool_call_id, output, is_error } => object().with(
            "type"@,
            Tree::Text("tool_result"@),
        ).with("tool_call_id"@, String::tree(tool_call_id)).with(
            "output"@,
            Json::tree(output),
        ).with("is_error"@, bool::tree(is_error)),
        EventView::TurnStart { turn_id } => object().with("type"@, Tree::Text("turn_start"@)).with(
            "turn_id"@,
            String::tree(turn_id),
        ),
        EventView::StepStart { step_id } => object().with("type"@, Tree::Text("step_start"@)).with(
            "step_id"@,
            String::tree(step_id),
        ),
        EventView::StepEnd { step_id } => object().with("type"@, Tree::Text("step_end"@)).with(
            "step_id"@,
            String::tree(step_id),
        ),
        EventView::TurnEnd { turn_id } => object().with("type"@, Tree::Text("turn_end"@)).with(
            "turn_id"@,
            String::tree(turn_id),
        ),
        EventView::WorkflowStep { mode, step } => object().with(
            "type"@,
            Tree::Text("workflow_step"@),
        ).with("mode"@, String::tree(mode)).with("step"@, String::tree(step)),
    }
}

/// The event that a JSON value is the form of.
pub open spec fn event_from(t: Tree) -> Option<EventView> {
    match t.text_at("type"@) {
        None => None,
        Some(tag) => if tag == "user_message"@ {
            match (field::<String>(t, "message_id"@), field::<Vec<ContentBlock>>(t, "content"@)) {
                (Some(message_id), Some(content)) => Some(
                    EventView::UserMessage { message_id, content },
                ),
                _ => None,
            }
        } else if tag == "assistant_message"@ {
            match (field::<String>(t, "message_id"@), field::<Vec<ContentBlock>>(t, "content"@)) {
                (Some(message_id), Some(content)) => Some(
                    EventView::AssistantMessage { message_id, content },
                ),
                _ => None,
            }
        } else if tag == "assistant_chunk"@ {
            match (field::<String>(t, "message_id"@), field::<String>(t, "text"@)) {
                (Some(message_id), Some(text)) => Some(
                    EventView::AssistantChunk { message_id, text },
                ),
                _ => None,
            }
        } else if tag == "reasoning_chunk"@ {
            match (field::<String>(t, "message_id"@), field::<String>(t, "text"@)) {
                (Some(message_id), Some(text)) => Some(
                    EventView::ReasoningChunk { message_id, text },
                ),
                _ => None,
            }
        } else if tag == "tool_call"@ {
            match (
                field::<String>(t, "tool_call_id"@),
                field::<String>(t, "tool_name"@),
                field::<Json>(t, "arguments"@),
            ) {
                (Some(tool_call_id), Some(tool_name), Some(arguments)) => Some(
                    EventView::ToolCall { tool_call_id, tool_name, arguments },
                ),
                _ => None,
            }
        } else if tag == "tool_result"@ {
            match (
                field::<String>(t, "tool_call_id"@),
                field::<Json>(t, "output"@),
                field::<bool>(t, "is_error"@),
            ) {
                (Some(tool_call_id), Some(output), Some(is_error)) => Some(
                    EventView::ToolResult { tool_call_id, output, is_error },
                ),
                _ => None,
            }
        } else if tag == "turn_start"@ {
            match field::<String>(t, "turn_id"@) {
                Some(turn_id) => Some(EventView::TurnStart { turn_id }),
                None => None,
            }
        } else if tag == "step_start"@ {
            match field::<String>(t, "step_id"@) {
                Some(step_id) => Some(EventView::StepStart { step_id }),
                None => None,
            }
        } else if tag == "step_end"@ {
            match field::<String>(t, "step_id"@) {
                Some(step_id) => Some(EventView::StepEnd { step_id }),
                None => None,
            }
        } else if tag == "turn_end"@ {
            match field::<String>(t, "turn_id"@) {
                Some(turn_id) => Some(EventView::TurnEnd { turn_id }),
                None => None,
            }
        } else if tag == "workflow_step"@ {
            match (field::<String>(t, "mode"@), field::<String>(t, "step"@)) {
                (Some(mode), Some(step)) => Some(EventView::WorkflowStep { mode, step }),
                _ => None,
            }
        } else {
            None
        },
    }
}

/// The names of the members of an event of a kind, in their order.
pub open spec fn event_names() -> spec_fn(Seq<char>) -> Seq<Seq<char>> {
    |tag: Seq<char>|
        if tag == "user_message"@ || tag == "assistant_message"@ {
            seq!["message_id"@, "content"@]
        } else if tag == "assistant_chunk"@ || tag == "reasoning_chunk"@ {
            seq!["message_id"@, "text"@]
        } else if tag == "tool_call"@ {
            seq!["tool_call_id"@, "tool_name"@, "arguments"@]
        } else if tag == "tool_result"@ {
            seq!["tool_call_id"@, "output"@, "is_error"@]
        } else if tag == "turn_start"@ || tag == "turn_end"@ {
            seq!["turn_id"@]
        } else if tag == "step_start"@ || tag == "step_end"@ {
            seq!["step_id"@]
        } else if tag == "workflow_step"@ {
            seq!["mode"@, "step"@]
        } else {
            Seq::empty()
        }
}

fn names_of_event(tag: &str) -> (names: Vec<&'static str>)
    ensures
        name_views(names@) == event_names()(tag@),
{
    let names: Vec<&'static str> = if same(tag, "user_message") || same(tag, "assistant_message") {
        vec!["message_id", "content"]
    } else if same(tag, "assistant_chunk") || same(tag, "reasoning_chunk") {
        vec!["message_id", "text"]
    } else if same(tag, "tool_call") {
        vec!["tool_call_id", "tool_name", "arguments"]
    } else if same(tag, "tool_result") {
        vec!["tool_call_id", "output", "is_error"]
    } else if same(tag, "turn_start") || same(tag, "turn_end") {
        vec!["turn_id"]
    } else if same(tag, "step_start") || same(tag, "step_end") {
        vec!["step_id"]
    } else if same(tag, "workflow_step") {
        vec!["mode", "step"]
    } else {
        Vec::new()
    };
    assert(name_views(names@) =~= event_names()(tag@));
    names
}

fn read_event(j: &Json) -> (r: Option<SessionEvent>)
    ensures
        r.deep_view() == event_from(j@),
{
    let tag = match j.str_at("type") {
        Some(t) => t,
        None => return None,
    };
    if same(tag, "user_message") {
        match (
            read_field::<String>(j, "message_id"),
            read_field::<Vec<ContentBlock>>(j, "content"),
        ) {
            (Some(message_id), Some(content)) => Some(
                SessionEvent::UserMessage { message_id, content },
            ),
            _ => None,
        }
    } else if same(tag, "assistant_message") {
        match (
            read_field::<String>(j, "message_id"),
            read_field::<Vec<ContentBlock>>(j, "content"),
        ) {
            (Some(message_id), Some(content)) => Some(
                SessionEvent::AssistantMessage { message_id, content },
            ),
            _ => None,
        }
    } else if same(tag, "assistant_chunk") {
        match (read_field::<String>(j, "message_id"), read_field::<String>(j, "text")) {
            (Some(message_id), Some(text)) => Some(
                SessionEvent::AssistantChunk { message_id, text },
            ),
            _ => None,
        }
    } else if same(tag, "reasoning_chunk") {
        match (read_field::<String>(j, "message_id"), read_field::<String>(j, "text")) {
            (Some(message_id), Some(text)) => Some(
                SessionEvent::ReasoningChunk { message_id, text },
            ),
            _ => None,
        }
    } else if same(tag, "tool_call") {
        match (
            read_field::<String>(j, "tool_call_id"),
            read_field::<String>(j, "tool_name"),
            read_field::<Json>(j, "arguments"),
        ) {
            (Some(tool_call_id), Some(tool_name), Some(arguments)) => Some(
                SessionEvent::ToolCall { tool_call_id, tool_name, arguments },
            ),
            _ => None,
        }
    } else if same(tag, "tool_result") {
        match (
            read_field::<String>(j, "tool_call_id"),
            read_field::<Json>(j, "output"),
            read_field::<bool>(j, "is_error"),
        ) {
            (Some(tool_call_id), Some(output), Some(is_error)) => Some(
                SessionEvent::ToolResult { tool_call_id, output, is_error },
            ),
            _ => None,
        }
    } else if same(tag, "turn_start") {
        match read_field::<String>(j, "turn_id") {
            Some(turn_id) => Some(SessionEvent::TurnStart { turn_id }),
            None => None,
        }
    } else if same(tag, "step_start") {
        match read_field::<String>(j, "step_id") {
            Some(step_id) => Some(SessionEvent::StepStart { step_id }),
            None => None,
        }
    } else if same(tag, "step_end") {
        match read_field::<String>(j, "step_id") {
            Some(step_id) => Some(SessionEvent::StepEnd { step_id }),
            None => None,
        }
    } else if same(tag, "turn_end") {
        match read_field::<String>(j, "turn_id") {
            Some(turn_id) => Some(SessionEvent::TurnEnd { turn_id }),
            None => None,
        }
    } else if same(tag, "workflow_step") {
        match (read_field::<String>(j, "mode"), read_field::<String>(j, "step")) {
            (Some(mode), Some(step)) => Some(SessionEvent::WorkflowStep { mode, step }),
            _ => None,
        }
    } else {
        None
    }
}

impl Codec for SessionEvent {
    open spec fn tree(v: EventView) -> Tree {
        event_tree(v)
    }

    open spec fn read(t: Tree) -> Option<EventView> {
        event_from(tagged(t, "type"@, event_names()))
    }

    fn to_json(&self) -> (r: Json) {
        match self {
            SessionEvent::UserMessage { message_id, content } => Json::object().with(
                "type",
                Json::text("user_message"),
            ).with("message_id", message_id.to_json()).with("content", content.to_json()),
            SessionEvent::AssistantMessage { message_id, content } => Json::object().with(
                "type",
                Json::text("assistant_message"),
            ).with("message_id", message_id.to_json()).with("content", content.to_json()),
            SessionEvent::AssistantChunk { message_id, text } => Json::object().with(
                "type",
                Json::text("assistant_chunk"),
            ).with("message_id", message_id.to_json()).with("text", text.to_json()),
            SessionEvent::ReasoningChunk { message_id, text } => Json::object().with(
                "type",
                Json::text("reasoning_chunk"),
            ).with("message_id", message_id.to_json()).with("text", text.to_json()),
            SessionEvent::ToolCall { tool_call_id, tool_name, arguments } => Json::object().with(
                "type",
                Json::text("tool_call"),
            ).with("tool_call_id", tool_call_id.to_json()).with(
                "tool_name",
                tool_name.to_json(),
            ).with("arguments", arguments.to_json()),
            SessionEvent::ToolResult { tool_call_id, output, is_error } => Json::object().with(
                "type",
                Json::text("tool_result"),
            ).with("tool_call_id", tool_call_id.to_json()).with("output", output.to_json()).with(
                "is_error",
                is_error.to_json(),
            ),
            SessionEvent::TurnStart { turn_id } => Json::object().with(
                "type",
                Json::text("turn_start"),
            ).with("turn_id", turn_id.to_json()),
            SessionEvent::StepStart { step_id } => Json::object().with(
                "type",
                Json::text("step_start"),
            ).with("step_id", step_id.to_json()),
            SessionEvent::StepEnd { step_id } => Json::object().with(
                "type",
                Json::text("step_end"),
            ).with("step_id", step_id.to_json()),
            SessionEvent::TurnEnd { turn_id } => Json::object().with(
                "type",
                Json::text("turn_end"),
            ).with("turn_id", turn_id.to_json()),
            SessionEvent::WorkflowStep { mode, step } => Json::object().with(
                "type",
                Json::text("workflow_step"),
            ).with("mode", mode.to_json()).with("step", step.to_json()),
        }
    }

    fn from_json(j: &Json) -> (r: Option<SessionEvent>) {
        match head_text(j) {
            Some(tag) => match listed_behind(j, "type", tag, &names_of_event(tag)) {
                Some(m) => read_event(&m),
                None => read_event(j),
            },
            None => read_event(j),
        }
    }

    proof fn reads_back(v: EventView) {
        lemma_tags();
        lemma_event_keys();
        match v {
            EventView::UserMessage { content, .. } => {
                Vec::<ContentBlock>::reads_back(content);
            },
            EventView::AssistantMessage { content, .. } => {
                Vec::<ContentBlock>::reads_back(content);
            },
            _ => {},
        }
    }
}

proof fn lemma_tags()
    ensures
        "user_message"@ != "assistant_message"@,
        "user_message"@ != "assistant_chunk"@,
        "user_message"@ != "reasoning_chunk"@,
        "user_message"@ != "tool_call"@,
        "user_message"@ != "tool_result"@,
        "user_message"@ != "turn_start"@,
        "user_message"@ != "step_start"@,
        "user_message"@ != "step_end"@,
        "user_message"@ != "turn_end"@,
        "user_message"@ != "workflow_step"@,
        "assistant_message"@ != "assistant_chunk"@,
        "assistant_message"@ != "reasoning_chunk"@,
        "assistant_message"@ != "tool_call"@,
        "assistant_message"@ != "tool_result"@,
        "assistant_message"@ != "turn_start"@,
        "assistant_message"@ != "step_start"@,
        "assistant_message"@ != "step_end"@,
        "assistant_message"@ != "turn_end"@,
        "assistant_message"@ != "workflow_step"@,
        "assistant_chunk"@ != "reasoning_chunk"@,
        "assistant_chunk"@ != "tool_call"@,
        "assistant_chunk"@ != "tool_result"@,
        "assistant_chunk"@ != "turn_start"@,
        "assistant_chunk"@ != "step_start"@,
        "assistant_chunk"@ != "step_end"@,
        "assistant_chunk"@ != "turn_end"@,
        "assistant_chunk"@ != "workflow_step"@,
        "reasoning_chunk"@ != "tool_call"@,
        "reasoning_chunk"@ != "tool_result"@,
        "reasoning_chunk"@ != "turn_start"@,
        "reasoning_chunk"@ != "step_start"@,
        "reasoning_chunk"@ != "step_end"@,
        "reasoning_chunk"@ != "turn_end"@,
        "reasoning_chunk"@ != "workflow_step"@,
        "tool_call"@ != "tool_result"@,
        "tool_call"@ != "turn_start"@,
        "tool_call"@ != "step_start"@,
        "tool_call"@ != "step_end"@,
        "tool_call"@ != "turn_end"@,
        "tool_call"@ != "workflow_step"@,
        "tool_result"@ != "turn_start"@,
        "tool_result"@ != "step_start"@,
        "tool_result"@ != "step_end"@,
        "tool_result"@ != "turn_end"@,
        "tool_result"@ != "workflow_step"@,
        "turn_start"@ != "step_start"@,
        "turn_start"@ != "step_end"@,
        "turn_start"@ != "turn_end"@,
        "turn_start"@ != "workflow_step"@,
        "step_start"@ != "step_end"@,
        "step_start"@ != "turn_end"@,
        "step_start"@ != "workflow_step"@,
        "step_end"@ != "turn_end"@,
        "step_end"@ != "workflow_step"@,
        "turn_end"@ != "workflow_step"@,
{
    reveal_strlit("user_message");
    reveal_strlit("assistant_message");
    reveal_strlit("assistant_chunk");
    reveal_strlit("reasoning_chunk");
    reveal_strlit("tool_call");
    reveal_strlit("tool_result");
    reveal_strlit("turn_start");
    reveal_strlit("step_start");
    reveal_strlit("step_end");
    reveal_strlit("turn_end");
    reveal_strlit("workflow_step");
    assert("user_message"@.len() != "assistant_message"@.len());
    assert("user_message"@.len() != "assistant_chunk"@.len());
    assert("user_message"@.len() != "reasoning_chunk"@.len());
    assert("user_message"@.len() != "tool_call"@.len());
    assert("user_message"@.len() != "tool_result"@.len());
    assert("user_message"@.len() != "turn_start"@.len());
    assert("user_message"@.len() != "step_start"@.len());
    assert("user_message"@.len() != "step_end"@.len());
    assert("user_message"@.len() != "turn_end"@.len());
    assert("user_message"@.len() != "workflow_step"@.len());
    assert("assistant_message"@.len() != "assistant_chunk"@.len());
    assert("assistant_message"@.len() != "reasoning_chunk"@.len());
    assert("assistant_message"@.len() != "tool_call"@.len());
    assert("assistant_message"@.len() != "tool_result"@.len());
    assert("assistant_message"@.len() != "turn_start"@.len());
    assert("assistant_message"@.len() != "step_start"@.len());
    assert("assistant_message"@.len() != "step_end"@.len());
    assert("assistant_message"@.len() != "turn_end"@.len());
    assert("assistant_message"@.len() != "workflow_step"@.len());
    assert("assistant_chunk"@[0] != "reasoning_chunk"@[0]);
    assert("assistant_chunk"@.len() != "tool_call"@.len());
    assert("assistant_chunk"@.len() != "tool_result"@.len());
    assert("assistant_chunk"@.len() != "turn_start"@.len());
    assert("assistant_chunk"@.len() != "step_start"@.len());
    assert("assistant_chunk"@.len() != "step_end"@.len());
    assert("assistant_chunk"@.len() != "turn_end"@.len());
    assert("assistant_chunk"@.len() != "workflow_step"@.len());
    assert("reasoning_chunk"@.len() != "tool_call"@.len());
    assert("reasoning_chunk"@.len() != "tool_result"@.len());
    assert("reasoning_chunk"@.len() != "turn_start"@.len());
    assert("reasoning_chunk"@.len() != "step_start"@.len());
    assert("reasoning_chunk"@.len() != "step_end"@.len());
    assert("reasoning_chunk"@.len() != "turn_end"@.len());
    assert("reasoning_chunk"@.len() != "workflow_step"@.len());
    assert("tool_call"@.len() != "tool_result"@.len());
    assert("tool_call"@.len() != "turn_start"@.len());
    assert("tool_call"@.len() != "step_start"@.len());
    assert("tool_call"@.len() != "step_end"@.len());
    assert("tool_call"@.len() != "turn_end"@.len());
    assert("tool_call"@.len() != "workflow_step"@.len());
    assert("tool_result"@.len() != "turn_start"@.len());
    assert("tool_result"@.len() != "step_start"@.len());
    assert("tool_result"@.len() != "step_end"@.len());
    assert("tool_result"@.len() != "turn_end"@.len());
    assert("tool_result"@.len() != "workflow_step"@.len());
    assert("turn_start"@[0] != "step_start"@[0]);
    assert("turn_start"@.len() != "step_end"@.len());
    assert("turn_start"@.len() != "turn_end"@.len());
    assert("turn_start"@.len() != "workflow_step"@.len());
    assert("step_start"@.len() != "step_end"@.len());
    assert("step_start"@.len() != "turn_end"@.len());
    assert("step_start"@.len() != "workflow_step"@.len());
    assert("step_end"@[0] != "turn_end"@[0]);
    assert("step_end"@.len() != "workflow_step"@.len());
    assert("turn_end"@.len() != "workflow_step"@.len());
}

proof fn lemma_event_keys()
    ensures
        "message_id"@ != "content"@,
        "message_id"@ != "text"@,
        "mode"@ != "step"@,
        "output"@ != "is_error"@,
        "tool_call_id"@ != "arguments"@,
        "tool_call_id"@ != "is_error"@,
        "tool_call_id"@ != "output"@,
        "tool_call_id"@ != "tool_name"@,
        "tool_name"@ != "arguments"@,
        "type"@ != "arguments"@,
        "type"@ != "content"@,
        "type"@ != "is_error"@,
        "type"@ != "message_id"@,
        "type"@ != "mode"@,
        "type"@ != "output"@,
        "type"@ != "step"@,
        "type"@ != "step_id"@,
        "type"@ != "text"@,
        "type"@ != "tool_call_id"@,
        "type"@ != "tool_name"@,
        "type"@ != "turn_id"@,
{
    reveal_strlit("arguments");
    reveal_strlit("content");
    reveal_strlit("is_error");
    reveal_strlit("message_id");
    reveal_strlit("mode");
    reveal_strlit("output");
    reveal_strlit("step");
    reveal_strlit("step_id");
    reveal_strlit("text");
    reveal_strlit("tool_call_id");
    reveal_strlit("tool_name");
    reveal_strlit("turn_id");
    reveal_strlit("type");
    assert("message_id"@.len() != "content"@.len());
    assert("message_id"@.len() != "text"@.len());
    assert("mode"@[0] != "step"@[0]);
    assert("output"@.len() != "is_error"@.len());
    assert("tool_call_id"@.len() != "arguments"@.len());
    assert("tool_call_id"@.len() != "is_error"@.len());
    assert("tool_call_id"@.len() != "output"@.len());
    assert("tool_call_id"@.len() != "tool_name"@.len());
    assert("tool_name"@[0] != "arguments"@[0]);
    assert("type"@.len() != "arguments"@.len());
    assert("type"@.len() != "content"@.len());
    assert("type"@.len() != "is_error"@.len());
    assert("type"@.len() != "message_id"@.len());
    assert("type"@[0] != "mode"@[0]);
    assert("type"@.len() != "output"@.len());
    assert("type"@[0] != "step"@[0]);
    assert("type"@.len() != "step_id"@.len());
    assert("type"@[1] != "text"@[1]);
    assert("type"@.len() != "tool_call_id"@.len());
    assert("type"@.len() != "tool_name"@.len());
    assert("type"@.len() != "turn_id"@.len());
}

/// The JSON form of a task.
pub open spec fn task_tree(t: TaskView) -> Tree {
    object().with("id"@, Tree::Text(t.id)).with("title"@, Tree::Text(t.title)).with(
        "done"@,
        Tree::Bool(t.done),
    ).with("status"@, Tree::Text(status_word(t.status)))
}

/// The status of a task for which none is written: `done` decides.
pub open spec fn status_of_done(done: bool) -> TaskStatus {
    if done {
        TaskStatus::Completed
    } else {
        TaskStatus::Pending
    }
}

/// The task from its members. A task is not done where nothing is said of it.
pub open spec fn task_from(t: Tree) -> Option<TaskView> {
    match (
        field::<String>(t, "id"@),
        field::<String>(t, "title"@),
        field_or::<bool>(t, "done"@, false),
    ) {
        (Some(id), Some(title), Some(done)) => match t.at("status"@) {
            None => Some(TaskView { id, title, done, status: status_of_done(done) }),
            Some(s) => match s.text() {
                Some(word) => Some(TaskView { id, title, done, status: status_named(word) }),
                None => None,
            },
        },
        _ => None,
    }
}

/// The names of the members of a task, in their order.
pub open spec fn task_names() -> Seq<Seq<char>> {
    seq![
        "id"@,
        "title"@,
        "done"@,
        "status"@,
    ]
}

fn read_task(j: &Json) -> (r: Option<TaskItem>)
    ensures
        r.deep_view() == task_from(j@),
{
    match (
        read_field::<String>(j, "id"),
        read_field::<String>(j, "title"),
        read_field_or::<bool>(j, "done", false),
    ) {
        (Some(id), Some(title), Some(done)) => match j.get("status") {
            None => {
                let status = if done { TaskStatus::Completed } else { TaskStatus::Pending };
                Some(TaskItem { id, title, done, status })
            },
            Some(s) => match s.as_str() {
                Some(word) => Some(TaskItem { id, title, done, status: parse_status(word) }),
                None => None,
            },
        },
        _ => None,
    }
}

impl Codec for TaskItem {
    open spec fn tree(v: TaskView) -> Tree {
        task_tree(v)
    }

    open spec fn read(t: Tree) -> Option<TaskView> {
        task_from(membered(t, task_names()))
    }

    fn to_json(&self) -> (r: Json) {
        Json::object().with("id", self.id.to_json()).with("title", self.title.to_json()).with(
            "done",
            Json::Bool(self.done),
        ).with("status", Json::text(status_text(self.status)))
    }

    fn from_json(j: &Json) -> (r: Option<TaskItem>) {
        let names: Vec<&str> = vec!["id", "title", "done", "status"];
        assert(name_views(names@) =~= task_names());
        match listed(j, &names) {
            Some(m) => read_task(&m),
            None => read_task(j),
        }
    }

    proof fn reads_back(v: TaskView) {
        reveal_strlit("id");
        reveal_strlit("title");
        reveal_strlit("done");
        reveal_strlit("status");
        assert("id"@.len() != "title"@.len());
        assert("id"@.len() != "done"@.len());
        assert("id"@.len() != "status"@.len());
        assert("title"@.len() != "done"@.len());
        assert("title"@.len() != "status"@.len());
        assert("done"@.len() != "status"@.len());
        lemma_status_roundtrip(v.status);
    }
}

/// The JSON form of a session's metadata.
pub open spec fn meta_tree(m: MetaView) -> Tree {
    object().with("id"@, Tree::Text(m.id)).with("title"@, Tree::Text(m.title)).with(
        "created_at"@,
        Tree::Unsigned(m.created_at),
    ).with("event_count"@, Tree::Unsigned(m.event_count as u64)).with(
        "task_count"@,
        Tree::Unsigned(m.task_count as u64),
    )
}

impl SessionMeta {
    /// The JSON form of the metadata.
    pub fn to_json(&self) -> (r: Json)
        ensures
            r@ == meta_tree(self@),
    {
        Json::object().with("id", self.id.to_json()).with("title", self.title.to_json()).with(
            "created_at",
            Json::number(self.created_at),
        ).with("event_count", Json::number(self.event_count as u64)).with(
            "task_count",
            Json::number(self.task_count as u64),
        )
    }
}

/// The JSON form of a session.
pub open spec fn record_tree(r: RecordView) -> Tree {
    object().with("id"@, String::tree(r.id)).with("title"@, String::tree(r.title)).with(
        "created_at"@,
        u64::tree(r.created_at),
    ).with("events"@, Vec::<SessionEvent>::tree(r.events)).with(
        "tasks"@,
        Vec::<TaskItem>::tree(r.tasks),
    ).with("workspace"@, Option::<String>::tree(r.workspace)).with(
        "work_mode"@,
        String::tree(r.work_mode),
    ).with("workflow_phase"@, String::tree(r.workflow_phase))
}

/// The session from its members. The workspace, the mode and the phase may be missing.
pub open spec fn record_from(t: Tree) -> Option<RecordView> {
    match (
        field::<String>(t, "id"@),
        field::<String>(t, "title"@),
        field::<u64>(t, "created_at"@),
        field::<Vec<SessionEvent>>(t, "events"@),
        field::<Vec<TaskItem>>(t, "tasks"@),
        field_or::<Option<String>>(t, "workspace"@, None),
        field_or::<String>(t, "work_mode"@, "direct"@),
        field_or::<String>(t, "workflow_phase"@, ""@),
    ) {
        (
            Some(id),
            Some(title),
            Some(created_at),
            Some(events),
            Some(tasks),
            Some(workspace),
            Some(work_mode),
            Some(workflow_phase),
        ) => Some(
            RecordView {
                id,
                title,
                created_at,
                events,
                tasks,
                workspace,
                work_mode,
                workflow_phase,
            },
        ),
        _ => None,
    }
}

impl DeepView for SessionRecord {
    type V = RecordView;

    open spec fn deep_view(&self) -> RecordView {
        self@
    }
}

/// The names of the members of a session, in their order.
pub open spec fn session_names() -> Seq<Seq<char>> {
    seq![
        "id"@,
        "title"@,
        "created_at"@,
        "events"@,
        "tasks"@,
        "workspace"@,
        "work_mode"@,
        "workflow_phase"@,
    ]
}

fn read_session(j: &Json) -> (r: Option<SessionRecord>)
    ensures
        r.deep_view() == record_from(j@),
{
    match (
        read_field::<String>(j, "id"),
        read_field::<String>(j, "title"),
        read_field::<u64>(j, "created_at"),
        read_field::<Vec<SessionEvent>>(j, "events"),
        read_field::<Vec<TaskItem>>(j, "tasks"),
        read_field_or::<Option<String>>(j, "workspace", None),
        read_field_or::<String>(j, "work_mode", "direct".to_owned()),
        read_field_or::<String>(j, "workflow_phase", "".to_owned()),
    ) {
        (
            Some(id),
            Some(title),
            Some(created_at),
            Some(events),
            Some(tasks),
            Some(workspace),
            Some(work_mode),
            Some(workflow_phase),
        ) => Some(
            SessionRecord {
                id,
                title,
                created_at,
                events,
                tasks,
                workspace,
                work_mode,
                workflow_phase,
            },
        ),
        _ => None,
    }
}

impl Codec for SessionRecord {
    open spec fn tree(v: RecordView) -> Tree {
        record_tree(v)
    }

    open spec fn read(t: Tree) -> Option<RecordView> {
        record_from(membered(t, session_names()))
    }

    fn to_json(&self) -> (r: Json) {
        Json::object().with("id", self.id.to_json()).with("title", self.title.to_json()).with(
            "created_at",
            self.created_at.to_json(),
        ).with("events", self.events.to_json()).with("tasks", self.tasks.to_json()).with(
            "workspace",
            self.workspace.to_json(),
        ).with("work_mode", self.work_mode.to_json()).with(
            "workflow_phase",
            self.workflow_phase.to_json(),
        )
    }

    fn from_json(j: &Json) -> (r: Option<SessionRecord>) {
        let names: Vec<&str> = vec![
            "id",
            "title",
            "created_at",
            "events",
            "tasks",
            "workspace",
            "work_mode",
            "workflow_phase",
        ];
        assert(name_views(names@) =~= session_names());
        match listed(j, &names) {
            Some(m) => read_session(&m),
            None => read_session(j),
        }
    }

    /// A record is read back from its JSON form as it was.
    proof fn reads_back(v: RecordView) {
        reveal_strlit("id");
        reveal_strlit("title");
        reveal_strlit("created_at");
        reveal_strlit("events");
        reveal_strlit("tasks");
        reveal_strlit("workspace");
        reveal_strlit("work_mode");
        reveal_strlit("workflow_phase");
        assert("id"@.len() != "title"@.len());
        assert("id"@.len() != "created_at"@.len());
        assert("id"@.len() != "events"@.len());
        assert("id"@.len() != "tasks"@.len());
        assert("id"@.len() != "workspace"@.len());
        assert("id"@.len() != "work_mode"@.len());
        assert("id"@.len() != "workflow_phase"@.len());
        assert("title"@.len() != "created_at"@.len());
        assert("title"@.len() != "events"@.len());
        assert("title"@[1] != "tasks"@[1]);
        assert("title"@.len() != "workspace"@.len());
        assert("title"@.len() != "work_mode"@.len());
        assert("title"@.len() != "workflow_phase"@.len());
        assert("created_at"@.len() != "events"@.len());
        assert("created_at"@.len() != "tasks"@.len());
        assert("created_at"@.len() != "workspace"@.len());
        assert("created_at"@.len() != "work_mode"@.len());
        assert("created_at"@.len() != "workflow_phase"@.len());
        assert("events"@.len() != "tasks"@.len());
        assert("events"@.len() != "workspace"@.len());
        assert("events"@.len() != "work_mode"@.len());
        assert("events"@.len() != "workflow_phase"@.len());
        assert("tasks"@.len() != "workspace"@.len());
        assert("tasks"@.len() != "work_mode"@.len());
        assert("tasks"@.len() != "workflow_phase"@.len());
        assert("workspace"@[4] != "work_mode"@[4]);
        assert("workspace"@.len() != "workflow_phase"@.len());
        assert("work_mode"@.len() != "workflow_phase"@.len());
        Vec::<SessionEvent>::reads_back(v.events);
        Vec::<TaskItem>::reads_back(v.tasks);
        Option::<String>::reads_back(v.workspace);
    }
}

/// The record that a text is the form of. Where a name stands twice in an object of the text, the
/// later member counts.
pub open spec fn record_in(text: Seq<char>) -> Option<RecordView> {
    match json_read(text) {
        Ok(t) => SessionRecord::read(t),
        Err(_) => None,
    }
}

/// Reads a record from a text.
pub fn read_record(text: &str) -> (r: Option<SessionRecord>)
    ensures
        r.deep_view() == record_in(text@),
{
    match parse(text) {
        Ok(j) => SessionRecord::from_json(&j),
        Err(_) => None,
    }
}

/// Whether the JSON values in a block are nested at most `n` levels.
pub open spec fn block_nested(b: BlockView, n: nat) -> bool {
    match b {
        BlockView::Text { .. } => true,
        BlockView::ToolCall { arguments, .. } => nested(arguments, n),
        BlockView::ToolResult { output, .. } => nested(output, n),
    }
}

/// Whether the JSON values in an event are nested at most `n` levels.
pub open spec fn event_nested(e: EventView, n: nat) -> bool {
    match e {
        EventView::UserMessage { content, .. } => forall|i: int|
            0 <= i < content.len() ==> block_nested(#[trigger] content[i], n),
        EventView::AssistantMessage { content, .. } => forall|i: int|
            0 <= i < content.len() ==> block_nested(#[trigger] content[i], n),
        EventView::ToolCall { arguments, .. } => nested(arguments, n),
        EventView::ToolResult { output, .. } => nested(output, n),
        _ => true,
    }
}

/// Whether the JSON values in a log are nested at most `n` levels.
pub open spec fn log_nested(log: Seq<EventView>, n: nat) -> bool {
    forall|i: int| 0 <= i < log.len() ==> event_nested(#[trigger] log[i], n)
}

proof fn lemma_content_nesting(content: Seq<BlockView>)
    requires
        forall|i: int| 0 <= i < content.len() ==> block_nested(#[trigger] content[i], 122),
    ensures
        nested(Vec::<ContentBlock>::tree(content), 124),
{
    broadcast use lemma_nested_with;

    let all = trees::<ContentBlock>(content);
    assert forall|i: int| 0 <= i < all.len() implies nested(#[trigger] all[i], 123) by {
        assert(block_nested(content[i], 122));
    }
}

proof fn lemma_event_nesting(e: EventView)
    requires
        event_nested(e, 122),
    ensures
        nested(event_tree(e), 125),
{
    broadcast use lemma_nested_with;

    match e {
        EventView::UserMessage { content, .. } => lemma_content_nesting(content),
        EventView::AssistantMessage { content, .. } => lemma_content_nesting(content),
        EventView::ToolCall { arguments, .. } => lemma_nested_deeper(arguments, 122, 124),
        EventView::ToolResult { output, .. } => lemma_nested_deeper(output, 122, 124),
        _ => {},
    }
}

proof fn lemma_record_nesting(r: RecordView)
    requires
        log_nested(r.events, 122),
    ensures
        nested(record_tree(r), 127),
{
    broadcast use lemma_nested_with;

    let events = trees::<SessionEvent>(r.events);
    assert forall|i: int| 0 <= i < events.len() implies nested(#[trigger] events[i], 125) by {
        lemma_event_nesting(r.events[i]);
    }
    assert(nested(Tree::Array(events), 126));
    let tasks = trees::<TaskItem>(r.tasks);
    assert forall|i: int| 0 <= i < tasks.len() implies nested(#[trigger] tasks[i], 125) by {}
    assert(nested(Tree::Array(tasks), 126));
}

impl Session {
    /// The full session, indented: the log, the tasks and the rest. It is read back as it was,
    /// unless a value in the log is nested deeper than is read.
    pub fn to_json(&self) -> (r: String)
        ensures
            r@ == json_pretty(record_tree(record_of(self@))),
            log_nested(self@.log, 122) ==> record_in(r@) == Some(record_of(self@)),
    {
        let record = self.to_record();
        let s = record.to_json().to_text_pretty();
        proof {
            SessionRecord::reads_back(record@);
            if log_nested(self@.log, 122) {
                lemma_record_nesting(record@);
            }
        }
        s
    }
}

} // verus!

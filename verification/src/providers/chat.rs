//! The request body and the answers of an OpenAI-compatible endpoint.
use vstd::prelude::*;
use vstd::string::*;

use crate::agent::model::{
    ModelMessage, ModelRequest, ModelRole, ModelToolCall, RequestView, ToolCallView, WireView,
};
use crate::duplicate::Duplicate;
use crate::json::{Json, Tree, json_compact, object};
use crate::text::{concat2, trim_end_matches, without_trailing};
use crate::tool::description::{DescriptionView, ToolDescription};

verus! {

/// The word for a role.
pub open spec fn role_word(role: ModelRole) -> Seq<char> {
    match role {
        ModelRole::System => "system"@,
        ModelRole::User => "user"@,
        ModelRole::Assistant => "assistant"@,
        ModelRole::Tool => "tool"@,
    }
}

/// The word for a role.
pub fn role_str(role: ModelRole) -> (r: &'static str)
    ensures
        r@ == role_word(role),
{
    match role {
        ModelRole::System => "system",
        ModelRole::User => "user",
        ModelRole::Assistant => "assistant",
        ModelRole::Tool => "tool",
    }
}

/// A tool call on the wire; its arguments are JSON text.
pub open spec fn call_tree(c: ToolCallView) -> Tree {
    object().with("id"@, Tree::Text(c.id)).with("type"@, Tree::Text("function"@)).with(
        "function"@,
        object().with("name"@, Tree::Text(c.name)).with(
            "arguments"@,
            Tree::Text(json_compact(c.arguments)),
        ),
    )
}

/// Tool calls on the wire.
pub open spec fn calls_tree(calls: Seq<ToolCallView>) -> Tree {
    Tree::Array(Seq::new(calls.len(), |i: int| call_tree(calls[i])))
}

/// A message on the wire. What it lacks is left out.
pub open spec fn message_tree(m: WireView) -> Tree {
    let a = object().with("role"@, Tree::Text(role_word(m.role)));
    let b = match m.content {
        Some(c) => a.with("content"@, Tree::Text(c)),
        None => a,
    };
    let c = if m.tool_calls.len() > 0 {
        b.with("tool_calls"@, calls_tree(m.tool_calls))
    } else {
        b
    };
    match m.tool_call_id {
        Some(id) => c.with("tool_call_id"@, Tree::Text(id)),
        None => c,
    }
}

/// A tool on the wire.
pub open spec fn tool_tree(d: DescriptionView) -> Tree {
    object().with("type"@, Tree::Text("function"@)).with(
        "function"@,
        object().with("name"@, Tree::Text(d.name)).with(
            "description"@,
            Tree::Text(d.description),
        ).with("parameters"@, d.parameters),
    )
}

/// The body of a request. The model is the one that the request names.
pub open spec fn chat_tree(q: RequestView, stream: bool) -> Tree {
    let body = object().with("model"@, Tree::Text(q.model)).with(
        "messages"@,
        Tree::Array(Seq::new(q.messages.len(), |i: int| message_tree(q.messages[i]))),
    ).with("tools"@, Tree::Array(Seq::new(q.tools.len(), |i: int| tool_tree(q.tools[i]))));
    if stream {
        body.with("stream"@, Tree::Bool(true))
    } else {
        body
    }
}

fn call_json(c: &ModelToolCall) -> (r: Json)
    ensures
        r@ == call_tree(c@),
{
    let arguments = c.arguments.to_text();
    let function = Json::object().with("name", Json::text(c.name.as_str())).with(
        "arguments",
        Json::Text(arguments),
    );
    Json::object().with("id", Json::text(c.id.as_str())).with("type", Json::text("function")).with(
        "function",
        function,
    )
}

fn calls_json(calls: &Vec<ModelToolCall>) -> (r: Json)
    ensures
        r@ == calls_tree(calls.deep_view()),
{
    let mut out: Vec<Json> = Vec::new();
    let mut i: usize = 0;
    while i < calls.len()
        invariant
            i <= calls@.len(),
            out@.len() == i,
            forall|k: int| 0 <= k < i ==> (#[trigger] out@[k])@ == call_tree(calls@[k]@),
        decreases calls@.len() - i,
    {
        out.push(call_json(&calls[i]));
        i = i + 1;
    }
    assert(out.deep_view() =~= calls_tree(calls.deep_view())->Array_0);
    Json::array(out)
}

fn message_json(m: &ModelMessage) -> (r: Json)
    ensures
        r@ == message_tree(m@),
{
    let mut obj = Json::object().with("role", Json::text(role_str(m.role)));
    match &m.content {
        Some(c) => {
            obj = obj.with("content", Json::text(c.as_str()));
        },
        None => {},
    }
    if m.tool_calls.len() > 0 {
        obj = obj.with("tool_calls", calls_json(&m.tool_calls));
    }
    match &m.tool_call_id {
        Some(id) => {
            obj = obj.with("tool_call_id", Json::text(id.as_str()));
        },
        None => {},
    }
    obj
}

fn tool_json(d: &ToolDescription) -> (r: Json)
    ensures
        r@ == tool_tree(d@),
{
    let function = Json::object().with("name", Json::text(d.name.as_str())).with(
        "description",
        Json::text(d.description.as_str()),
    ).with("parameters", d.parameters.duplicate());
    Json::object().with("type", Json::text("function")).with("function", function)
}

/// The request, put to another model.
pub open spec fn put_to(q: RequestView, model: Seq<char>) -> RequestView {
    RequestView { model, ..q }
}

/// The body of a request.
pub fn chat_body(request: &ModelRequest, stream: bool) -> (r: Json)
    ensures
        r@ == chat_tree(request@, stream),
{
    assert(put_to(request@, request@.model) =~= request@);
    chat_body_to(request.model.as_str(), request, stream)
}

/// The body of a request, put to a given model.
pub fn chat_body_to(model: &str, request: &ModelRequest, stream: bool) -> (r: Json)
    ensures
        r@ == chat_tree(put_to(request@, model@), stream),
{
    let mut messages: Vec<Json> = Vec::new();
    let mut i: usize = 0;
    while i < request.messages.len()
        invariant
            i <= request.messages@.len(),
            messages@.len() == i,
            forall|k: int|
                0 <= k < i ==> (#[trigger] messages@[k])@ == message_tree(request.messages@[k]@),
        decreases request.messages@.len() - i,
    {
        messages.push(message_json(&request.messages[i]));
        i = i + 1;
    }
    let mut tools: Vec<Json> = Vec::new();
    let mut k: usize = 0;
    while k < request.tools.len()
        invariant
            k <= request.tools@.len(),
            tools@.len() == k,
            forall|j: int| 0 <= j < k ==> (#[trigger] tools@[j])@ == tool_tree(request.tools@[j]@),
        decreases request.tools@.len() - k,
    {
        tools.push(tool_json(&request.tools[k]));
        k = k + 1;
    }
    assert(messages.deep_view() =~= Seq::new(
        request@.messages.len(),
        |i: int| message_tree(request@.messages[i]),
    ));
    assert(tools.deep_view() =~= Seq::new(
        request@.tools.len(),
        |i: int| tool_tree(request@.tools[i]),
    ));
    let body = Json::object().with("model", Json::text(model)).with(
        "messages",
        Json::array(messages),
    ).with("tools", Json::array(tools));
    if stream {
        body.with("stream", Json::Bool(true))
    } else {
        body
    }
}

/// A path below a base address, with one slash between them.
pub open spec fn route(base: Seq<char>, path: Seq<char>) -> Seq<char> {
    without_trailing(base, '/') + path
}

/// A path below a base address, with one slash between them.
pub fn route_to(base: &str, path: &str) -> (r: String)
    ensures
        r@ == route(base@, path@),
{
    let b = trim_end_matches(base, '/');
    concat2(b.as_str(), path)
}

} // verus!

//! What a model is sent: which part of a session ends up where in a request.
use vstd::prelude::*;
use vstd::string::*;

use crate::agent::model::{
    ModelRole, RequestView, ToolCallView, WireView, block_calls, last_result, readable, said_last,
    wire,
};
use crate::agent::turn::{DefinitionView, begun, request_of};
use crate::json::{Tree, json_compact};
use crate::providers::chat::{call_tree, chat_tree, message_tree, put_to, role_word, route, tool_tree};
use crate::session::event::{BlockView, EventView, MessageView, Role};
use crate::session::ids::{IdKind, id_text};
use crate::session::log::{SessionView, text_lines, texts};
use crate::session::projection::{model_history, project};
use crate::text::joined;
use crate::text_laws::{
    as_lines_of, lemma_ends_are_bare, lemma_joined_holds_every_line, lemma_joined_in_parts,
};
use crate::tool::call::{CallView, fresh_call};
use crate::tool::description::DescriptionView;
use crate::tool::laws::lemma_all_are_listed;
use crate::tool::registry::Tool;

verus! {

// ---------- blocks ----------

/// The calls, what can be read and the texts of content are those of its first blocks, then those of
/// the others; each block counts for what it is.
pub proof fn lemma_blocks_in_parts(a: Seq<BlockView>, b: Seq<BlockView>, one: BlockView)
    ensures
        block_calls(a + b) == block_calls(a) + block_calls(b),
        readable(a + b) == readable(a) + readable(b),
        texts(a + b) == texts(a) + texts(b),
        one matches BlockView::ToolCall { id, name, arguments } ==> block_calls(seq![one]).len() == 1
            && block_calls(seq![one])[0].id == id && block_calls(seq![one])[0].name == name
            && block_calls(seq![one])[0].arguments == arguments && readable(seq![one]).len() == 0
            && texts(seq![one]).len() == 0,
        one matches BlockView::Text { text } ==> block_calls(seq![one]).len() == 0 && readable(
            seq![one],
        ) == seq![text] && texts(seq![one]) == seq![text],
        one matches BlockView::ToolResult { output, .. } ==> block_calls(seq![one]).len() == 0
            && texts(seq![one]).len() == 0 && readable(seq![one]).len() == 1 && (
        output matches Tree::Text(s) ==> readable(seq![one])[0] == s) && (!(output is Text)
            ==> readable(seq![one])[0] == json_compact(output)),
    decreases b.len(),
{
    assert(seq![one].drop_last() =~= Seq::empty());
    assert(seq![one].last() == one);
    assert(block_calls(Seq::empty()) =~= Seq::empty());
    assert(readable(Seq::empty()) =~= Seq::empty());
    assert(texts(Seq::empty()) =~= Seq::empty());
    if b.len() == 0 {
        assert(a + b =~= a);
        assert(block_calls(a) + block_calls(b) =~= block_calls(a));
        assert(readable(a) + readable(b) =~= readable(a));
        assert(texts(a) + texts(b) =~= texts(a));
    } else {
        lemma_blocks_in_parts(a, b.drop_last(), one);
        assert((a + b).drop_last() =~= a + b.drop_last());
        assert((a + b).last() == b.last());
        assert(block_calls(a + b) =~= block_calls(a) + block_calls(b));
        assert(readable(a + b) =~= readable(a) + readable(b));
        assert(texts(a + b) =~= texts(a) + texts(b));
    }
}

/// The identity that a message answers is that of its last result.
pub proof fn lemma_last_result(a: Seq<BlockView>, one: BlockView, b: Seq<BlockView>)
    requires
        one is ToolResult,
        forall|i: int| 0 <= i < b.len() ==> !((#[trigger] b[i]) is ToolResult),
    ensures
        last_result(a.push(one) + b) == Some(one->ToolResult_id),
        last_result(b) is None,
    decreases b.len(),
{
    if b.len() == 0 {
        assert(a.push(one) + b =~= a.push(one));
    } else {
        let front = b.drop_last();
        assert forall|i: int| 0 <= i < front.len() implies !((#[trigger] front[i]) is ToolResult) by {
            assert(front[i] == b[i]);
        }
        lemma_last_result(a, one, front);
        let all = a.push(one) + b;
        assert(all.drop_last() =~= a.push(one) + front);
        assert(all.last() == b[b.len() - 1]);
        assert(b.last() == b[b.len() - 1]);
    }
}

/// A message reaches the model under its own role, with everything that can be read in it, in order
/// and one to a line, and with all its calls.
pub proof fn lemma_message_reaches_the_model(role: Role, a: Seq<BlockView>, text: Seq<char>, b: Seq<BlockView>)
    ensures
        ({
            let content = a.push(BlockView::Text { text }) + b;
            let w = wire(MessageView { role, content });
            &&& role == Role::System <==> w.role == ModelRole::System
            &&& role == Role::User <==> w.role == ModelRole::User
            &&& role == Role::Assistant <==> w.role == ModelRole::Assistant
            &&& role == Role::Tool <==> w.role == ModelRole::Tool
            &&& w.tool_calls == block_calls(a) + block_calls(b)
            &&& exists|c: Seq<char>, front: Seq<char>, rest: Seq<char>|
                w.content == Some(c) && #[trigger] as_lines_of(c, text, front, rest)
        }),
{
    let one = BlockView::Text { text };
    let content = a.push(one) + b;
    let w = wire(MessageView { role, content });
    lemma_blocks_in_parts(a, seq![one], one);
    lemma_blocks_in_parts(a.push(one), b, one);
    assert(a.push(one) =~= a + seq![one]);
    assert(readable(content) =~= readable(a).push(text) + readable(b));
    assert(block_calls(content) =~= block_calls(a) + block_calls(b));
    lemma_joined_holds_every_line(readable(a), text, readable(b));
    let c = joined(readable(content), "\n"@);
    let (front, rest) = choose|front: Seq<char>, rest: Seq<char>|
        as_lines_of(c, text, front, rest);
    assert(w.content == Some(c));
    assert(as_lines_of(c, text, front, rest));
}

/// A message in which nothing can be read has no content; one of a single text has that text.
pub proof fn lemma_single_texts(role: Role, text: Seq<char>)
    ensures
        wire(MessageView { role, content: seq![BlockView::Text { text }] }).content == Some(text),
        wire(MessageView { role, content: Seq::empty() }).content is None,
        text_lines(seq![BlockView::Text { text }]) == text,
{
    let one = BlockView::Text { text };
    lemma_blocks_in_parts(Seq::empty(), Seq::empty(), one);
    lemma_joined_in_parts(Seq::empty(), Seq::empty(), "\n"@, text);
}

/// What can be read in two parts of a message is the one, a line feed, and the other; so it is with
/// their texts.
pub proof fn lemma_content_in_parts(role: Role, a: Seq<BlockView>, b: Seq<BlockView>)
    ensures
        readable(a).len() > 0 && readable(b).len() > 0 ==> (wire(
            MessageView { role, content: a },
        ).content matches Some(x) && (wire(MessageView { role, content: b }).content matches Some(y)
            && wire(MessageView { role, content: a + b }).content == Some(x + seq!['\n'] + y))),
        texts(a).len() > 0 && texts(b).len() > 0 ==> text_lines(a + b) == text_lines(a) + seq!['\n']
            + text_lines(b),
        texts(b).len() == 0 ==> text_lines(a + b) == text_lines(a),
{
    reveal_strlit("\n");
    assert("\n"@ =~= seq!['\n']);
    lemma_blocks_in_parts(a, b, BlockView::Text { text: Seq::empty() });
    lemma_joined_in_parts(readable(a), readable(b), "\n"@, Seq::empty());
    lemma_joined_in_parts(texts(a), texts(b), "\n"@, Seq::empty());
    if texts(b).len() == 0 {
        assert(texts(a) + texts(b) =~= texts(a));
    }
}

// ---------- requests ----------

/// A request names the model of the agent, and its first message is the prompt. What the user put
/// in stands at its end, and nothing is sent that is not in the log.
pub proof fn lemma_request_shows_prompt_and_input<T: Tool>(
    log: Seq<EventView>,
    ids: u64,
    input: Seq<char>,
    session: SessionView,
    d: DefinitionView,
    tools: Seq<(Seq<char>, T)>,
)
    ensures
        ({
            let after = begun(log, ids, input).log;
            let q = request_of(after, session, ids, d, tools);
            let n = q.messages.len() as int;
            &&& q.model == d.model
            &&& n == 2 + project(log).len()
            &&& q.messages[0].role == ModelRole::System
            &&& q.messages[0].content == Some(d.system_prompt)
            &&& q.messages[0].tool_calls.len() == 0
            &&& q.messages[n - 1].role == ModelRole::User
            &&& q.messages[n - 1].content == Some(input)
            &&& forall|i: int|
                0 <= i < project(log).len() ==> q.messages[1 + i] == wire(
                    #[trigger] project(log)[i],
                )
        }),
{
    let after = begun(log, ids, input).log;
    let q = request_of(after, session, ids, d, tools);
    let opened = after.drop_last();
    assert(opened.drop_last() =~= log);
    assert(project(opened) == project(log));
    let ms = project(after);
    assert(ms.len() == project(log).len() + 1);
    assert(ms.drop_last() =~= project(log));
    lemma_single_texts(Role::System, d.system_prompt);
    lemma_single_texts(Role::User, input);
    let one = BlockView::Text { text: d.system_prompt };
    lemma_blocks_in_parts(Seq::empty(), Seq::empty(), one);
    let h = model_history(Some(d.system_prompt), after);
    assert(h[0] == (MessageView { role: Role::System, content: seq![one] }));
    assert(h[h.len() - 1] == ms.last());
    assert forall|i: int| 0 <= i < project(log).len() implies q.messages[1 + i] == wire(
        #[trigger] project(log)[i],
    ) by {
        assert(h[1 + i] == ms[i]);
        assert(ms.drop_last()[i] == ms[i]);
    }
}

/// What each event of the log adds to what a model sees: the message of the user or of the assistant
/// with all its blocks; a call at the end of what the assistant said last; the result of a call as a
/// message of its own, with the identity, the output and the mark that were logged. No other event
/// adds anything.
pub proof fn lemma_events_reach_the_model(log: Seq<EventView>, e: EventView)
    ensures
        ({
            let before = project(log);
            let after = project(log.push(e));
            let n = before.len() as int;
            match e {
                EventView::UserMessage { content, .. } => after.len() == n + 1 && after.take(n)
                    == before && after[n].role == Role::User && after[n].content == content,
                EventView::AssistantMessage { content, .. } => after.len() == n + 1 && after.take(n)
                    == before && after[n].role == Role::Assistant && after[n].content == content,
                EventView::ToolResult { tool_call_id, output, is_error } => after.len() == n + 1
                    && after.take(n) == before && after[n].role == Role::Tool
                    && after[n].content.len() == 1 && after[n].content[0] == (BlockView::ToolResult {
                    id: tool_call_id,
                    output,
                    is_error,
                }),
                EventView::ToolCall { tool_call_id, tool_name, arguments } => {
                    let call = BlockView::ToolCall {
                        id: tool_call_id,
                        name: tool_name,
                        arguments,
                    };
                    &&& after.len() > 0
                    &&& after.last().role == Role::Assistant
                    &&& after.last().content.len() > 0
                    &&& after.last().content.last() == call
                    &&& n > 0 && before.last().role == Role::Assistant ==> after.len() == n
                        && after.drop_last() == before.drop_last()
                        && after.last().content.drop_last() == before.last().content
                    &&& n == 0 || before.last().role != Role::Assistant ==> after.len() == n + 1
                        && after.drop_last() == before && after.last().content.len() == 1
                },
                _ => after == before,
            }
        }),
{
    let before = project(log);
    let after = project(log.push(e));
    assert(log.push(e).drop_last() =~= log);
    if after.len() == before.len() + 1 {
        assert(after.take(before.len() as int) =~= before);
        assert(after.drop_last() =~= before);
    } else if e is ToolCall {
        assert(after.drop_last() =~= before.drop_last());
        assert(after.last().content.drop_last() =~= before.last().content);
    }
}

/// A request offers every tool that is listed, in order, as it describes itself.
pub proof fn lemma_request_offers_the_tools<T: Tool>(
    log: Seq<EventView>,
    session: SessionView,
    ids: u64,
    d: DefinitionView,
    tools: Seq<(Seq<char>, T)>,
)
    requires
        forall|i: int, ctx: CallView|
            0 <= i < tools.len() ==> #[trigger] tools[i].1.listed(ctx),
    ensures
        request_of(log, session, ids, d, tools).tools.len() == tools.len(),
        forall|i: int|
            0 <= i < tools.len() ==> #[trigger] request_of(log, session, ids, d, tools).tools[i]
                == tools[i].1.described(),
{
    let ctx = fresh_call(session.id, id_text(IdKind::ToolCall, ids), session.workspace);
    assert forall|i: int| 0 <= i < tools.len() implies (#[trigger] tools[i]).1.listed(ctx) by {}
    lemma_all_are_listed(tools, ctx);
}

/// The model that needs no key answers with what the user said last, whatever others said since.
pub proof fn lemma_echo_is_the_last_input(front: Seq<WireView>, user: WireView, behind: Seq<WireView>)
    requires
        user.role == ModelRole::User,
        forall|i: int| 0 <= i < behind.len() ==> (#[trigger] behind[i]).role != ModelRole::User,
    ensures
        user.content matches Some(s) ==> said_last(front.push(user) + behind) == s,
        user.content is None ==> said_last(front.push(user) + behind).len() == 0,
        said_last(behind).len() == 0,
    decreases behind.len(),
{
    if behind.len() == 0 {
        assert(front.push(user) + behind =~= front.push(user));
    } else {
        let rest = behind.drop_last();
        assert forall|i: int| 0 <= i < rest.len() implies (#[trigger] rest[i]).role
            != ModelRole::User by {
            assert(rest[i] == behind[i]);
        }
        lemma_echo_is_the_last_input(front, user, rest);
        let all = front.push(user) + behind;
        assert(all.drop_last() =~= front.push(user) + rest);
        assert(all.last() == behind[behind.len() - 1]);
        assert(behind.last() == behind[behind.len() - 1]);
    }
}

// ---------- on the wire ----------

proof fn lemma_wire_words()
    ensures
        "role"@ != "content"@,
        "role"@ != "tool_calls"@,
        "role"@ != "tool_call_id"@,
        "content"@ != "tool_calls"@,
        "content"@ != "tool_call_id"@,
        "tool_calls"@ != "tool_call_id"@,
        "id"@ != "type"@,
        "id"@ != "function"@,
        "type"@ != "function"@,
        "name"@ != "arguments"@,
        "name"@ != "description"@,
        "name"@ != "parameters"@,
        "description"@ != "parameters"@,
        "model"@ != "messages"@,
        "model"@ != "tools"@,
        "model"@ != "stream"@,
        "messages"@ != "tools"@,
        "messages"@ != "stream"@,
        "tools"@ != "stream"@,
        "system"@ != "user"@,
        "system"@ != "assistant"@,
        "system"@ != "tool"@,
        "user"@ != "assistant"@,
        "user"@ != "tool"@,
        "assistant"@ != "tool"@,
{
    reveal_strlit("role");
    reveal_strlit("content");
    reveal_strlit("tool_calls");
    reveal_strlit("tool_call_id");
    reveal_strlit("id");
    reveal_strlit("type");
    reveal_strlit("function");
    reveal_strlit("name");
    reveal_strlit("arguments");
    reveal_strlit("description");
    reveal_strlit("parameters");
    reveal_strlit("model");
    reveal_strlit("messages");
    reveal_strlit("tools");
    reveal_strlit("stream");
    reveal_strlit("system");
    reveal_strlit("user");
    reveal_strlit("assistant");
    reveal_strlit("tool");
    assert("role"@.len() == 4 && "content"@.len() == 7 && "tool_calls"@.len() == 10
        && "tool_call_id"@.len() == 12);
    assert("id"@.len() == 2 && "type"@.len() == 4 && "function"@.len() == 8);
    assert("name"@.len() == 4 && "arguments"@.len() == 9 && "description"@.len() == 11
        && "parameters"@.len() == 10);
    assert("model"@[0] == 'm' && "tools"@[0] == 't' && "messages"@.len() == 8 && "stream"@.len()
        == 6 && "model"@.len() == 5 && "tools"@.len() == 5);
    assert("system"@.len() == 6 && "user"@[0] == 'u' && "tool"@[0] == 't' && "assistant"@.len()
        == 9);
}

/// On the wire a message has its role, its content where it has any, its calls where it has any, one
/// behind the other, and the identity that it answers where it answers one; a call carries its
/// identity, its name, and its arguments as JSON text.
pub proof fn lemma_message_on_the_wire(m: WireView)
    ensures
        ({
            let t = message_tree(m);
            &&& t.text_at("role"@) == Some(role_word(m.role))
            &&& t.text_at("content"@) == m.content
            &&& t.at("content"@) is Some <==> m.content is Some
            &&& t.at("tool_calls"@) is Some <==> m.tool_calls.len() > 0
            &&& t.list_at("tool_calls"@) matches Some(list) ==> list.len() == m.tool_calls.len()
                && forall|i: int|
                0 <= i < list.len() ==> is_call(#[trigger] list[i], m.tool_calls[i])
            &&& m.tool_calls.len() > 0 ==> t.list_at("tool_calls"@) is Some
            &&& t.text_at("tool_call_id"@) == m.tool_call_id
            &&& t.at("tool_call_id"@) is Some <==> m.tool_call_id is Some
        }),
{
    lemma_wire_words();
    if m.tool_calls.len() > 0 {
        let list = message_tree(m).list_at("tool_calls"@)->0;
        assert forall|i: int| 0 <= i < list.len() implies is_call(
            #[trigger] list[i],
            m.tool_calls[i],
        ) by {
            assert(list[i] == call_tree(m.tool_calls[i]));
        }
    }
}

/// Whether a value is a call on the wire.
pub open spec fn is_call(t: Tree, c: ToolCallView) -> bool {
    &&& t.text_at("id"@) == Some(c.id)
    &&& t.text_at("type"@) == Some("function"@)
    &&& t.at("function"@) matches Some(f)
    &&& f.text_at("name"@) == Some(c.name)
    &&& f.text_at("arguments"@) == Some(json_compact(c.arguments))
}

/// Each role has a word of its own.
pub proof fn lemma_role_words(a: ModelRole, b: ModelRole)
    ensures
        role_word(a) == role_word(b) ==> a == b,
        role_word(ModelRole::System) == "system"@,
        role_word(ModelRole::User) == "user"@,
        role_word(ModelRole::Assistant) == "assistant"@,
        role_word(ModelRole::Tool) == "tool"@,
{
    lemma_wire_words();
}

/// Whether a value is a tool on the wire.
pub open spec fn is_tool(t: Tree, d: DescriptionView) -> bool {
    &&& t.text_at("type"@) == Some("function"@)
    &&& t.at("function"@) matches Some(f)
    &&& f.text_at("name"@) == Some(d.name)
    &&& f.text_at("description"@) == Some(d.description)
    &&& f.at("parameters"@) == Some(d.parameters)
}

/// The body of a request has the model, every message in order, every tool in order, and asks for a
/// stream exactly where one is wanted. Putting it to another model changes nothing else.
pub proof fn lemma_body_on_the_wire(q: RequestView, stream: bool, model: Seq<char>)
    ensures
        ({
            let t = chat_tree(q, stream);
            &&& t.text_at("model"@) == Some(q.model)
            &&& t.list_at("messages"@) matches Some(ms) && ms.len() == q.messages.len() && (forall|
                i: int,
            |
                0 <= i < ms.len() ==> (#[trigger] ms[i]).text_at("role"@) == Some(
                    role_word(q.messages[i].role),
                ) && ms[i].text_at("content"@) == q.messages[i].content && ms[i].text_at(
                    "tool_call_id"@,
                ) == q.messages[i].tool_call_id && (ms[i].at("tool_calls"@) is Some
                    <==> q.messages[i].tool_calls.len() > 0))
            &&& t.list_at("tools"@) matches Some(ts) && ts.len() == q.tools.len() && (forall|i: int|
                0 <= i < ts.len() ==> is_tool(#[trigger] ts[i], q.tools[i]))
            &&& stream <==> t.at("stream"@) == Some(Tree::Bool(true))
            &&& !stream ==> t.at("stream"@) is None
            &&& chat_tree(put_to(q, model), stream).text_at("model"@) == Some(model)
            &&& chat_tree(put_to(q, model), stream).at("messages"@) == t.at("messages"@)
            &&& chat_tree(put_to(q, model), stream).at("tools"@) == t.at("tools"@)
        }),
{
    lemma_wire_words();
    let t = chat_tree(q, stream);
    let ms = t.list_at("messages"@)->0;
    assert forall|i: int| 0 <= i < ms.len() implies (#[trigger] ms[i]).text_at("role"@) == Some(
        role_word(q.messages[i].role),
    ) && ms[i].text_at("content"@) == q.messages[i].content && ms[i].text_at("tool_call_id"@)
        == q.messages[i].tool_call_id && (ms[i].at("tool_calls"@) is Some
        <==> q.messages[i].tool_calls.len() > 0) by {
        assert(ms[i] == message_tree(q.messages[i]));
        lemma_message_on_the_wire(q.messages[i]);
    }
    let ts = t.list_at("tools"@)->0;
    assert forall|i: int| 0 <= i < ts.len() implies is_tool(#[trigger] ts[i], q.tools[i]) by {
        assert(ts[i] == tool_tree(q.tools[i]));
    }
}

/// A path is put behind a base address as it is, and slashes behind the base do not count.
pub proof fn lemma_routes(base: Seq<char>, path: Seq<char>)
    ensures
        base.len() == 0 || base.last() != '/' ==> route(base, path) == base + path,
        route(base.push('/'), path) == route(base, path),
{
    lemma_ends_are_bare(base, '/');
}

} // verus!

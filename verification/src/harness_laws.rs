//! What an assembled harness offers: its tools, its services, its plugins, its agents and its pages.
use vstd::prelude::*;
use vstd::string::*;

use crate::agent::builder::built;
use crate::agent::turn::{DefinitionView, plain_definition};
use crate::harness::{CapabilityView, assembled, builtin_registry, registered};
use crate::host::context::{ContextView, lemma_provided_is_resolved, with_service};
use crate::json::{Tree, json_read};
use crate::mcp::client::tools_in;
use crate::mcp::laws::lemma_tools_of_items;
use crate::order::at_most;
use crate::path_laws::lemma_endings;
use crate::plugins::{
    described_tools, echo_answer, echo_descriptor, libraries, library, plugin_result,
};
use crate::site::{file_at, gap_end, head_text, path_in, status_of, type_at, word_end};
use crate::table::{at, lemma_put_at, lemma_put_keeps};
use crate::text::{decimal, holds, whitespace};
use crate::text_laws::lemma_part_is_held;
use crate::tool::description::ToolConcurrency;
use crate::tool::error::ErrorView;
use crate::tool::registry::{RegistryView, Tool, no_tools};
use crate::tools::any::{AnyTool, builtin_list, capable};
use crate::tools::page_laws::is_word;
use crate::web::catalog::RouteView;

verus! {

// ---------- tools ----------

/// What a model is told of a tool carries the name by which calls are routed to it.
pub proof fn lemma_tools_are_called_by_name(t: AnyTool)
    ensures
        t.described().name == t.named(),
{
}

/// Each built-in tool has the name by which it is known, and the name is that of no other.
pub proof fn lemma_builtin_names()
    ensures
        builtin_list().len() == 15,
        builtin_list()[0].named() == "bash"@,
        builtin_list()[1].named() == "fs_read"@,
        builtin_list()[2].named() == "fs_write"@,
        builtin_list()[3].named() == "todo_write"@,
        builtin_list()[4].named() == "web_fetch"@,
        builtin_list()[5].named() == "web_search"@,
        builtin_list()[6].named() == "grep"@,
        builtin_list()[7].named() == "glob"@,
        builtin_list()[8].named() == "task"@,
        builtin_list()[9].named() == "task_output"@,
        builtin_list()[10].named() == "task_wait"@,
        builtin_list()[11].named() == "task_kill"@,
        builtin_list()[12].named() == "workflow_step"@,
        builtin_list()[13].named() == "skill"@,
        builtin_list()[14].named() == "skill_list"@,
        forall|i: int, j: int|
            0 <= i < j < builtin_list().len() ==> (#[trigger] builtin_list()[i]).named() != (
            #[trigger] builtin_list()[j]).named(),
{
    reveal_strlit("bash");
    reveal_strlit("fs_read");
    reveal_strlit("fs_write");
    reveal_strlit("todo_write");
    reveal_strlit("web_fetch");
    reveal_strlit("web_search");
    reveal_strlit("grep");
    reveal_strlit("glob");
    reveal_strlit("task");
    reveal_strlit("task_output");
    reveal_strlit("task_wait");
    reveal_strlit("task_kill");
    reveal_strlit("workflow_step");
    reveal_strlit("skill");
    reveal_strlit("skill_list");
    assert("bash"@.len() == 4 && "bash"@[0] == 'b');
    assert("grep"@.len() == 4 && "grep"@[0] == 'g' && "grep"@[1] == 'r');
    assert("glob"@.len() == 4 && "glob"@[0] == 'g' && "glob"@[1] == 'l');
    assert("task"@.len() == 4 && "task"@[0] == 't');
    assert("skill"@.len() == 5);
    assert("fs_read"@.len() == 7);
    assert("fs_write"@.len() == 8);
    assert("task_wait"@.len() == 9 && "task_wait"@[0] == 't' && "task_wait"@[5] == 'w');
    assert("task_kill"@.len() == 9 && "task_kill"@[0] == 't' && "task_kill"@[5] == 'k');
    assert("web_fetch"@.len() == 9 && "web_fetch"@[0] == 'w');
    assert("todo_write"@.len() == 10 && "todo_write"@[0] == 't');
    assert("web_search"@.len() == 10 && "web_search"@[0] == 'w');
    assert("skill_list"@.len() == 10 && "skill_list"@[0] == 's');
    assert("task_output"@.len() == 11);
    assert("workflow_step"@.len() == 13);
}

/// Only the tool that reads files changes nothing, and only its calls may overlap.
pub proof fn lemma_capabilities(t: AnyTool)
    ensures
        capable(t).read_only <==> t is FsRead,
        capable(t).concurrency == ToolConcurrency::Concurrent <==> t is FsRead,
{
}

/// Where tools of different names are registered, a call by the name of each is routed to it.
pub proof fn lemma_registered_tools_are_found(
    b: RegistryView<AnyTool>,
    tools: Seq<AnyTool>,
    i: int,
)
    requires
        0 <= i < tools.len(),
        forall|j: int, k: int|
            0 <= j < k < tools.len() ==> (#[trigger] tools[j]).named() != (
            #[trigger] tools[k]).named(),
    ensures
        at(registered(b, tools).rows, tools[i].named()) == Some(tools[i]),
    decreases tools.len(),
{
    let front = tools.drop_last();
    let last = tools.last();
    let before = registered(b, front);
    assert(last == tools[tools.len() - 1]);
    if i == tools.len() - 1 {
        lemma_put_at(before.rows, last.named(), last);
    } else {
        assert forall|j: int, k: int| 0 <= j < k < front.len() implies (#[trigger] front[j]).named()
            != (#[trigger] front[k]).named() by {
            assert(front[j] == tools[j] && front[k] == tools[k]);
        }
        assert(front[i] == tools[i]);
        lemma_registered_tools_are_found(b, front, i);
        assert(tools[i].named() != tools[tools.len() - 1].named());
        lemma_put_keeps(before.rows, last.named(), last, tools[i].named());
    }
}

/// An assembled harness routes a call by the name of a built-in tool to that tool.
pub proof fn lemma_builtin_tools_are_routed(label: u64, i: int)
    requires
        0 <= i < builtin_list().len(),
    ensures
        at(builtin_registry(label).rows, builtin_list()[i].named()) == Some(builtin_list()[i]),
{
    lemma_builtin_names();
    lemma_registered_tools_are_found(no_tools(label), builtin_list(), i);
}

proof fn lemma_service_words()
    ensures
        "SessionStore"@.len() == 12,
        "Shell"@.len() == 5,
        "FileSystem"@.len() == 10 && "FileSystem"@[0] == 'F',
        "ToolRegistry"@.len() == 12 && "ToolRegistry"@[0] == 'T',
        "SessionStore"@[0] == 'S',
        "SubagentManager"@.len() == 15,
        "SkillStore"@.len() == 10 && "SkillStore"@[0] == 'S',
{
    reveal_strlit("SessionStore");
    reveal_strlit("Shell");
    reveal_strlit("FileSystem");
    reveal_strlit("ToolRegistry");
    reveal_strlit("SubagentManager");
    reveal_strlit("SkillStore");
}

/// An assembled harness has a store of sessions, which is empty and tells of what is logged, a shell,
/// files, the built-in tools, a place for tasks and the skills.
pub proof fn lemma_assembled_services<H>(home: Seq<char>)
    ensures
        ({
            let s = assembled::<H>(home).services;
            &&& at(s, "SessionStore"@) matches Some(CapabilityView::Sessions(st))
                && st.sessions.len() == 0 && st.observed && st.dir is None && st.home == home
            &&& at(s, "Shell"@) == Some(CapabilityView::Shell)
            &&& at(s, "FileSystem"@) == Some(CapabilityView::Files)
            &&& at(s, "ToolRegistry"@) == Some(CapabilityView::Tools(builtin_registry(3)))
            &&& at(s, "SubagentManager"@) matches Some(CapabilityView::Subagents(v))
                && v.tasks.len() == 0
            &&& at(s, "SkillStore"@) matches Some(CapabilityView::Skills(skills)) && skills.len()
                == 4
        }),
{
    lemma_service_words();
    let c0 = crate::harness::bare::<H>();
    let store = CapabilityView::Sessions(
        crate::session::store::StoreView { sessions: Seq::empty(), observed: true, dir: None, home },
    );
    let c1 = with_service(c0, "SessionStore"@, "SessionStore"@, store);
    let c2 = with_service(c1, "Shell"@, "Shell(local)"@, CapabilityView::Shell);
    let c3 = with_service(c2, "FileSystem"@, "FileSystem(local)"@, CapabilityView::Files);
    let tools = CapabilityView::Tools(builtin_registry(c3.next_service));
    let c4 = with_service(c3, "ToolRegistry"@, "ToolRegistry"@, tools);
    let tasks = CapabilityView::Subagents(crate::harness::no_tasks());
    let c5 = with_service(c4, "SubagentManager"@, "SubagentManager"@, tasks);
    let skills = CapabilityView::Skills(crate::tools::skills::builtin());
    lemma_stays(c0, "SessionStore"@, "SessionStore"@, store, "Shell"@);
    lemma_stays(c1, "Shell"@, "Shell(local)"@, CapabilityView::Shell, "SessionStore"@);
    lemma_stays(c2, "FileSystem"@, "FileSystem(local)"@, CapabilityView::Files, "SessionStore"@);
    lemma_stays(c2, "FileSystem"@, "FileSystem(local)"@, CapabilityView::Files, "Shell"@);
    lemma_stays(c3, "ToolRegistry"@, "ToolRegistry"@, tools, "SessionStore"@);
    lemma_stays(c3, "ToolRegistry"@, "ToolRegistry"@, tools, "Shell"@);
    lemma_stays(c3, "ToolRegistry"@, "ToolRegistry"@, tools, "FileSystem"@);
    lemma_stays(c4, "SubagentManager"@, "SubagentManager"@, tasks, "SessionStore"@);
    lemma_stays(c4, "SubagentManager"@, "SubagentManager"@, tasks, "Shell"@);
    lemma_stays(c4, "SubagentManager"@, "SubagentManager"@, tasks, "FileSystem"@);
    lemma_stays(c4, "SubagentManager"@, "SubagentManager"@, tasks, "ToolRegistry"@);
    lemma_stays(c5, "SkillStore"@, "SkillStore"@, skills, "SessionStore"@);
    lemma_stays(c5, "SkillStore"@, "SkillStore"@, skills, "Shell"@);
    lemma_stays(c5, "SkillStore"@, "SkillStore"@, skills, "FileSystem"@);
    lemma_stays(c5, "SkillStore"@, "SkillStore"@, skills, "ToolRegistry"@);
    lemma_stays(c5, "SkillStore"@, "SkillStore"@, skills, "SubagentManager"@);
}

proof fn lemma_stays<H>(
    c: ContextView<CapabilityView, H>,
    kind: Seq<char>,
    name: Seq<char>,
    service: CapabilityView,
    other: Seq<char>,
)
    ensures
        at(with_service(c, kind, name, service).services, kind) == Some(service),
        other != kind ==> at(with_service(c, kind, name, service).services, other) == at(
            c.services,
            other,
        ),
{
    lemma_provided_is_resolved(c, kind, name, service, other);
}

// ---------- agents ----------

/// An agent is built from its own definition for the session that is named. It asks the model that
/// was given, and else that of the context; without a model, or without tools, none is built.
pub proof fn lemma_agents_are_built(
    d: DefinitionView,
    given: RouteView,
    own: RouteView,
    s: Seq<(Seq<char>, CapabilityView)>,
    session_id: Seq<char>,
)
    ensures
        at(s, "ToolRegistry"@) matches Some(CapabilityView::Tools(_)) ==> {
            &&& built(d, Some(given), s, session_id) matches Ok(a) && a.definition == d
                && a.session_id == session_id && a.model == given
            &&& at(s, "ModelProvider"@) == Some(CapabilityView::Model(own)) ==> (built(
                d,
                None,
                s,
                session_id,
            ) matches Ok(a) && a.definition == d && a.session_id == session_id && a.model == own)
        },
        at(s, "ModelProvider"@) is None ==> built(d, None, s, session_id) is Err,
        at(s, "ToolRegistry"@) is None ==> built(d, Some(given), s, session_id) is Err,
{
}

/// A plain definition has what it is given, no tools of its own, and eight steps.
pub proof fn lemma_plain_definitions(name: Seq<char>, model: Seq<char>, prompt: Seq<char>)
    ensures
        plain_definition(name, model, prompt).name == name,
        plain_definition(name, model, prompt).model == model,
        plain_definition(name, model, prompt).system_prompt == prompt,
        plain_definition(name, model, prompt).tool_ids.len() == 0,
        plain_definition(name, model, prompt).max_steps == 8,
{
}

// ---------- plugins ----------

/// The libraries among names are those of the first ones, then those of the others: a name counts by
/// its ending alone.
pub proof fn lemma_libraries_in_parts(
    a: Seq<Seq<char>>,
    b: Seq<Seq<char>>,
    name: Seq<char>,
    ending: Seq<char>,
)
    requires
        name.len() > 0,
        ending.len() > 0,
        !ending.contains('.'),
    ensures
        libraries(a + b) == libraries(a) + libraries(b),
        ending == "so"@ || ending == "dylib"@ || ending == "dll"@ ==> libraries(
            seq![name + "."@ + ending],
        ) == seq![name + "."@ + ending],
        ending != "so"@ && ending != "dylib"@ && ending != "dll"@ ==> libraries(
            seq![name + "."@ + ending],
        ).len() == 0,
    decreases b.len(),
{
    lemma_endings(name, ending);
    let file = name + "."@ + ending;
    assert(seq![file].drop_last() =~= Seq::empty());
    assert(seq![file].last() == file);
    assert(libraries(Seq::empty()) =~= Seq::empty());
    if library(file) {
        assert(libraries(seq![file]) =~= seq![file]);
    }
    if b.len() == 0 {
        assert(a + b =~= a);
        assert(libraries(a) + libraries(b) =~= libraries(a));
    } else {
        lemma_libraries_in_parts(a, b.drop_last(), name, ending);
        assert((a + b).drop_last() =~= a + b.drop_last());
        assert((a + b).last() == b.last());
        assert(libraries(a + b) =~= libraries(a) + libraries(b));
    }
}

/// Texts are in order by their first different character, and a beginning comes before the whole.
pub proof fn lemma_order_of_texts(front: Seq<char>, x: char, y: char, a: Seq<char>, b: Seq<char>)
    ensures
        x < y ==> at_most(front.push(x) + a, front.push(y) + b) && !at_most(
            front.push(y) + b,
            front.push(x) + a,
        ),
        at_most(front, front + a),
        a.len() > 0 ==> !at_most(front + a, front),
    decreases front.len(),
{
    let p = front.push(x) + a;
    let q = front.push(y) + b;
    if front.len() == 0 {
        assert(p[0] == x && q[0] == y);
    } else {
        let rest = front.drop_first();
        lemma_order_of_texts(rest, x, y, a, b);
        assert(p[0] == front[0] && q[0] == front[0]);
        assert(p.drop_first() =~= rest.push(x) + a);
        assert(q.drop_first() =~= rest.push(y) + b);
        assert((front + a)[0] == front[0]);
        assert((front + a).drop_first() =~= rest + a);
    }
}

/// A plugin's tools are those that it lists; what is no list is refused. What a plugin answers is given
/// on as the value that it is, and what is no JSON is an error, as a failure is.
pub proof fn lemma_plugins_answer(text: Seq<char>, t: Tree, m: Seq<char>)
    ensures
        json_read(text) == Ok::<Tree, Seq<char>>(t) ==> plugin_result(Ok(text)) == Ok::<
            Tree,
            ErrorView,
        >(t),
        json_read(text) is Err ==> plugin_result(Ok(text)) is Err,
        plugin_result(Err(m)) matches Err(e) && e.message == m,
        json_read(text) == Ok::<Tree, Seq<char>>(t) && t is Array ==> (described_tools(
            text,
        ) matches Ok(tools) && tools == tools_in(t->Array_0, "schema"@)),
        json_read(text) == Ok::<Tree, Seq<char>>(t) && !(t is Array) ==> described_tools(text)
            is Err,
        json_read(text) is Err ==> described_tools(text) is Err,
{
}

/// The echo plugin describes one tool, by the name under which it answers; it answers with the text
/// that it is given, and says of any other tool that it does not know it.
pub proof fn lemma_echo(args: Seq<char>, t: Tree, text: Seq<char>, other: Seq<char>)
    ensures
        tools_in(seq![echo_descriptor()], "schema"@).len() == 1,
        tools_in(seq![echo_descriptor()], "schema"@)[0].name == "echo"@,
        json_read(args) == Ok::<Tree, Seq<char>>(t) && t.at("text"@) == Some(Tree::Text(text))
            ==> echo_answer("echo"@, args).text_at("content"@) == Some(text),
        json_read(args) is Err ==> (echo_answer("echo"@, args).text_at("content"@) matches Some(s)
            && s.len() == 0),
        other != "echo"@ ==> echo_answer(other, args).truth_at("is_error"@) == Some(true) && (
        echo_answer(other, args).text_at("error"@) matches Some(s) && holds(s, other)),
{
    reveal_strlit("name");
    reveal_strlit("description");
    reveal_strlit("schema");
    reveal_strlit("is_error");
    reveal_strlit("error");
    reveal_strlit("");
    assert("name"@.len() == 4 && "description"@.len() == 11 && "schema"@.len() == 6
        && "is_error"@.len() == 8 && "error"@.len() == 5);
    lemma_tools_of_items(Seq::empty(), Seq::empty(), echo_descriptor(), "schema"@);
    let none: Seq<char> = Seq::empty();
    lemma_part_is_held("unknown tool: "@, other, none);
    assert("unknown tool: "@ + other + none =~= "unknown tool: "@ + other);
}

// ---------- pages ----------

proof fn lemma_word_ends(s: Seq<char>, from: int, to: int)
    requires
        0 <= from <= to <= s.len(),
        forall|i: int| from <= i < to ==> !whitespace(#[trigger] s[i]),
        to == s.len() || whitespace(s[to]),
    ensures
        word_end(s, from) == to,
    decreases to - from,
{
    if from < to {
        lemma_word_ends(s, from + 1, to);
    }
}

proof fn lemma_gap_ends(s: Seq<char>, from: int, to: int)
    requires
        0 <= from <= to <= s.len(),
        forall|i: int| from <= i < to ==> whitespace(#[trigger] s[i]),
        to == s.len() || !whitespace(s[to]),
    ensures
        gap_end(s, from) == to,
    decreases to - from,
{
    if from < to {
        lemma_gap_ends(s, from + 1, to);
    }
}

/// The path of a request is the word behind its method, whatever follows.
pub proof fn lemma_path_is_the_second_word(method: Seq<char>, path: Seq<char>, rest: Seq<char>)
    requires
        is_word(method),
        is_word(path),
        rest.len() == 0 || whitespace(rest[0]),
    ensures
        path_in(method + seq![' '] + path + rest) == path,
{
    let s = method + seq![' '] + path + rest;
    let a = method.len() as int;
    let b = a + 1;
    let c = b + path.len();
    assert forall|i: int| 0 <= i < a implies !whitespace(#[trigger] s[i]) by {
        assert(s[i] == method[i]);
    }
    assert(s[0] == method[0]);
    assert(s[a] == ' ');
    assert(s[b] == path[0]);
    assert forall|i: int| b <= i < c implies !whitespace(#[trigger] s[i]) by {
        assert(s[i] == path[i - b]);
    }
    if rest.len() > 0 {
        assert(s[c] == rest[0]);
    }
    lemma_gap_ends(s, 0, 0);
    lemma_word_ends(s, 0, a);
    lemma_gap_ends(s, a, b);
    lemma_word_ends(s, b, c);
    assert(s.subrange(b, c) =~= path);
}

/// The page and its script are served at their paths, each as what it is; at any other path there is
/// nothing.
pub proof fn lemma_pages_are_served(path: Seq<char>)
    ensures
        file_at("/"@) == Some("static/index.html"@),
        file_at("/index.html"@) == file_at("/"@),
        type_at("/"@) == "text/html; charset=utf-8"@,
        type_at("/index.html"@) == type_at("/"@),
        file_at("/game.js"@) == Some("static/game.js"@),
        type_at("/game.js"@) == "application/javascript; charset=utf-8"@,
        path != "/"@ && path != "/index.html"@ && path != "/game.js"@ ==> file_at(path) is None
            && type_at(path) == "text/plain; charset=utf-8"@,
        status_of(false, true) == "404 Not Found"@,
        status_of(false, false) == "404 Not Found"@,
        status_of(true, true) == "200 OK"@,
        status_of(true, false) == "500 Internal Server Error"@,
{
    reveal_strlit("/");
    reveal_strlit("/index.html");
    reveal_strlit("/game.js");
    assert("/"@.len() == 1 && "/index.html"@.len() == 11 && "/game.js"@.len() == 8);
}

/// The head of an answer has its status, its type and its length.
pub proof fn lemma_head_of_an_answer(status: Seq<char>, kind: Seq<char>, length: nat)
    ensures
        holds(head_text(status, kind, length), status),
        holds(head_text(status, kind, length), "Content-Type: "@ + kind),
        holds(head_text(status, kind, length), "Content-Length: "@ + decimal(length)),
{
    reveal_strlit("\r\nContent-Type: ");
    reveal_strlit("\r\nContent-Length: ");
    reveal_strlit("Content-Type: ");
    reveal_strlit("Content-Length: ");
    let s = head_text(status, kind, length);
    let a = "HTTP/1.1 "@;
    let b = "\r\nContent-Type: "@;
    let c = "\r\nContent-Length: "@;
    let d = "\r\nConnection: close\r\n\r\n"@;
    let n = decimal(length);
    let crlf = seq!['\r', '\n'];
    assert(b =~= crlf + "Content-Type: "@);
    assert(c =~= crlf + "Content-Length: "@);
    assert(s =~= a + status + (b + kind + c + n + d));
    lemma_part_is_held(a, status, b + kind + c + n + d);
    assert(s =~= (a + status + crlf) + ("Content-Type: "@ + kind) + (c + n + d));
    lemma_part_is_held(a + status + crlf, "Content-Type: "@ + kind, c + n + d);
    assert(s =~= (a + status + b + kind + crlf) + ("Content-Length: "@ + n) + d);
    lemma_part_is_held(a + status + b + kind + crlf, "Content-Length: "@ + n, d);
}

} // verus!

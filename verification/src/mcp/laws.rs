//! What goes to servers and what is read from their answers, told on the members of both.
use vstd::prelude::*;
use vstd::string::*;

use crate::bytes::{behind_line, first_line, has_line, line_text};
use crate::json::{Tree, json_compact, json_read};
use crate::mcp::client::{
    call_params, hello, offered, result_text, result_texts, tool_in, tool_output, tools_in,
};
use crate::mcp::config::{TransportKind, transport_of};
use crate::mcp::rpc::{Followed, followed_by, notification_tree, outcome, reply_to, request_tree};
use crate::mcp::scan::{
    AnswerView, EndpointView, answer_fed, answer_lines, answer_on, data_of, endpoint_fed,
    endpoint_line, endpoint_lines,
};
use crate::mcp::url::resolved;
use crate::text::{
    begins, find, holds, joined, lemma_span_is, occurs_at, trimmed, whitespace,
};
use crate::text_laws::{
    as_lines_of, blank_text, lemma_ends_are_bare, lemma_first_is_found,
    lemma_joined_holds_every_line, lemma_joined_in_parts, lemma_start_is_bare, lemma_trimmed_blank,
    lemma_trimmed_is_the_core, tight,
};

verus! {

// ---------- what a tool gives ----------

/// The texts of blocks are those of the first ones, then those of the others; one block with a
/// "text" brings that text, and one without brings none.
pub proof fn lemma_texts_of_blocks(a: Seq<Tree>, b: Seq<Tree>, one: Tree)
    ensures
        result_texts(a + b) == result_texts(a) + result_texts(b),
        one.at("text"@) matches Some(Tree::Text(s)) ==> result_texts(seq![one]) == seq![s],
        !(one.at("text"@) matches Some(Tree::Text(_))) ==> result_texts(seq![one]).len() == 0,
    decreases b.len(),
{
    assert(seq![one].drop_last() =~= Seq::empty());
    assert(result_texts(Seq::empty()) =~= Seq::empty());
    if b.len() == 0 {
        assert(a + b =~= a);
        assert(result_texts(a) + result_texts(b) =~= result_texts(a));
    } else {
        lemma_texts_of_blocks(a, b.drop_last(), one);
        assert((a + b).drop_last() =~= a + b.drop_last());
        assert((a + b).last() == b.last());
        assert(result_texts(a + b) =~= result_texts(a) + result_texts(b));
    }
}

proof fn lemma_output_words()
    ensures
        "is_error"@ != "content"@,
{
    reveal_strlit("is_error");
    reveal_strlit("content");
    assert("is_error"@.len() != "content"@.len());
}

/// The content that a tool gives holds the text of every block that has one, as lines of its own,
/// whatever stands in front of it and behind it.
pub proof fn lemma_output_holds_every_text(
    result: Tree,
    a: Seq<Tree>,
    one: Tree,
    b: Seq<Tree>,
    text: Seq<char>,
)
    requires
        result.at("content"@) == Some(Tree::Array(a.push(one) + b)),
        one.at("text"@) == Some(Tree::Text(text)),
    ensures
        exists|content: Seq<char>, front: Seq<char>, rest: Seq<char>|
            tool_output(result).at("content"@) == Some(Tree::Text(content)) && #[trigger]
                as_lines_of(content, text, front, rest),
{
    lemma_output_words();
    lemma_texts_of_blocks(a, seq![one], one);
    lemma_texts_of_blocks(a.push(one), b, one);
    assert(a.push(one) =~= a + seq![one]);
    let before = result_texts(a);
    let behind = result_texts(b);
    assert(result_texts(a.push(one) + b) =~= before.push(text) + behind);
    lemma_joined_holds_every_line(before, text, behind);
    let content = joined(before.push(text) + behind, "\n"@);
    let (front, rest) = choose|front: Seq<char>, rest: Seq<char>|
        as_lines_of(content, text, front, rest);
    assert(tool_output(result).at("content"@) == Some(Tree::Text(content)));
    assert(as_lines_of(content, text, front, rest));
}

/// The texts of blocks come in order, one to a line: what blocks give in two parts that both have a
/// text is the one, a line feed, and the other; a single text is given as it is.
pub proof fn lemma_output_in_parts(a: Tree, b: Tree, both: Tree)
    requires
        a.at("content"@) matches Some(Tree::Array(_)),
        b.at("content"@) matches Some(Tree::Array(_)),
        both.at("content"@) == Some(Tree::Array(a.list_at("content"@)->0 + b.list_at("content"@)->0)),
    ensures
        result_texts(a.list_at("content"@)->0).len() > 0 && result_texts(
            b.list_at("content"@)->0,
        ).len() > 0 ==> result_text(both) == result_text(a) + seq!['\n'] + result_text(b),
        forall|s: Seq<char>|
            result_texts(a.list_at("content"@)->0) == seq![s] ==> #[trigger] is_text(a, s),
{
    reveal_strlit("\n");
    let x = a.list_at("content"@)->0;
    let y = b.list_at("content"@)->0;
    lemma_texts_of_blocks(x, y, Tree::Null);
    lemma_joined_in_parts(result_texts(x), result_texts(y), "\n"@, Seq::empty());
    assert("\n"@ =~= seq!['\n']);
    assert forall|s: Seq<char>| result_texts(x) == seq![s] implies #[trigger] is_text(a, s) by {
        lemma_joined_in_parts(Seq::empty(), Seq::empty(), "\n"@, s);
    }
}

/// Whether the text of a result is the given one.
pub open spec fn is_text(result: Tree, s: Seq<char>) -> bool {
    result_text(result) == s
}

/// A tool that failed is told to have failed exactly where its server says so, and a result without
/// blocks is given whole.
pub proof fn lemma_output_members(result: Tree)
    ensures
        result.at("isError"@) == Some(Tree::Bool(true)) <==> tool_output(result).at("is_error"@)
            == Some(Tree::Bool(true)),
        tool_output(result).at("is_error"@) matches Some(Tree::Bool(_)),
        tool_output(result).at("content"@) == Some(Tree::Text(result_text(result))),
        !(result.at("content"@) matches Some(Tree::Array(_))) ==> result_text(result)
            == json_compact(result),
        result.at("content"@) == Some(Tree::Array(Seq::empty())) ==> result_text(result).len() == 0,
{
    lemma_output_words();
}

// ---------- the tools of a server ----------

/// The tools in a list are those of its first items, then those of the others. An item with a name
/// is one tool, with the description and the schema that it gives; one without a name is none.
pub proof fn lemma_tools_of_items(a: Seq<Tree>, b: Seq<Tree>, one: Tree, key: Seq<char>)
    ensures
        tools_in(a + b, key) == tools_in(a, key) + tools_in(b, key),
        !(one.at("name"@) matches Some(Tree::Text(_))) ==> tools_in(seq![one], key).len() == 0,
        one.at("name"@) matches Some(Tree::Text(name)) ==> {
            let tools = tools_in(seq![one], key);
            &&& tools.len() == 1
            &&& tools[0].name == name
            &&& one.at("description"@) matches Some(Tree::Text(d)) ==> tools[0].description == d
            &&& !(one.at("description"@) matches Some(Tree::Text(_)))
                ==> tools[0].description.len() == 0
            &&& one.at(key) matches Some(schema) ==> tools[0].parameters == schema
            &&& one.at(key) is None ==> tools[0].parameters.at("type"@) == Some(
                Tree::Text("object"@),
            )
        },
    decreases b.len(),
{
    reveal_strlit("");
    reveal_strlit("type");
    reveal_strlit("properties");
    assert("type"@.len() != "properties"@.len());
    assert(seq![one].drop_last() =~= Seq::empty());
    assert(tools_in(Seq::empty(), key) =~= Seq::empty());
    assert(seq![one].last() == one);
    if tool_in(one, key) is Some {
        assert(tools_in(seq![one], key) =~= seq![tool_in(one, key)->0]);
    }
    if b.len() == 0 {
        assert(a + b =~= a);
        assert(tools_in(a, key) + tools_in(b, key) =~= tools_in(a, key));
    } else {
        lemma_tools_of_items(a, b.drop_last(), one, key);
        assert((a + b).drop_last() =~= a + b.drop_last());
        assert((a + b).last() == b.last());
        assert(tools_in(a + b, key) =~= tools_in(a, key) + tools_in(b, key));
    }
}

/// The items of an answer are all of its list of tools.
pub proof fn lemma_offered_items(result: Tree)
    ensures
        result.at("tools"@) matches Some(Tree::Array(items)) ==> offered(result) == items,
        !(result.at("tools"@) matches Some(Tree::Array(_))) ==> offered(result).len() == 0,
{
}

// ---------- messages ----------

proof fn lemma_message_words()
    ensures
        "jsonrpc"@ != "id"@,
        "jsonrpc"@ != "method"@,
        "jsonrpc"@ != "params"@,
        "id"@ != "method"@,
        "id"@ != "params"@,
        "method"@ != "params"@,
        "name"@ != "arguments"@,
        "name"@ != "version"@,
        "protocolVersion"@ != "capabilities"@,
        "protocolVersion"@ != "clientInfo"@,
        "capabilities"@ != "clientInfo"@,
{
    reveal_strlit("jsonrpc");
    reveal_strlit("id");
    reveal_strlit("method");
    reveal_strlit("params");
    reveal_strlit("name");
    reveal_strlit("arguments");
    reveal_strlit("version");
    reveal_strlit("protocolVersion");
    reveal_strlit("capabilities");
    reveal_strlit("clientInfo");
    assert("jsonrpc"@.len() != "id"@.len());
    assert("jsonrpc"@.len() != "method"@.len());
    assert("jsonrpc"@.len() != "params"@.len());
    assert("id"@.len() != "method"@.len());
    assert("id"@.len() != "params"@.len());
    assert("method"@[0] != "params"@[0]);
    assert("name"@.len() != "arguments"@.len());
    assert("name"@.len() != "version"@.len());
    assert("protocolVersion"@.len() != "capabilities"@.len());
    assert("protocolVersion"@.len() != "clientInfo"@.len());
    assert("capabilities"@.len() != "clientInfo"@.len());
}

/// A request carries its number, its method and its parameters; a notification carries no number,
/// so that nothing answers it. A call carries the name of the tool and the arguments as they are.
pub proof fn lemma_message_members(
    id: u64,
    method: Seq<char>,
    params: Tree,
    name: Seq<char>,
    arguments: Tree,
)
    ensures
        request_tree(id, method, params).at("jsonrpc"@) == Some(Tree::Text("2.0"@)),
        request_tree(id, method, params).at("id"@) == Some(Tree::Unsigned(id)),
        request_tree(id, method, params).at("method"@) == Some(Tree::Text(method)),
        request_tree(id, method, params).at("params"@) == Some(params),
        notification_tree(method, params).at("jsonrpc"@) == Some(Tree::Text("2.0"@)),
        notification_tree(method, params).at("id"@) is None,
        notification_tree(method, params).at("method"@) == Some(Tree::Text(method)),
        notification_tree(method, params).at("params"@) == Some(params),
        call_params(name, arguments).at("name"@) == Some(Tree::Text(name)),
        call_params(name, arguments).at("arguments"@) == Some(arguments),
        hello().at("protocolVersion"@) == Some(Tree::Text("2024-11-05"@)),
        hello().at("clientInfo"@) matches Some(info) && info.at("name"@) == Some(Tree::Text("rh"@)),
{
    lemma_message_words();
}

/// The number of a request is the number by which its answer is known: the line that carries it
/// ends the wait with what it says, and one that carries another number, or none, does not.
pub proof fn lemma_answer_is_known_by_its_number(
    line: Seq<char>,
    answer: Tree,
    id: u64,
    method: Seq<char>,
)
    requires
        trimmed(line).len() > 0,
        json_read(line) matches Ok(t) && t == answer,
    ensures
        answer.at("id"@) == Some(Tree::Unsigned(id)) ==> reply_to(Some(line), id, method) == Some(
            outcome(answer),
        ),
        answer.at("id"@) != Some(Tree::Unsigned(id)) ==> reply_to(Some(line), id, method) is None,
{
}

/// An answer with a result and without an error gives that result. One with an error fails, and the
/// failure ends with what the error says.
pub proof fn lemma_answers_say(answer: Tree, said: Seq<char>)
    ensures
        answer.at("error"@) is None ==> (answer.at("result"@) matches Some(t) ==> outcome(answer)
            == Ok::<Tree, Seq<char>>(t)),
        answer.at("error"@) is None && answer.at("result"@) is None ==> outcome(answer) == Ok::<
            Tree,
            Seq<char>,
        >(Tree::Null),
        answer.at("error"@) is Some ==> outcome(answer) is Err,
        answer.at("error"@) matches Some(e) ==> e.at("message"@) == Some(Tree::Text(said)) ==> (
        outcome(answer) matches Err(m) && m.len() >= said.len() && m.skip(m.len() - said.len())
            == said),
{
    let front = "MCP 错误："@;
    assert((front + said).skip(front.len() as int) =~= said);
}

/// A line that is blank means nothing, one that is no JSON ends the wait with a failure, and so does
/// the end of the output.
pub proof fn lemma_other_lines(line: Seq<char>, id: u64, method: Seq<char>)
    ensures
        blank_text(line) ==> reply_to(Some(line), id, method) is None,
        !blank_text(line) && json_read(line) is Err ==> (reply_to(
            Some(line),
            id,
            method,
        ) matches Some(r) && r is Err),
        reply_to(None, id, method) matches Some(r) && r is Err,
{
    if blank_text(line) {
        lemma_trimmed_is_the_core(line, Seq::empty(), Seq::empty());
        assert(line + Seq::<char>::empty() + Seq::<char>::empty() =~= line);
    } else {
        lemma_trimmed_blank(line);
    }
}

/// A post whose answer is not wanted is followed by nothing; else by a stream exactly where the
/// type of the body says so.
pub proof fn lemma_posts_are_followed(content_type: Seq<char>)
    ensures
        followed_by(false, content_type) == Followed::Nothing,
        holds(content_type, "text/event-stream"@) ==> followed_by(true, content_type)
            == Followed::Stream,
        !holds(content_type, "text/event-stream"@) ==> followed_by(true, content_type)
            == Followed::Body,
{
}

/// Each transport is asked for by its word, with any white space around it; no word asks for a
/// process, as any other word does.
pub proof fn lemma_transport_words(pre: Seq<char>, word: Seq<char>, post: Seq<char>)
    requires
        blank_text(pre),
        blank_text(post),
        tight(word),
    ensures
        word == "sse"@ <==> transport_of(pre + word + post) == TransportKind::Sse,
        word == "http"@ <==> transport_of(pre + word + post) == TransportKind::Http,
        word == "stdio"@ ==> transport_of(pre + word + post) == TransportKind::Stdio,
        word.len() == 0 ==> transport_of(pre + word + post) == TransportKind::Stdio,
{
    lemma_trimmed_is_the_core(pre, word, post);
    reveal_strlit("sse");
    reveal_strlit("http");
    reveal_strlit("stdio");
    assert("sse"@.len() != "http"@.len());
    assert("sse"@.len() != "stdio"@.len());
    assert("http"@.len() != "stdio"@.len());
}

// ---------- event streams ----------

/// The data of a line is what stands behind `data:`, without the white space in front of it.
pub proof fn lemma_data_on_a_line(pre: Seq<char>, data: Seq<char>, other: Seq<char>)
    requires
        blank_text(pre),
        data.len() > 0,
        !whitespace(data[0]),
    ensures
        data_of("data:"@ + pre + data) == Some(data),
        !begins(other, "data:"@) ==> data_of(other) is None,
{
    let line = "data:"@ + pre + data;
    let n = "data:"@.len() as int;
    assert(line.take(n) =~= "data:"@);
    assert(line.skip(n) =~= pre + data);
    lemma_start_is_bare(pre, data);
}

/// A server announces its endpoint by the data of an event of that name, and by no other data; the
/// blank line ends an event.
pub proof fn lemma_endpoint_is_announced(v: EndpointView, data: Seq<char>, name: Seq<char>)
    requires
        data.len() > 0,
        !whitespace(data[0]),
        tight(name),
    ensures
        ({
            let named = endpoint_line(v, "event: "@ + name);
            let told = endpoint_line(named, "data: "@ + data);
            &&& named.event == name
            &&& named.endpoint == v.endpoint
            &&& name == "endpoint"@ ==> told.endpoint == Some(data)
            &&& name != "endpoint"@ ==> told.endpoint == v.endpoint
            &&& endpoint_line(told, Seq::empty()).event.len() == 0
            &&& endpoint_line(told, Seq::empty()).endpoint == told.endpoint
        }),
{
    reveal_strlit("event:");
    reveal_strlit("event: ");
    reveal_strlit("data:");
    reveal_strlit("data: ");
    let a = "event: "@ + name;
    let blank = seq![' '];
    assert(a.take(6) =~= "event:"@);
    assert(a.skip(6) =~= blank + name + Seq::<char>::empty());
    lemma_trimmed_is_the_core(blank, name, Seq::empty());
    let b = "data: "@ + data;
    assert(b =~= "data:"@ + blank + data);
    lemma_data_on_a_line(blank, data, Seq::empty());
    assert(b[0] == 'd');
    assert(!begins(b, "event:"@)) by {
        if begins(b, "event:"@) {
            assert(b.take(6)[0] == "event:"@[0]);
        }
    }
}

/// An answer on a stream is the message on a data line that carries a number.
pub proof fn lemma_answers_on_lines(line: Seq<char>)
    ensures
        answer_on(line) matches Some(t) ==> t.at("id"@) is Some,
        data_of(line) is None ==> answer_on(line) is None,
        data_of(line) matches Some(data) ==> (json_read(data) matches Ok(t) ==> t.at("id"@) is Some
            ==> answer_on(line) == Some(t)),
{
}

/// A line of a stream that arrives whole is read at once: an answer on it is handed out behind those
/// that wait, and anything else is passed over.
pub proof fn lemma_answer_line_is_read(v: AnswerView, line: Seq<u8>)
    requires
        v.buf.len() == 0,
        forall|i: int| 0 <= i < line.len() ==> line[i] != 10u8,
    ensures
        answer_fed(v, line.push(10u8)).buf.len() == 0,
        answer_on(line_text(line.push(10u8))) matches Some(t) ==> answer_fed(
            v,
            line.push(10u8),
        ).answers == v.answers.push(t),
        answer_on(line_text(line.push(10u8))) is None ==> answer_fed(v, line.push(10u8)).answers
            == v.answers,
{
    let whole = line.push(10u8);
    let w = AnswerView { buf: v.buf + whole, ..v };
    assert(w.buf =~= whole);
    lemma_one_line(line);
    let next = AnswerView {
        buf: behind_line(whole),
        answers: (match answer_on(line_text(whole)) {
            Some(t) => v.answers.push(t),
            None => v.answers,
        }),
    };
    assert(answer_lines(w) == answer_lines(next));
    assert(answer_lines(next) == next);
}

/// So it is for the endpoint of a server. Once it was announced nothing more is looked for.
pub proof fn lemma_endpoint_line_is_read(v: EndpointView, line: Seq<u8>, more: Seq<u8>)
    requires
        v.buf.len() == 0,
        forall|i: int| 0 <= i < line.len() ==> line[i] != 10u8,
    ensures
        v.endpoint is None ==> endpoint_fed(v, line.push(10u8)) == endpoint_line(
            v,
            line_text(line.push(10u8)),
        ),
        v.endpoint is Some ==> endpoint_fed(v, more).endpoint == v.endpoint,
{
    let whole = line.push(10u8);
    let w = EndpointView { buf: v.buf + whole, ..v };
    assert(w.buf =~= whole);
    lemma_one_line(line);
    if v.endpoint is None {
        let cut = EndpointView { buf: behind_line(whole), ..w };
        assert(cut =~= v);
        let next = endpoint_line(v, line_text(whole));
        assert(next.buf == v.buf);
        lemma_span_is(next.buf, 10u8, 0);
        assert(endpoint_lines(w) == endpoint_lines(next));
        assert(endpoint_lines(next) == next);
    }
}

proof fn lemma_one_line(line: Seq<u8>)
    requires
        forall|i: int| 0 <= i < line.len() ==> line[i] != 10u8,
    ensures
        has_line(line.push(10u8)),
        first_line(line.push(10u8)) == line.push(10u8),
        behind_line(line.push(10u8)).len() == 0,
        !has_line(behind_line(line.push(10u8))),
{
    let whole = line.push(10u8);
    assert forall|j: int| 0 <= j < line.len() implies whole[j] != 10u8 by {
        assert(whole[j] == line[j]);
    }
    lemma_span_is(whole, 10u8, line.len() as int);
    assert(first_line(whole) =~= whole);
    lemma_span_is(behind_line(whole), 10u8, 0);
}

// ---------- addresses ----------

/// A path that a server names is a path of the same origin, wherever below it the server was
/// reached; a relative one lies below the address itself.
pub proof fn lemma_paths_stay_with_the_origin(
    scheme: Seq<char>,
    host: Seq<char>,
    path: Seq<char>,
    endpoint: Seq<char>,
)
    requires
        forall|i: int| 0 <= i < scheme.len() ==> scheme[i] != ':',
        forall|i: int| 0 <= i < host.len() ==> host[i] != '/',
        path.len() == 0 || path[0] == '/',
        !begins(endpoint, "http://"@),
        !begins(endpoint, "https://"@),
    ensures
        ({
            let origin = scheme + "://"@ + host;
            &&& begins(endpoint, "/"@) ==> resolved(origin + path, endpoint) == origin + endpoint
            &&& !begins(endpoint, "/"@) && host.len() > 0 && path.len() == 0 ==> resolved(
                origin,
                endpoint,
            ) == origin + "/"@ + endpoint
            &&& !begins(endpoint, "/"@) && host.len() > 0 ==> resolved(
                origin.push('/'),
                endpoint,
            ) == resolved(origin, endpoint)
        }),
{
    reveal_strlit("://");
    let sep = "://"@;
    let origin = scheme + sep + host;
    let base = origin + path;
    let n = scheme.len() as int;
    lemma_scheme_ends(scheme, host + path, base);
    let rest = base.skip(n + 3);
    assert(rest =~= host + path);
    assert forall|j: int| 0 <= j < host.len() implies rest[j] != '/' by {
        assert(rest[j] == host[j]);
    }
    lemma_span_is(rest, '/', host.len() as int);
    assert(base.take(n + 3 + host.len()) =~= origin);
    lemma_scheme_ends(scheme, host, origin);
    let slashed = origin.push('/');
    lemma_scheme_ends(scheme, host.push('/'), slashed);
    if host.len() > 0 {
        assert(origin.last() == host.last());
        lemma_ends_are_bare(origin, '/');
    }
}

proof fn lemma_scheme_ends(scheme: Seq<char>, rest: Seq<char>, base: Seq<char>)
    requires
        forall|i: int| 0 <= i < scheme.len() ==> scheme[i] != ':',
        base =~= scheme + "://"@ + rest,
    ensures
        find(base, "://"@, 0) == Some(scheme.len() as int),
{
    reveal_strlit("://");
    let n = scheme.len() as int;
    assert(base.subrange(n, n + 3) =~= "://"@);
    assert forall|j: int| 0 <= j < n implies !#[trigger] occurs_at(base, "://"@, j) by {
        if occurs_at(base, "://"@, j) {
            assert(base.subrange(j, j + 3)[0] == ':');
            assert(base[j] == scheme[j]);
        }
    }
    lemma_first_is_found(base, "://"@, 0, n);
}

} // verus!

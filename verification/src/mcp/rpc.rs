//! The messages of JSON-RPC.
use vstd::prelude::*;
use vstd::string::*;

use crate::duplicate::Duplicate;
use crate::json::{Json, Tree, json_compact, json_read, object, parse};
use crate::text::{concat2, concat3, trim, trimmed};

verus! {

/// A request.
pub open spec fn request_tree(id: u64, method: Seq<char>, params: Tree) -> Tree {
    object().with("jsonrpc"@, Tree::Text("2.0"@)).with("id"@, Tree::Unsigned(id)).with(
        "method"@,
        Tree::Text(method),
    ).with("params"@, params)
}

/// A notification: a request that is not answered.
pub open spec fn notification_tree(method: Seq<char>, params: Tree) -> Tree {
    object().with("jsonrpc"@, Tree::Text("2.0"@)).with("method"@, Tree::Text(method)).with(
        "params"@,
        params,
    )
}

/// A request.
pub fn request(id: u64, method: &str, params: Json) -> (r: Json)
    ensures
        r@ == request_tree(id, method@, params@),
{
    Json::object().with("jsonrpc", Json::text("2.0")).with("id", Json::number(id)).with(
        "method",
        Json::text(method),
    ).with("params", params)
}

/// A notification.
pub fn notification(method: &str, params: Json) -> (r: Json)
    ensures
        r@ == notification_tree(method@, params@),
{
    Json::object().with("jsonrpc", Json::text("2.0")).with("method", Json::text(method)).with(
        "params",
        params,
    )
}

/// A message as a line.
pub fn line_of(message: &Json) -> (r: String)
    ensures
        r@ == json_compact(message@) + "\n"@,
{
    let mut s = message.to_text();
    s.append("\n");
    s
}

/// What an answer says: its result, null where it has none, or its error.
pub open spec fn outcome(answer: Tree) -> Result<Tree, Seq<char>> {
    match answer.at("error"@) {
        Some(e) => Err(
            "MCP 错误："@ + (match e.text_at("message"@) {
                Some(m) => m,
                None => "unknown"@,
            }),
        ),
        None => Ok(answer.index("result"@)),
    }
}

/// A result as it stands.
pub open spec fn outcome_view(r: Result<Json, String>) -> Result<Tree, Seq<char>> {
    match r {
        Ok(j) => Ok(j@),
        Err(e) => Err(e@),
    }
}

/// What an answer says.
pub fn rpc_result(answer: &Json) -> (r: Result<Json, String>)
    ensures
        outcome_view(r) == outcome(answer@),
{
    match answer.get("error") {
        Some(e) => {
            let message = match e.str_at("message") {
                Some(m) => m,
                None => "unknown",
            };
            Err(concat2("MCP 错误：", message))
        },
        None => match answer.get("result") {
            Some(j) => Ok(j.duplicate()),
            None => Ok(Json::Null),
        },
    }
}

/// What a line from a process means for a request that waits.
#[derive(Debug)]
pub enum Reply {
    /// Nothing: the request goes on waiting.
    Again,
    /// The request is over.
    Over(Result<Json, String>),
}

/// What a line means for the request `id`; no line means that the process closed its output.
/// Blank lines and answers to other requests mean nothing.
pub open spec fn reply_to(line: Option<Seq<char>>, id: u64, method: Seq<char>) -> Option<
    Result<Tree, Seq<char>>,
> {
    match line {
        None => Some(Err("MCP 服务器连接关闭（方法 "@ + method + "）"@)),
        Some(s) => if trimmed(s).len() == 0 {
            None
        } else {
            match json_read(s) {
                Err(e) => Some(Err(e)),
                Ok(t) => if t.number_at("id"@) == Some(id) {
                    Some(outcome(t))
                } else {
                    None
                },
            }
        },
    }
}

/// What a line means for the request `id`.
pub fn read_reply(line: Option<&str>, id: u64, method: &str) -> (r: Reply)
    ensures
        ({
            let want = reply_to(
                (match line {
                    Some(s) => Some(s@),
                    None => None,
                }),
                id,
                method@,
            );
            match r {
                Reply::Again => want is None,
                Reply::Over(x) => want == Some(outcome_view(x)),
            }
        }),
{
    match line {
        None => Reply::Over(Err(concat3("MCP 服务器连接关闭（方法 ", method, "）"))),
        Some(s) => {
            if trim(s).as_str().is_empty() {
                return Reply::Again;
            }
            match parse(s) {
                Err(e) => Reply::Over(Err(e)),
                Ok(j) => {
                    let matching = match j.u64_at("id") {
                        Some(n) => n == id,
                        None => false,
                    };
                    if matching {
                        Reply::Over(rpc_result(&j))
                    } else {
                        Reply::Again
                    }
                },
            }
        },
    }
}

/// What is said where a post is answered by nothing.
pub fn no_response(method: &str) -> (r: String)
    ensures
        r@ == "MCP HTTP 服务器未返回响应（方法 "@ + method@ + "）"@,
{
    concat3("MCP HTTP 服务器未返回响应（方法 ", method, "）")
}

/// What is said where no answer comes on the event stream in time.
pub fn timed_out(method: &str) -> (r: String)
    ensures
        r@ == "等待 MCP SSE 响应超时（方法 "@ + method@ + "）"@,
{
    concat3("等待 MCP SSE 响应超时（方法 ", method, "）")
}

/// What a post is followed by.
#[derive(Debug, Clone, Copy, PartialEq, Eq, Structural)]
pub enum Followed {
    /// The body is not looked at.
    Nothing,
    /// The body is an event stream that holds the answer.
    Stream,
    /// The body is the answer.
    Body,
}

/// What a post is followed by, given whether an answer is wanted and the type of the body.
pub open spec fn followed_by(want_response: bool, content_type: Seq<char>) -> Followed {
    if !want_response {
        Followed::Nothing
    } else if crate::text::holds(content_type, "text/event-stream"@) {
        Followed::Stream
    } else {
        Followed::Body
    }
}

/// The state of a server that is posted to: the session that it has named.
#[derive(Debug)]
pub struct HttpState {
    session: Option<String>,
}

impl View for HttpState {
    type V = Option<Seq<char>>;

    closed spec fn view(&self) -> Option<Seq<char>> {
        self.session.deep_view()
    }
}

impl HttpState {
    /// No session was named yet.
    pub fn new() -> (r: HttpState)
        ensures
            r@ is None,
    {
        HttpState { session: None }
    }

    /// The session to name in the next post.
    pub fn session(&self) -> (r: Option<String>)
        ensures
            r.deep_view() == self@,
    {
        self.session.duplicate()
    }

    /// Takes the headers of an answer, and tells what follows. A session that is named there is
    /// kept; where none is named, the one before stays.
    pub fn answered(
        &mut self,
        session: Option<String>,
        content_type: Option<&str>,
        want_response: bool,
    ) -> (r: Followed)
        ensures
            final(self)@ == (match session {
                Some(s) => Some(s@),
                None => old(self)@,
            }),
            r == followed_by(
                want_response,
                (match content_type {
                    Some(c) => c@,
                    None => ""@,
                }),
            ),
    {
        match session {
            Some(s) => {
                self.session = Some(s);
            },
            None => {},
        }
        if !want_response {
            return Followed::Nothing;
        }
        let kind = match content_type {
            Some(c) => c,
            None => "",
        };
        if crate::text::contains(kind, "text/event-stream") {
            Followed::Stream
        } else {
            Followed::Body
        }
    }
}

} // verus!

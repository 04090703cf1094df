//! How a server is reached.
use vstd::prelude::*;
use vstd::string::*;

use crate::codec::{
    Codec, field, field_or, listed, membered, name_views, read_field, read_field_or, trees,
};
use crate::duplicate::Duplicate;
use crate::json::{Json, Tree, object};
use crate::keyed::Keyed;
use crate::text::{same, trim, trimmed};

verus! {

/// The configuration of one server.
#[derive(Debug, Clone)]
pub struct McpServerConfig {
    pub name: String,
    /// `stdio` (also where it is empty), `sse` or `http`.
    pub transport: String,
    /// The command that starts the server.
    pub command: String,
    /// The arguments of the command.
    pub args: Vec<String>,
    /// The address of the server.
    pub url: String,
}

/// What a configuration stands for.
#[verifier::ext_equal]
pub struct ServerView {
    pub name: Seq<char>,
    pub transport: Seq<char>,
    pub command: Seq<char>,
    pub args: Seq<Seq<char>>,
    pub url: Seq<char>,
}

impl View for McpServerConfig {
    type V = ServerView;

    open spec fn view(&self) -> ServerView {
        ServerView {
            name: self.name@,
            transport: self.transport@,
            command: self.command@,
            args: self.args.deep_view(),
            url: self.url@,
        }
    }
}

impl DeepView for McpServerConfig {
    type V = ServerView;

    open spec fn deep_view(&self) -> ServerView {
        self@
    }
}

impl Duplicate for McpServerConfig {
    fn duplicate(&self) -> (r: Self) {
        McpServerConfig {
            name: self.name.clone(),
            transport: self.transport.clone(),
            command: self.command.clone(),
            args: self.args.duplicate(),
            url: self.url.clone(),
        }
    }
}

impl Keyed for McpServerConfig {
    open spec fn key_of(v: ServerView) -> Seq<char> {
        v.name
    }

    fn key(&self) -> (r: &str) {
        self.name.as_str()
    }
}

/// The names of the members of a server, in their order.
pub open spec fn server_names() -> Seq<Seq<char>> {
    seq![
        "name"@,
        "transport"@,
        "command"@,
        "args"@,
        "url"@,
    ]
}

/// A server from its members.
pub open spec fn server_from(t: Tree) -> Option<ServerView> {
    match (
        field::<String>(t, "name"@),
        field_or::<String>(t, "transport"@, ""@),
        field_or::<String>(t, "command"@, ""@),
        field_or::<Vec<String>>(t, "args"@, Seq::empty()),
        field_or::<String>(t, "url"@, ""@),
    ) {
        (Some(name), Some(transport), Some(command), Some(args), Some(url)) => Some(
            ServerView { name, transport, command, args, url },
        ),
        _ => None,
    }
}

fn read_server(j: &Json) -> (r: Option<McpServerConfig>)
    ensures
        r.deep_view() == server_from(j@),
{
    let none: Vec<String> = Vec::new();
    assert(none.deep_view() =~= Seq::empty());
    match (
        read_field::<String>(j, "name"),
        read_field_or::<String>(j, "transport", "".to_owned()),
        read_field_or::<String>(j, "command", "".to_owned()),
        read_field_or::<Vec<String>>(j, "args", none),
        read_field_or::<String>(j, "url", "".to_owned()),
    ) {
        (Some(name), Some(transport), Some(command), Some(args), Some(url)) => Some(
            McpServerConfig { name, transport, command, args, url },
        ),
        _ => None,
    }
}

impl Codec for McpServerConfig {
    open spec fn tree(v: ServerView) -> Tree {
        object().with("name"@, Tree::Text(v.name)).with("transport"@, Tree::Text(v.transport)).with(
            "command"@,
            Tree::Text(v.command),
        ).with("args"@, Tree::Array(trees::<String>(v.args))).with("url"@, Tree::Text(v.url))
    }

    open spec fn read(t: Tree) -> Option<ServerView> {
        server_from(membered(t, server_names()))
    }

    fn to_json(&self) -> (r: Json) {
        Json::object().with("name", self.name.to_json()).with(
            "transport",
            self.transport.to_json(),
        ).with("command", self.command.to_json()).with("args", self.args.to_json()).with(
            "url",
            self.url.to_json(),
        )
    }

    fn from_json(j: &Json) -> (r: Option<McpServerConfig>) {
        let names: Vec<&str> = vec!["name", "transport", "command", "args", "url"];
        assert(name_views(names@) =~= server_names());
        match listed(j, &names) {
            Some(m) => read_server(&m),
            None => read_server(j),
        }
    }

    proof fn reads_back(v: ServerView) {
        reveal_strlit("name");
        reveal_strlit("transport");
        reveal_strlit("command");
        reveal_strlit("args");
        reveal_strlit("url");
        assert("name"@.len() != "transport"@.len());
        assert("name"@.len() != "command"@.len());
        assert("name"@[0] != "args"@[0]);
        assert("name"@.len() != "url"@.len());
        assert("transport"@.len() != "command"@.len());
        assert("transport"@.len() != "args"@.len());
        assert("transport"@.len() != "url"@.len());
        assert("command"@.len() != "args"@.len());
        assert("command"@.len() != "url"@.len());
        assert("args"@.len() != "url"@.len());
        Vec::<String>::reads_back(v.args);
    }
}

/// How messages travel to a server.
#[derive(Debug, Clone, Copy, PartialEq, Eq, Structural)]
pub enum TransportKind {
    /// Lines to and from a process.
    Stdio,
    /// Posts, answered on an event stream.
    Sse,
    /// Posts, each answered by itself.
    Http,
}

/// The word for the transport of a server.
pub open spec fn transport_word(transport: Seq<char>) -> Seq<char> {
    if trimmed(transport).len() == 0 {
        "stdio"@
    } else {
        trimmed(transport)
    }
}

/// The transport that a configuration asks for; an unknown word asks for a process.
pub open spec fn transport_of(transport: Seq<char>) -> TransportKind {
    let word = transport_word(transport);
    if word == "sse"@ {
        TransportKind::Sse
    } else if word == "http"@ {
        TransportKind::Http
    } else {
        TransportKind::Stdio
    }
}

impl McpServerConfig {
    /// The word for the transport of the server.
    pub fn transport_kind(&self) -> (r: String)
        ensures
            r@ == transport_word(self@.transport),
    {
        let t = trim(self.transport.as_str());
        if t.as_str().is_empty() {
            "stdio".to_owned()
        } else {
            t
        }
    }

    /// The transport that the configuration asks for.
    pub fn transport(&self) -> (r: TransportKind)
        ensures
            r == transport_of(self@.transport),
    {
        let word = self.transport_kind();
        if same(word.as_str(), "sse") {
            TransportKind::Sse
        } else if same(word.as_str(), "http") {
            TransportKind::Http
        } else {
            TransportKind::Stdio
        }
    }
}

} // verus!

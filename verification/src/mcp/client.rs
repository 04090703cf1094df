//! A client of a server, and the tools that the server offers.
use vstd::prelude::*;
use vstd::string::*;

use crate::duplicate::Duplicate;
use crate::json::{Json, Tree, json_compact, object};
use crate::mcp::rpc::{notification, notification_tree, request, request_tree};
use crate::session::ids::after;
use crate::text::{join, joined};
use crate::tool::call::{CallView, ToolCallContext};
use crate::tool::description::{DescriptionView, ToolDescription};
use crate::tool::registry::Tool;

verus! {

/// The client's side of a connection: it numbers the requests.
#[derive(Debug)]
pub struct McpClient {
    next_id: u64,
}

/// A request and its number.
#[derive(Debug)]
pub struct Numbered {
    pub id: u64,
    pub message: Json,
}

impl View for McpClient {
    type V = u64;

    closed spec fn view(&self) -> u64 {
        self.next_id
    }
}

/// What a client says of itself.
pub open spec fn hello() -> Tree {
    object().with("protocolVersion"@, Tree::Text("2024-11-05"@)).with("capabilities"@, object()).with(
        "clientInfo"@,
        object().with("name"@, Tree::Text("rh"@)).with("version"@, Tree::Text("0.1.0"@)),
    )
}

/// The parameters of a tool call.
pub open spec fn call_params(name: Seq<char>, arguments: Tree) -> Tree {
    object().with("name"@, Tree::Text(name)).with("arguments"@, arguments)
}

impl McpClient {
    /// A client that has asked nothing.
    pub fn new() -> (r: McpClient)
        ensures
            r@ == 0,
    {
        McpClient { next_id: 0 }
    }

    /// Numbers a request.
    pub fn request(&mut self, method: &str, params: Json) -> (r: Numbered)
        ensures
            r.id == old(self)@,
            r.message@ == request_tree(r.id, method@, params@),
            final(self)@ == after(old(self)@),
    {
        let id = self.next_id;
        self.next_id = id.wrapping_add(1);
        Numbered { id, message: request(id, method, params) }
    }

    /// The request with which a connection begins.
    pub fn connect(&mut self) -> (r: Numbered)
        ensures
            r.id == old(self)@,
            r.message@ == request_tree(r.id, "initialize"@, hello()),
            final(self)@ == after(old(self)@),
    {
        let info = Json::object().with("name", Json::text("rh")).with(
            "version",
            Json::text("0.1.0"),
        );
        let params = Json::object().with("protocolVersion", Json::text("2024-11-05")).with(
            "capabilities",
            Json::object(),
        ).with("clientInfo", info);
        self.request("initialize", params)
    }

    /// The notification that ends the handshake.
    pub fn initialized(&self) -> (r: Json)
        ensures
            r@ == notification_tree("notifications/initialized"@, object()),
    {
        notification("notifications/initialized", Json::object())
    }

    /// The request for the tools of the server.
    pub fn list_tools(&mut self) -> (r: Numbered)
        ensures
            r.id == old(self)@,
            r.message@ == request_tree(r.id, "tools/list"@, object()),
            final(self)@ == after(old(self)@),
    {
        self.request("tools/list", Json::object())
    }

    /// The request that calls a tool.
    pub fn call_tool(&mut self, name: &str, arguments: Json) -> (r: Numbered)
        ensures
            r.id == old(self)@,
            r.message@ == request_tree(r.id, "tools/call"@, call_params(name@, arguments@)),
            final(self)@ == after(old(self)@),
    {
        let params = Json::object().with("name", Json::text(name)).with("arguments", arguments);
        self.request("tools/call", params)
    }
}

/// A tool that a server offers.
#[derive(Debug, Clone)]
pub struct McpTool {
    name: String,
    description: String,
    schema: Json,
}

impl View for McpTool {
    type V = DescriptionView;

    closed spec fn view(&self) -> DescriptionView {
        DescriptionView {
            name: self.name@,
            description: self.description@,
            parameters: self.schema@,
        }
    }
}

impl DeepView for McpTool {
    type V = DescriptionView;

    open spec fn deep_view(&self) -> DescriptionView {
        self@
    }
}

impl Tool for McpTool {
    open spec fn named(&self) -> Seq<char> {
        self@.name
    }

    open spec fn described(&self) -> DescriptionView {
        self@
    }

    open spec fn listed(&self, ctx: CallView) -> bool {
        true
    }

    fn id(&self) -> (r: String) {
        self.name.clone()
    }

    fn description(&self) -> (r: ToolDescription) {
        ToolDescription::new(
            self.name.as_str(),
            self.description.as_str(),
            self.schema.duplicate(),
        )
    }

    fn should_list(&self, ctx: &ToolCallContext) -> (r: bool) {
        true
    }
}

/// The schema of a tool for which none is given: any object.
pub open spec fn any_object() -> Tree {
    object().with("type"@, Tree::Text("object"@)).with("properties"@, object())
}

/// The tool that an item of a list describes; `schema_key` names the member with its schema.
/// Without a name there is none.
pub open spec fn tool_in(item: Tree, schema_key: Seq<char>) -> Option<DescriptionView> {
    match item.text_at("name"@) {
        Some(name) => Some(
            DescriptionView {
                name,
                description: (match item.text_at("description"@) {
                    Some(d) => d,
                    None => ""@,
                }),
                parameters: (match item.at(schema_key) {
                    Some(s) => s,
                    None => any_object(),
                }),
            },
        ),
        None => None,
    }
}

/// The tools that a list describes.
pub open spec fn tools_in(items: Seq<Tree>, schema_key: Seq<char>) -> Seq<DescriptionView>
    decreases items.len(),
{
    if items.len() == 0 {
        Seq::empty()
    } else {
        match tool_in(items.last(), schema_key) {
            Some(t) => tools_in(items.drop_last(), schema_key).push(t),
            None => tools_in(items.drop_last(), schema_key),
        }
    }
}

/// The items of the answer to a request for tools; none where it has no list.
pub open spec fn offered(result: Tree) -> Seq<Tree> {
    match result.list_at("tools"@) {
        Some(items) => items,
        None => Seq::empty(),
    }
}

/// Reads the tool that an item describes.
pub fn read_tool(item: &Json, schema_key: &str) -> (r: Option<McpTool>)
    ensures
        r.deep_view() == tool_in(item@, schema_key@),
{
    match item.str_at("name") {
        Some(name) => {
            let description = match item.str_at("description") {
                Some(d) => d,
                None => "",
            };
            let schema = match item.get(schema_key) {
                Some(s) => s.duplicate(),
                None => Json::object().with("type", Json::text("object")).with(
                    "properties",
                    Json::object(),
                ),
            };
            Some(McpTool { name: name.to_owned(), description: description.to_owned(), schema })
        },
        None => None,
    }
}

/// Reads the tools that a list describes.
pub fn read_tools(items: &Vec<Json>, schema_key: &str) -> (out: Vec<McpTool>)
    ensures
        out.deep_view() == tools_in(items.deep_view(), schema_key@),
{
    let ghost all = items.deep_view();
    let mut out: Vec<McpTool> = Vec::new();
    let mut i: usize = 0;
    assert(out.deep_view() =~= tools_in(all.take(0), schema_key@));
    while i < items.len()
        invariant
            i <= items@.len(),
            all == items.deep_view(),
            out.deep_view() == tools_in(all.take(i as int), schema_key@),
        decreases items@.len() - i,
    {
        proof {
            assert(all.take(i + 1).drop_last() =~= all.take(i as int));
            assert(all.take(i + 1).last() == items@[i as int]@);
        }
        let ghost before = out.deep_view();
        match read_tool(&items[i], schema_key) {
            Some(t) => {
                out.push(t);
                assert(out.deep_view() =~= before.push(t@));
            },
            None => {},
        }
        i = i + 1;
    }
    assert(all.take(i as int) =~= all);
    out
}

/// The tools in the answer to a request for tools.
pub fn offered_tools(result: &Json) -> (out: Vec<McpTool>)
    ensures
        out.deep_view() == tools_in(offered(result@), "inputSchema"@),
{
    match result.array_at("tools") {
        Some(items) => read_tools(items, "inputSchema"),
        None => {
            let out: Vec<McpTool> = Vec::new();
            assert(out.deep_view() =~= Seq::empty());
            out
        },
    }
}

/// The texts among the blocks of a tool's result.
pub open spec fn result_texts(blocks: Seq<Tree>) -> Seq<Seq<char>>
    decreases blocks.len(),
{
    if blocks.len() == 0 {
        Seq::empty()
    } else {
        match blocks.last().text_at("text"@) {
            Some(s) => result_texts(blocks.drop_last()).push(s),
            None => result_texts(blocks.drop_last()),
        }
    }
}

/// The text of a tool's result: its texts, one to a line, or all of it where it has no blocks.
pub open spec fn result_text(result: Tree) -> Seq<char> {
    match result.list_at("content"@) {
        Some(blocks) => joined(result_texts(blocks), "\n"@),
        None => json_compact(result),
    }
}

/// What a tool gives, from what its server answered.
pub open spec fn tool_output(result: Tree) -> Tree {
    object().with(
        "is_error"@,
        Tree::Bool(
            (match result.truth_at("isError"@) {
                Some(b) => b,
                None => false,
            }),
        ),
    ).with("content"@, Tree::Text(result_text(result)))
}

fn read_result_text(result: &Json) -> (r: String)
    ensures
        r@ == result_text(result@),
{
    match result.array_at("content") {
        Some(blocks) => {
            let ghost all = blocks.deep_view();
            let mut parts: Vec<String> = Vec::new();
            let mut i: usize = 0;
            assert(parts.deep_view() =~= result_texts(all.take(0)));
            while i < blocks.len()
                invariant
                    i <= blocks@.len(),
                    all == blocks.deep_view(),
                    parts.deep_view() == result_texts(all.take(i as int)),
                decreases blocks@.len() - i,
            {
                proof {
                    assert(all.take(i + 1).drop_last() =~= all.take(i as int));
                    assert(all.take(i + 1).last() == blocks@[i as int]@);
                }
                let ghost before = parts.deep_view();
                match blocks[i].str_at("text") {
                    Some(s) => {
                        parts.push(s.to_owned());
                        assert(parts.deep_view() =~= before.push(s@));
                    },
                    None => {},
                }
                i = i + 1;
            }
            assert(all.take(i as int) =~= all);
            join(&parts, "\n")
        },
        None => result.to_text(),
    }
}

impl McpTool {
    /// What the tool gives, from what its server answered.
    pub fn output(&self, result: &Json) -> (r: Json)
        ensures
            r@ == tool_output(result@),
    {
        let is_error = match result.bool_at("isError") {
            Some(b) => b,
            None => false,
        };
        let text = read_result_text(result);
        Json::object().with("is_error", Json::Bool(is_error)).with("content", Json::Text(text))
    }
}

} // verus!

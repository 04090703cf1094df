//! Plugins in libraries of their own: which files are loaded, which tools they describe, and what
//! their answers mean. A small plugin that echoes is here too.
use vstd::prelude::*;
use vstd::string::*;

use crate::harness::{register_all, registered, tool_teardowns};
use crate::host::service::{Disposers, TeardownView};
use crate::json::{Json, Tree, json_read, object, parse};
use crate::mcp::client::{McpTool, read_tools, tools_in};
use crate::order::{sort, sorted};
use crate::path;
use crate::text::{concat2, concat3, same};
use crate::tool::call::{CallView, ToolCallContext};
use crate::tool::description::{DescriptionView, ToolDescription};
use crate::tool::error::{ErrorView, ToolError, failed};
use crate::tool::registry::{RegistryView, Tool, ToolRegistry};
use crate::tool::stream::result_view;
use crate::tools::any::AnyTool;
use crate::tools::schema::{word_trees, word_views, words};

verus! {

/// Whether a file is a library, by its extension.
pub open spec fn library(name: Seq<char>) -> bool {
    path::extension_of(name) == Some("so"@) || path::extension_of(name) == Some("dylib"@)
        || path::extension_of(name) == Some("dll"@)
}

/// Whether a file is a library, by its extension.
pub fn is_library(name: &str) -> (r: bool)
    ensures
        r == library(name@),
{
    match path::extension(name) {
        Some(e) => same(e.as_str(), "so") || same(e.as_str(), "dylib") || same(e.as_str(), "dll"),
        None => false,
    }
}

/// The libraries among file names.
pub open spec fn libraries(names: Seq<Seq<char>>) -> Seq<Seq<char>>
    decreases names.len(),
{
    if names.len() == 0 {
        Seq::empty()
    } else if library(names.last()) {
        libraries(names.drop_last()).push(names.last())
    } else {
        libraries(names.drop_last())
    }
}

/// The files of a directory that are loaded, in the order in which they are.
pub fn load_order(names: &Vec<String>) -> (out: Vec<String>)
    ensures
        out.deep_view() == sorted::<String>(libraries(names.deep_view())),
{
    let ghost all = names.deep_view();
    let mut out: Vec<String> = Vec::new();
    let mut i: usize = 0;
    assert(out.deep_view() =~= libraries(all.take(0)));
    while i < names.len()
        invariant
            i <= names@.len(),
            all == names.deep_view(),
            out.deep_view() == libraries(all.take(i as int)),
        decreases names@.len() - i,
    {
        proof {
            assert(all.take(i + 1).drop_last() =~= all.take(i as int));
            assert(all.take(i + 1).last() == names@[i as int]@);
        }
        let ghost before = out.deep_view();
        if is_library(names[i].as_str()) {
            out.push(names[i].clone());
            assert(out.deep_view() =~= before.push(names@[i as int]@));
        }
        i = i + 1;
    }
    assert(all.take(i as int) =~= all);
    sort(out)
}

/// A tool of a plugin.
#[derive(Debug, Clone)]
pub struct PluginTool {
    tool: McpTool,
}

impl View for PluginTool {
    type V = DescriptionView;

    closed spec fn view(&self) -> DescriptionView {
        self.tool@
    }
}

impl DeepView for PluginTool {
    type V = DescriptionView;

    open spec fn deep_view(&self) -> DescriptionView {
        self@
    }
}

impl Tool for PluginTool {
    open spec fn named(&self) -> Seq<char> {
        self@.name
    }

    open spec fn described(&self) -> DescriptionView {
        self@
    }

    open spec fn listed(&self, ctx: CallView) -> bool {
        true
    }

    fn id(&self) -> (r: String) {
        self.tool.id()
    }

    fn description(&self) -> (r: ToolDescription) {
        self.tool.description()
    }

    fn should_list(&self, ctx: &ToolCallContext) -> (r: bool) {
        true
    }
}

/// What is wrong with a text that is read as a list.
pub uninterp spec fn list_error(text: Seq<char>) -> Seq<char>;

/// `serde_json::from_str` for a list of values fails, with an error that has a message, exactly
/// where the text is not read as a list. With the feature `raw_value` of `serde_json` off, as it is
/// here, no object is read as anything else.
#[verifier::external_body]
fn check_list(text: &str) -> (r: Result<(), String>)
    ensures
        match r {
            Ok(_) => json_read(text@) matches Ok(t) && t is Array,
            Err(m) => {
                &&& !(json_read(text@) matches Ok(t) && t is Array)
                &&& m@ == list_error(text@)
            },
        },
{
    serde_json::from_str::<Vec<serde_json::Value>>(text).map(|_| ()).map_err(|e| e.to_string())
}

/// The tools that a plugin describes, or what is wrong with the description.
pub open spec fn described_tools(text: Seq<char>) -> Result<Seq<DescriptionView>, Seq<char>> {
    match json_read(text) {
        Ok(Tree::Array(items)) => Ok(tools_in(items, "schema"@)),
        _ => Err(list_error(text)),
    }
}

/// Reads the tools that a plugin describes.
pub fn read_descriptors(text: &str) -> (r: Result<Vec<PluginTool>, String>)
    ensures
        match r {
            Ok(v) => described_tools(text@) matches Ok(t) && t == v.deep_view(),
            Err(m) => described_tools(text@) matches Err(e) && e == m@,
        },
{
    match check_list(text) {
        Err(m) => Err(m),
        Ok(_) => {
            let mut out: Vec<PluginTool> = Vec::new();
            match parse(text) {
                Ok(j) => match j.as_array() {
                    Some(items) => {
                        let tools = read_tools(items, "schema");
                        let ghost all = tools.deep_view();
                        let ghost list = tools@;
                        let ghost mut n: int = 0;
                        assert(out.deep_view() =~= all.take(0));
                        for tool in it: tools
                            invariant
                                it.seq() == list,
                                all == Seq::new(list.len(), |i: int| list[i]@),
                                n == it.index(),
                                out.deep_view() == all.take(n),
                        {
                            let ghost before = out.deep_view();
                            assert(tool == list[n]);
                            out.push(PluginTool { tool });
                            assert(out.deep_view() =~= before.push(all[n]));
                            assert(all.take(n + 1) =~= all.take(n).push(all[n]));
                            proof {
                                n = n + 1;
                            }
                        }
                        assert(all.take(n) =~= all);
                        Ok(out)
                    },
                    None => Ok(out),
                },
                Err(_) => Ok(out),
            }
        },
    }
}

/// The text that a plugin gave; nothing stands for no text at all.
pub fn plugin_string(text: Option<String>) -> (r: Result<String, String>)
    ensures
        match text {
            Some(s) => r matches Ok(t) && t@ == s@,
            None => r matches Err(e) && e@ == "插件返回空指针"@,
        },
{
    match text {
        Some(s) => Ok(s),
        None => Err("插件返回空指针".to_owned()),
    }
}

/// Whether a tool is the one of a plugin that is described so.
pub open spec fn is_bridge(tool: AnyTool, described: DescriptionView) -> bool {
    match tool {
        AnyTool::Plugin(p) => p@ == described,
        _ => false,
    }
}

/// Whether these are the tools of a plugin, as it describes them.
pub open spec fn bridged(tools: Seq<AnyTool>, described: Seq<DescriptionView>) -> bool {
    &&& tools.len() == described.len()
    &&& forall|i: int|
        0 <= i < tools.len() ==> is_bridge(#[trigger] tools[i], described[i])
}

/// Whether the tools that a plugin describes were registered, one after the other.
pub open spec fn joined_by(
    before: RegistryView<AnyTool>,
    after: RegistryView<AnyTool>,
    teardowns: Seq<Option<TeardownView>>,
    described: Seq<DescriptionView>,
) -> bool {
    exists|tools: Seq<AnyTool>|
        bridged(tools, described) && after == #[trigger] registered(before, tools) && teardowns
            == tool_teardowns(before, tools)
}

/// Bridges the tools of a plugin into the registry. What the plugin says of its tools is handed
/// in.
pub fn load_plugin(registry: &mut ToolRegistry<AnyTool>, text: Option<String>) -> (r: Result<
    Disposers,
    String,
>)
    ensures
        match text {
            None => {
                &&& r matches Err(e)
                &&& e@ == "插件返回空指针"@
                &&& final(registry).book() == old(registry).book()
            },
            Some(s) => match described_tools(s@) {
                Err(m) => {
                    &&& r matches Err(e)
                    &&& e@ == m
                    &&& final(registry).book() == old(registry).book()
                },
                Ok(described) => {
                    &&& r matches Ok(d)
                    &&& joined_by(
                        old(registry).book(),
                        final(registry).book(),
                        d.deep_view(),
                        described,
                    )
                },
            },
        },
{
    let text = match plugin_string(text) {
        Ok(s) => s,
        Err(e) => return Err(e),
    };
    let described = match read_descriptors(text.as_str()) {
        Ok(v) => v,
        Err(e) => return Err(e),
    };
    let ghost views = described.deep_view();
    let ghost list = described@;
    let mut tools: Vec<AnyTool> = Vec::new();
    let ghost mut n: int = 0;
    for tool in it: described
        invariant
            it.seq() == list,
            views == Seq::new(list.len(), |i: int| list[i]@),
            n == it.index(),
            bridged(tools@, views.take(n)),
    {
        proof {
            assert(tool == list[n]);
            assert(views.take(n + 1) =~= views.take(n).push(views[n]));
        }
        tools.push(AnyTool::Plugin(tool));
        proof {
            n = n + 1;
        }
    }
    assert(views.take(n) =~= views);
    let ghost all = tools@;
    let d = register_all(registry, tools);
    assert(bridged(all, views) && registry.book() == registered(old(registry).book(), all));
    Ok(d)
}

/// What a tool of a plugin gives, from what the plugin answered.
pub open spec fn plugin_result(answer: Result<Seq<char>, Seq<char>>) -> Result<Tree, ErrorView> {
    match answer {
        Ok(text) => match json_read(text) {
            Ok(t) => Ok(t),
            Err(e) => Err(failed(e)),
        },
        Err(e) => Err(failed(e)),
    }
}

impl PluginTool {
    /// What the tool gives, from what the plugin answered.
    pub fn finish(&self, answer: &Result<String, String>) -> (r: Result<Json, ToolError>)
        ensures
            result_view(r) == plugin_result(
                (match *answer {
                    Ok(s) => Ok(s@),
                    Err(e) => Err(e@),
                }),
            ),
    {
        match answer {
            Ok(text) => match parse(text.as_str()) {
                Ok(j) => Ok(j),
                Err(e) => Err(ToolError::execution(e.as_str())),
            },
            Err(e) => Err(ToolError::execution(e.as_str())),
        }
    }
}

/// What is said where a library could not be loaded.
pub fn load_failed(path: &str, error: &str) -> (r: String)
    ensures
        r@ == "加载插件 "@ + path@ + " 失败："@ + error@,
{
    let head = concat3("加载插件 ", path, " 失败：");
    concat2(head.as_str(), error)
}

/// What is said where a library lacks a function.
pub fn symbol_missing(path: &str, symbol: &str, error: &str) -> (r: String)
    ensures
        r@ == "插件 "@ + path@ + " 缺少 "@ + (symbol@ + "："@ + error@),
{
    let head = concat3("插件 ", path, " 缺少 ");
    let tail = concat3(symbol, "：", error);
    concat2(head.as_str(), tail.as_str())
}

// ---------- the echo plugin ----------

/// What the echo plugin says of its tool.
pub open spec fn echo_descriptor() -> Tree {
    object().with("name"@, Tree::Text("echo"@)).with(
        "description"@,
        Tree::Text("Echo the `text` argument back (plugin demo tool)."@),
    ).with(
        "schema"@,
        object().with("type"@, Tree::Text("object"@)).with(
            "properties"@,
            object().with("text"@, object().with("type"@, Tree::Text("string"@))),
        ).with("required"@, Tree::Array(word_trees(seq!["text"@]))),
    )
}

/// What the echo plugin says of its tools.
pub fn echo_tools() -> (r: Json)
    ensures
        r@ == Tree::Array(seq![echo_descriptor()]),
{
    let list: Vec<&'static str> = vec!["text"];
    assert(word_views(list@) =~= seq!["text"@]);
    let properties = Json::object().with(
        "text",
        Json::object().with("type", Json::text("string")),
    );
    let schema = Json::object().with("type", Json::text("object")).with(
        "properties",
        properties,
    ).with("required", words(list));
    let item = Json::object().with("name", Json::text("echo")).with(
        "description",
        Json::text("Echo the `text` argument back (plugin demo tool)."),
    ).with("schema", schema);
    let mut items: Vec<Json> = Vec::new();
    items.push(item);
    assert(items.deep_view() =~= seq![echo_descriptor()]);
    Json::array(items)
}

/// What the echo plugin answers to a call. Arguments that are no JSON count as none.
pub open spec fn echo_answer(name: Seq<char>, args: Seq<char>) -> Tree {
    if name == "echo"@ {
        object().with(
            "content"@,
            Tree::Text(
                (match json_read(args) {
                    Ok(t) => match t.text_at("text"@) {
                        Some(s) => s,
                        None => ""@,
                    },
                    Err(_) => ""@,
                }),
            ),
        )
    } else {
        object().with("is_error"@, Tree::Bool(true)).with(
            "error"@,
            Tree::Text("unknown tool: "@ + name),
        )
    }
}

/// What the echo plugin answers to a call.
pub fn echo_call(name: &str, args: &str) -> (r: Json)
    ensures
        r@ == echo_answer(name@, args@),
{
    if same(name, "echo") {
        let text = match parse(args) {
            Ok(j) => match j.str_at("text") {
                Some(s) => s.to_owned(),
                None => "".to_owned(),
            },
            Err(_) => "".to_owned(),
        };
        Json::object().with("content", Json::Text(text))
    } else {
        let message = concat2("unknown tool: ", name);
        Json::object().with("is_error", Json::Bool(true)).with("error", Json::Text(message))
    }
}

} // verus!

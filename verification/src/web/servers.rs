//! The servers whose tools are bridged into the harness: which are configured, and which are
//! connected.
use vstd::prelude::*;
use vstd::string::*;

use crate::codec::{Codec, trees};
use crate::duplicate::Duplicate;
use crate::harness::{
    Capability, CapabilityView, changed, register_all, registered, tool_teardowns, tools_mut,
    tools_of, unchanged,
};
use crate::host::context::Context;
use crate::host::service::{Disposers, TeardownView};
use crate::json::{Tree, json_pretty, json_read, lemma_nested_with, nested, parse};
use crate::keyed::{discard, rid_of, upsert, upserted};
use crate::mcp::client::McpTool;
use crate::mcp::config::{McpServerConfig, ServerView};
use crate::session::store::{FileWrite, WriteView};
use crate::table::{at, lemma_without_at};
use crate::text::same;
use crate::tool::registry::{RegistryView, ToolRegistry, released};
use crate::tools::any::AnyTool;

verus! {

/// A connection, and the tools that were registered for it.
#[derive(Debug)]
struct Connection {
    name: String,
    tools: Disposers,
}

/// What a connection stands for.
#[verifier::ext_equal]
pub struct ConnectionView {
    pub name: Seq<char>,
    /// The teardowns of the registrations of its tools.
    pub tools: Seq<Option<TeardownView>>,
}

impl View for Connection {
    type V = ConnectionView;

    closed spec fn view(&self) -> ConnectionView {
        ConnectionView { name: self.name@, tools: self.tools.deep_view() }
    }
}

impl DeepView for Connection {
    type V = ConnectionView;

    open spec fn deep_view(&self) -> ConnectionView {
        self@
    }
}

/// The servers, kept in a file, and the connections to them.
#[derive(Debug)]
pub struct McpHub {
    servers: Vec<McpServerConfig>,
    connected: Vec<Connection>,
    path: String,
}

/// What the hub stands for.
#[verifier::ext_equal]
pub struct ServersView {
    pub servers: Seq<ServerView>,
    pub connected: Seq<ConnectionView>,
    pub path: Seq<char>,
}

impl View for McpHub {
    type V = ServersView;

    closed spec fn view(&self) -> ServersView {
        ServersView {
            servers: self.servers.deep_view(),
            connected: self.connected.deep_view(),
            path: self.path@,
        }
    }
}

/// The servers in a file; none where there is no file or it cannot be read.
/// Where a name stands twice in an object, the later member counts.
pub open spec fn servers_in(text: Option<Seq<char>>) -> Seq<ServerView> {
    match text {
        Some(s) => match json_read(s) {
            Ok(t) => match Vec::<McpServerConfig>::read(t) {
                Some(v) => v,
                None => Seq::empty(),
            },
            Err(_) => Seq::empty(),
        },
        None => Seq::empty(),
    }
}

/// The file of the hub.
pub open spec fn saved_servers(v: ServersView) -> WriteView {
    WriteView { path: v.path, text: json_pretty(Tree::Array(trees::<McpServerConfig>(v.servers))) }
}

/// Whether there is a connection to a server.
pub open spec fn connected_to(connected: Seq<ConnectionView>, name: Seq<char>) -> bool {
    exists|i: int| 0 <= i < connected.len() && (#[trigger] connected[i]).name == name
}

/// A registry after teardowns, one after the other.
pub open spec fn all_released(
    b: RegistryView<AnyTool>,
    teardowns: Seq<Option<TeardownView>>,
) -> RegistryView<AnyTool>
    decreases teardowns.len(),
{
    if teardowns.len() == 0 {
        b
    } else {
        let front = all_released(b, teardowns.drop_last());
        match teardowns.last() {
            Some(t) => released(front, t),
            None => front,
        }
    }
}

/// A registry after the connections to a server are closed: their registrations are unwound.
pub open spec fn tools_left(
    b: RegistryView<AnyTool>,
    connected: Seq<ConnectionView>,
    name: Seq<char>,
) -> RegistryView<AnyTool>
    decreases connected.len(),
{
    if connected.len() == 0 {
        b
    } else if connected.last().name == name {
        all_released(tools_left(b, connected.drop_last(), name), connected.last().tools)
    } else {
        tools_left(b, connected.drop_last(), name)
    }
}

/// The connections to other servers.
pub open spec fn others(connected: Seq<ConnectionView>, name: Seq<char>) -> Seq<ConnectionView>
    decreases connected.len(),
{
    if connected.len() == 0 {
        connected
    } else if connected.last().name == name {
        others(connected.drop_last(), name)
    } else {
        others(connected.drop_last(), name).push(connected.last())
    }
}

/// The tools of a server among all tools.
pub open spec fn bridges(tools: Seq<McpTool>) -> Seq<AnyTool> {
    Seq::new(tools.len(), |i: int| AnyTool::Mcp(tools[i]))
}

impl McpHub {
    /// Loads the servers from the text of their file.
    pub fn load(path: &str, text: Option<&str>) -> (r: McpHub)
        ensures
            r@ == (ServersView {
                servers: servers_in(
                    (match text {
                        Some(s) => Some(s@),
                        None => None,
                    }),
                ),
                connected: Seq::empty(),
                path: path@,
            }),
    {
        let none: Vec<McpServerConfig> = Vec::new();
        assert(none.deep_view() =~= Seq::empty());
        let servers = match text {
            Some(s) => match parse(s) {
                Ok(j) => match Vec::<McpServerConfig>::from_json(&j) {
                    Some(v) => v,
                    None => none,
                },
                Err(_) => none,
            },
            None => none,
        };
        let r = McpHub { servers, connected: Vec::new(), path: path.to_owned() };
        assert(r@.connected =~= Seq::empty());
        r
    }

    /// The file of the hub.
    pub fn save(&self) -> (r: FileWrite)
        ensures
            r@ == saved_servers(self@),
            servers_in(Some(r.text@)) == self@.servers,
    {
        let text = self.servers.to_json().to_text_pretty();
        proof {
            Vec::<McpServerConfig>::reads_back(self@.servers);
            lemma_servers_are_shallow(self@.servers);
        }
        FileWrite { path: self.path.clone(), text }
    }

    /// All configured servers.
    pub fn list(&self) -> (r: Vec<McpServerConfig>)
        ensures
            r.deep_view() == self@.servers,
    {
        self.servers.duplicate()
    }

    /// Whether there is a connection to a server; it is not connected a second time.
    pub fn is_connected(&self, name: &str) -> (r: bool)
        ensures
            r == connected_to(self@.connected, name@),
    {
        let ghost all = self@.connected;
        let mut i: usize = 0;
        while i < self.connected.len()
            invariant
                i <= self.connected@.len(),
                all == self.connected.deep_view(),
                forall|j: int| 0 <= j < i ==> (#[trigger] all[j]).name != name@,
            decreases self.connected@.len() - i,
        {
            assert(all[i as int] == self.connected@[i as int]@);
            if same(self.connected[i].name.as_str(), name) {
                return true;
            }
            i = i + 1;
        }
        false
    }

    /// Takes a new connection into account, and registers its tools.
    pub fn attach(
        &mut self,
        registry: &mut ToolRegistry<AnyTool>,
        name: &str,
        tools: Vec<McpTool>,
    )
        ensures
            final(registry).book() == registered(old(registry).book(), bridges(tools@)),
            final(self)@ == (ServersView {
                connected: old(self)@.connected.push(
                    ConnectionView {
                        name: name@,
                        tools: tool_teardowns(old(registry).book(), bridges(tools@)),
                    },
                ),
                ..old(self)@
            }),
    {
        let ghost before = self@;
        let ghost list = tools@;
        let mut bridged: Vec<AnyTool> = Vec::new();
        let ghost mut n: int = 0;
        for tool in it: tools
            invariant
                it.seq() == list,
                n == it.index(),
                bridged@ == bridges(list).take(n),
        {
            let ghost known = bridged@;
            bridged.push(AnyTool::Mcp(tool));
            proof {
                assert(tool == list[n]);
                assert(bridges(list).take(n + 1) =~= known.push(bridges(list)[n]));
                n = n + 1;
            }
        }
        assert(bridged@ =~= bridges(list));
        let c = Connection { name: name.to_owned(), tools: register_all(registry, bridged) };
        self.connected.push(c);
        assert(self@.connected =~= before.connected.push(c@));
    }

    /// Closes the connections to a server, and takes away their tools.
    pub fn disconnect(&mut self, registry: &mut ToolRegistry<AnyTool>, name: &str)
        ensures
            final(registry).book() == tools_left(
                old(registry).book(),
                old(self)@.connected,
                name@,
            ),
            final(self)@ == (ServersView {
                connected: others(old(self)@.connected, name@),
                ..old(self)@
            }),
    {
        let ghost all = self@.connected;
        let ghost start = registry.book();
        let mut rows: Vec<Connection> = Vec::new();
        std::mem::swap(&mut rows, &mut self.connected);
        let ghost list = rows@;
        let mut kept: Vec<Connection> = Vec::new();
        let ghost mut n: int = 0;
        assert(kept.deep_view() =~= others(all.take(0), name@));
        for mut c in it: rows
            invariant
                it.seq() == list,
                n == it.index(),
                all == Seq::new(list.len(), |i: int| list[i]@),
                kept.deep_view() == others(all.take(n), name@),
                registry.book() == tools_left(start, all.take(n), name@),
        {
            proof {
                assert(c == list[n]);
                assert(all.take(n + 1).drop_last() =~= all.take(n));
                assert(all.take(n + 1).last() == all[n]);
            }
            if same(c.name.as_str(), name) {
                drop_tools(registry, &mut c.tools);
            } else {
                let ghost before = kept.deep_view();
                kept.push(c);
                assert(kept.deep_view() =~= before.push(all[n]));
            }
            proof {
                n = n + 1;
            }
        }
        assert(all.take(n) =~= all);
        self.connected = kept;
    }

    /// Closes the connections to a server that is about to be connected anew, where there is a
    /// registry for its tools.
    pub fn renew<H>(&mut self, ctx: &mut Context<Capability, H>, name: &str) -> (r: Result<
        (),
        String,
    >)
        ensures
            final(self)@ == (ServersView {
                connected: others(old(self)@.connected, name@),
                ..old(self)@
            }),
            match tools_of(old(ctx)@) {
                Some(b) => {
                    &&& r is Ok
                    &&& changed(
                        old(ctx)@,
                        final(ctx)@,
                        "ToolRegistry"@,
                        CapabilityView::Tools(tools_left(b, old(self)@.connected, name@)),
                    )
                },
                None => {
                    &&& r matches Err(e)
                    &&& e@ == "no tool registry registered"@
                    &&& unchanged(old(ctx)@, final(ctx)@)
                },
            },
    {
        match tools_mut(ctx) {
            Some(registry) => {
                self.disconnect(registry, name);
                Ok(())
            },
            None => {
                let mut nowhere: ToolRegistry<AnyTool> = ToolRegistry::new();
                self.disconnect(&mut nowhere, name);
                Err("no tool registry registered".to_owned())
            },
        }
    }

    /// Puts a server into the hub, in the place of the one of its name, and gives the file to
    /// write.
    pub fn add(&mut self, config: McpServerConfig) -> (r: FileWrite)
        ensures
            final(self)@ == (ServersView {
                servers: upserted::<McpServerConfig>(old(self)@.servers, config@),
                ..old(self)@
            }),
            r@ == saved_servers(final(self)@),
    {
        upsert(&mut self.servers, config);
        self.save()
    }

    /// Takes a server out of the hub, and gives the file to write.
    pub fn remove(&mut self, name: &str) -> (r: FileWrite)
        ensures
            final(self)@ == (ServersView {
                servers: rid_of::<McpServerConfig>(old(self)@.servers, name@),
                ..old(self)@
            }),
            r@ == saved_servers(final(self)@),
    {
        discard(&mut self.servers, name);
        self.save()
    }
}

proof fn lemma_servers_are_shallow(servers: Seq<ServerView>)
    ensures
        nested(Tree::Array(trees::<McpServerConfig>(servers)), 127),
{
    broadcast use lemma_nested_with;

    assert forall|i: int| 0 <= i < servers.len() implies nested(
        #[trigger] trees::<McpServerConfig>(servers)[i],
        126,
    ) by {
        let args = trees::<String>(servers[i].args);
        assert forall|j: int| 0 <= j < args.len() implies nested(#[trigger] args[j], 124) by {}
        assert(nested(Tree::Array(args), 125));
    }
}

fn drop_tools(registry: &mut ToolRegistry<AnyTool>, disposers: &mut Disposers)
    ensures
        final(registry).book() == all_released(old(registry).book(), old(disposers).deep_view()),
        final(disposers)@.len() == 0,
{
    let ghost start = registry.book();
    let ghost all = disposers.deep_view();
    let mut rows: Disposers = Vec::new();
    std::mem::swap(&mut rows, disposers);
    let ghost list = rows@;
    let ghost mut n: int = 0;
    assert(all_released(start, all.take(0)) == start);
    for mut d in it: rows
        invariant
            it.seq() == list,
            all == Seq::new(list.len(), |i: int| list[i]@),
            n == it.index(),
            registry.book() == all_released(start, all.take(n)),
    {
        proof {
            assert(d == list[n]);
            assert(all.take(n + 1).drop_last() =~= all.take(n));
            assert(all.take(n + 1).last() == all[n]);
        }
        registry.dispose(&mut d);
        proof {
            n = n + 1;
        }
    }
    assert(all.take(n) =~= all);
}

/// The teardown of a registration in a registry.
pub open spec fn registration(b: RegistryView<AnyTool>, tool: Seq<char>, id: u64) -> Option<
    TeardownView,
> {
    Some(TeardownView::Tool { registry: b.label, tool, id })
}

/// Whether a tool is as it was, or gone.
spec fn kept_or_gone(
    before: RegistryView<AnyTool>,
    after: RegistryView<AnyTool>,
    tool: Seq<char>,
) -> bool {
    ||| at(after.rows, tool) == at(before.rows, tool) && at(after.marks, tool) == at(
        before.marks,
        tool,
    )
    ||| at(after.rows, tool) is None && at(after.marks, tool) is None
}

proof fn lemma_all_released(
    b: RegistryView<AnyTool>,
    ts: Seq<Option<TeardownView>>,
    tool: Seq<char>,
    id: u64,
)
    ensures
        all_released(b, ts).label == b.label,
        kept_or_gone(b, all_released(b, ts), tool),
        ts.contains(registration(b, tool, id)) ==> at(all_released(b, ts).marks, tool) != Some(id),
        at(b.marks, tool) == Some(id) && !ts.contains(registration(b, tool, id)) ==> at(
            all_released(b, ts).rows,
            tool,
        ) == at(b.rows, tool) && at(all_released(b, ts).marks, tool) == Some(id),
    decreases ts.len(),
{
    if ts.len() > 0 {
        let front = ts.drop_last();
        let mid = all_released(b, front);
        lemma_all_released(b, front, tool, id);
        match ts.last() {
            Some(TeardownView::Tool { registry, tool: t, id: m }) => {
                lemma_without_at(mid.rows, t, tool);
                lemma_without_at(mid.marks, t, tool);
            },
            _ => {},
        }
        let wanted = registration(b, tool, id);
        if ts.contains(wanted) {
            let i = choose|i: int| 0 <= i < ts.len() && ts[i] == wanted;
            if i < front.len() {
                assert(front[i] == wanted);
            }
        } else {
            assert forall|i: int| 0 <= i < front.len() implies front[i] != wanted by {
                assert(front[i] == ts[i]);
            }
            assert(ts[ts.len() - 1] != wanted);
        }
    }
}

proof fn lemma_tools_left(
    b: RegistryView<AnyTool>,
    connected: Seq<ConnectionView>,
    name: Seq<char>,
    tool: Seq<char>,
)
    ensures
        tools_left(b, connected, name).label == b.label,
        kept_or_gone(b, tools_left(b, connected, name), tool),
    decreases connected.len(),
{
    if connected.len() > 0 {
        let front = connected.drop_last();
        lemma_tools_left(b, front, name, tool);
        lemma_all_released(tools_left(b, front, name), connected.last().tools, tool, 0);
    }
}

/// Once a server is disconnected, none of the tools that were registered for it is left, and it is
/// not connected any more.
pub proof fn lemma_disconnected(
    b: RegistryView<AnyTool>,
    connected: Seq<ConnectionView>,
    name: Seq<char>,
    i: int,
    tool: Seq<char>,
    id: u64,
)
    requires
        0 <= i < connected.len(),
        connected[i].name == name,
        connected[i].tools.contains(registration(b, tool, id)),
    ensures
        at(tools_left(b, connected, name).marks, tool) != Some(id),
        at(b.marks, tool) == Some(id) ==> at(tools_left(b, connected, name).rows, tool) is None,
        !connected_to(others(connected, name), name),
    decreases connected.len(),
{
    lemma_others(connected, name);
    lemma_tools_left(b, connected, name, tool);
    let front = connected.drop_last();
    let mid = tools_left(b, front, name);
    lemma_tools_left(b, front, name, tool);
    if connected.last().name == name {
        lemma_all_released(mid, connected.last().tools, tool, id);
    }
    if i < front.len() {
        assert(front[i] == connected[i]);
        lemma_disconnected(b, front, name, i, tool, id);
    }
}

/// Disconnecting a server takes away nothing but the tools that were registered for it: one that
/// came in the place of such a tool since stays, as do the tools of others.
pub proof fn lemma_other_tools_stay(
    b: RegistryView<AnyTool>,
    connected: Seq<ConnectionView>,
    name: Seq<char>,
    tool: Seq<char>,
    id: u64,
)
    requires
        at(b.marks, tool) == Some(id),
        forall|i: int|
            0 <= i < connected.len() && (#[trigger] connected[i]).name == name
                ==> !connected[i].tools.contains(registration(b, tool, id)),
    ensures
        at(tools_left(b, connected, name).rows, tool) == at(b.rows, tool),
        at(tools_left(b, connected, name).marks, tool) == Some(id),
    decreases connected.len(),
{
    if connected.len() > 0 {
        let front = connected.drop_last();
        assert forall|i: int| 0 <= i < front.len() && (#[trigger] front[i]).name == name
            implies !front[i].tools.contains(registration(b, tool, id)) by {
            assert(front[i] == connected[i]);
        }
        lemma_other_tools_stay(b, front, name, tool, id);
        lemma_tools_left(b, front, name, tool);
        assert(connected[connected.len() - 1] == connected.last());
        lemma_all_released(tools_left(b, front, name), connected.last().tools, tool, id);
    }
}

proof fn lemma_others(connected: Seq<ConnectionView>, name: Seq<char>)
    ensures
        !connected_to(others(connected, name), name),
    decreases connected.len(),
{
    if connected.len() > 0 {
        let front = connected.drop_last();
        lemma_others(front, name);
        let t = others(connected, name);
        let u = others(front, name);
        if connected_to(t, name) {
            let i = choose|i: int| 0 <= i < t.len() && (#[trigger] t[i]).name == name;
            if i < u.len() {
                assert(u[i].name == name);
            }
        }
    }
}

} // verus!

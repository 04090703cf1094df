//! The composition of the harness: the services that its parts offer to each other, and the
//! plugins that mount them.
use vstd::prelude::*;
use vstd::string::*;

use crate::host::context::{
    Context, ContextView, Plugin, lemma_provide_is_reversible,
    lemma_replaced_registration_unwinds_nothing, next_number, torn_down, with_service,
};
use crate::host::service::{Disposer, Disposers, Teardown, TeardownView};
use crate::session::store::{SessionStore, StoreView};
use crate::table::{
    at, has, lemma_mapped, lemma_mapped_without, lemma_put_at, lemma_put_keeps, lemma_without_at,
    mapped, put, without,
};
use crate::tool::registry::{
    RegistryView, ToolRegistry, no_tools, released, tool_teardown, with_tool,
};
use crate::tools::any::{AnyTool, builtin_list, builtin_tools};
use crate::tools::skills::{SkillStore, SkillView, builtin};
use crate::tools::subagent::{SubagentManager, TasksView};
use crate::web::catalog::{ModelRoute, RouteView};

verus! {

/// A service of the harness.
#[derive(Debug)]
pub enum Capability {
    Sessions(SessionStore),
    /// There is a shell.
    Shell,
    /// There is a file system.
    Files,
    Tools(ToolRegistry<AnyTool>),
    Subagents(SubagentManager),
    Skills(SkillStore),
    Model(ModelRoute),
}

/// What a service stands for.
pub enum CapabilityView {
    Sessions(StoreView),
    Shell,
    Files,
    Tools(RegistryView<AnyTool>),
    Subagents(TasksView),
    Skills(Seq<SkillView>),
    Model(RouteView),
}

impl View for Capability {
    type V = CapabilityView;

    open spec fn view(&self) -> CapabilityView {
        match self {
            Capability::Sessions(s) => CapabilityView::Sessions(s@),
            Capability::Shell => CapabilityView::Shell,
            Capability::Files => CapabilityView::Files,
            Capability::Tools(t) => CapabilityView::Tools(t.book()),
            Capability::Subagents(m) => CapabilityView::Subagents(m@),
            Capability::Skills(s) => CapabilityView::Skills(s@),
            Capability::Model(r) => CapabilityView::Model(r@),
        }
    }
}

/// How a service is seen.
pub open spec fn seen_capability() -> spec_fn(Capability) -> CapabilityView {
    |c: Capability| c@
}

/// A context with its services as they stand.
pub open spec fn outline<H>(c: ContextView<Capability, H>) -> ContextView<CapabilityView, H> {
    ContextView {
        services: mapped(c.services, seen_capability()),
        names: c.names,
        marks: c.marks,
        handlers: c.handlers,
        next_handler: c.next_handler,
        next_service: c.next_service,
    }
}

/// The services of a context as they stand.
pub open spec fn services<H>(c: ContextView<Capability, H>) -> Seq<(Seq<char>, CapabilityView)> {
    outline(c).services
}

/// Whether a context gained one service under a diagnostic name, and nothing else.
pub open spec fn gained<H>(
    before: ContextView<Capability, H>,
    after: ContextView<Capability, H>,
    kind: Seq<char>,
    name: Seq<char>,
    service: CapabilityView,
) -> bool {
    outline(after) == with_service(outline(before), kind, name, service)
}

fn provide<H>(ctx: &mut Context<Capability, H>, kind: &str, name: &str, service: Capability) -> (d:
    Disposer)
    ensures
        gained(old(ctx)@, final(ctx)@, kind@, name@, service@),
        d@ == Some(TeardownView::Service { kind: kind@, id: old(ctx)@.next_service }),
{
    proof {
        lemma_mapped(ctx@.services, seen_capability(), kind@, service);
    }
    ctx.provide_named(kind, name, service)
}

/// Mounts a store of sessions in memory.
#[derive(Debug)]
pub struct SessionPlugin {
    /// The home directory, below which sessions have their workspaces.
    pub home: String,
}

impl<H> Plugin<Capability, H> for SessionPlugin {
    open spec fn named(&self) -> Seq<char> {
        "session"@
    }

    open spec fn mounts(
        &self,
        before: ContextView<Capability, H>,
        after: ContextView<Capability, H>,
        teardowns: Seq<Option<TeardownView>>,
    ) -> bool {
        &&& gained(
            before,
            after,
            "SessionStore"@,
            "SessionStore"@,
            CapabilityView::Sessions(
                StoreView {
                    sessions: Seq::empty(),
                    observed: true,
                    dir: None,
                    home: self.home@,
                },
            ),
        )
        &&& teardowns == seq![
            Some(TeardownView::Service { kind: "SessionStore"@, id: before.next_service }),
        ]
    }

    fn name(&self) -> (r: &'static str) {
        "session"
    }

    fn mount(&self, ctx: &mut Context<Capability, H>) -> (r: Result<Disposers, String>)
        ensures
            r is Ok,
    {
        let ghost id = ctx@.next_service;
        let store = SessionStore::new(true, self.home.as_str());
        let d = provide(ctx, "SessionStore", "SessionStore", Capability::Sessions(store));
        let mut out: Disposers = Vec::new();
        out.push(d);
        assert(out.deep_view() =~= seq![
            Some(TeardownView::Service { kind: "SessionStore"@, id }),
        ]);
        Ok(out)
    }
}

/// Mounts the local shell.
#[derive(Debug, Clone, Copy)]
pub struct ShellPlugin;

impl<H> Plugin<Capability, H> for ShellPlugin {
    open spec fn named(&self) -> Seq<char> {
        "shell:local"@
    }

    open spec fn mounts(
        &self,
        before: ContextView<Capability, H>,
        after: ContextView<Capability, H>,
        teardowns: Seq<Option<TeardownView>>,
    ) -> bool {
        &&& gained(before, after, "Shell"@, "Shell(local)"@, CapabilityView::Shell)
        &&& teardowns == seq![
            Some(TeardownView::Service { kind: "Shell"@, id: before.next_service }),
        ]
    }

    fn name(&self) -> (r: &'static str) {
        "shell:local"
    }

    fn mount(&self, ctx: &mut Context<Capability, H>) -> (r: Result<Disposers, String>)
        ensures
            r is Ok,
    {
        let ghost id = ctx@.next_service;
        let d = provide(ctx, "Shell", "Shell(local)", Capability::Shell);
        let mut out: Disposers = Vec::new();
        out.push(d);
        assert(out.deep_view() =~= seq![Some(TeardownView::Service { kind: "Shell"@, id })]);
        Ok(out)
    }
}

/// Mounts the local file system.
#[derive(Debug, Clone, Copy)]
pub struct FileSystemPlugin;

impl<H> Plugin<Capability, H> for FileSystemPlugin {
    open spec fn named(&self) -> Seq<char> {
        "fs:local"@
    }

    open spec fn mounts(
        &self,
        before: ContextView<Capability, H>,
        after: ContextView<Capability, H>,
        teardowns: Seq<Option<TeardownView>>,
    ) -> bool {
        &&& gained(before, after, "FileSystem"@, "FileSystem(local)"@, CapabilityView::Files)
        &&& teardowns == seq![
            Some(TeardownView::Service { kind: "FileSystem"@, id: before.next_service }),
        ]
    }

    fn name(&self) -> (r: &'static str) {
        "fs:local"
    }

    fn mount(&self, ctx: &mut Context<Capability, H>) -> (r: Result<Disposers, String>)
        ensures
            r is Ok,
    {
        let ghost id = ctx@.next_service;
        let d = provide(ctx, "FileSystem", "FileSystem(local)", Capability::Files);
        let mut out: Disposers = Vec::new();
        out.push(d);
        assert(out.deep_view() =~= seq![Some(TeardownView::Service { kind: "FileSystem"@, id })]);
        Ok(out)
    }
}

/// Tools registered one after the other.
pub open spec fn registered(b: RegistryView<AnyTool>, tools: Seq<AnyTool>) -> RegistryView<AnyTool>
    decreases tools.len(),
{
    if tools.len() == 0 {
        b
    } else {
        with_tool(registered(b, tools.drop_last()), tools.last())
    }
}

/// The teardowns of tools registered one after the other.
pub open spec fn tool_teardowns(b: RegistryView<AnyTool>, tools: Seq<AnyTool>) -> Seq<
    Option<TeardownView>,
>
    decreases tools.len(),
{
    if tools.len() == 0 {
        Seq::empty()
    } else {
        let front = tools.drop_last();
        tool_teardowns(b, front).push(Some(tool_teardown(registered(b, front), tools.last())))
    }
}

/// Registers tools one after the other.
pub fn register_all(registry: &mut ToolRegistry<AnyTool>, tools: Vec<AnyTool>) -> (out: Disposers)
    ensures
        final(registry).book() == registered(old(registry).book(), tools@),
        out.deep_view() == tool_teardowns(old(registry).book(), tools@),
{
    let ghost all = tools@;
    let ghost start = registry.book();
    let mut out: Disposers = Vec::new();
    let ghost mut n: int = 0;
    assert(out.deep_view() =~= tool_teardowns(start, all.take(0)));
    assert(registered(start, all.take(0)) == start);
    for tool in it: tools
        invariant
            it.seq() == all,
            n == it.index(),
            start == old(registry).book(),
            registry.book() == registered(start, all.take(n)),
            out.deep_view() == tool_teardowns(start, all.take(n)),
    {
        proof {
            assert(tool == all[n]);
            assert(all.take(n + 1).drop_last() =~= all.take(n));
            assert(all.take(n + 1).last() == all[n]);
        }
        let ghost before = out.deep_view();
        let d = registry.register(tool);
        out.push(d);
        proof {
            assert(out.deep_view() =~= before.push(d@));
            n = n + 1;
        }
    }
    assert(all.take(n) =~= all);
    out
}

/// Mounts the registry with the built-in tools, the tasks and the skills.
#[derive(Debug, Clone, Copy)]
pub struct ToolsPlugin;

/// The registry that the plugin mounts.
pub open spec fn builtin_registry(label: u64) -> RegistryView<AnyTool> {
    registered(no_tools(label), builtin_list())
}

/// The teardowns of what the plugin mounts, where the next registration has the given number.
pub open spec fn tools_teardowns(first: u64) -> Seq<Option<TeardownView>> {
    seq![
        Some(TeardownView::Service { kind: "ToolRegistry"@, id: first }),
        Some(TeardownView::Service { kind: "SubagentManager"@, id: next_number(first) }),
        Some(TeardownView::Service { kind: "SkillStore"@, id: next_number(next_number(first)) }),
    ] + tool_teardowns(no_tools(first), builtin_list())
}

/// No tasks yet.
pub open spec fn no_tasks() -> TasksView {
    TasksView { tasks: Seq::empty(), next_id: 0 }
}

/// A context with what the plugin mounts. The registry is labelled by the number of its
/// registration.
pub open spec fn with_tools<H>(c: ContextView<CapabilityView, H>) -> ContextView<
    CapabilityView,
    H,
> {
    with_service(
        with_service(
            with_service(
                c,
                "ToolRegistry"@,
                "ToolRegistry"@,
                CapabilityView::Tools(builtin_registry(c.next_service)),
            ),
            "SubagentManager"@,
            "SubagentManager"@,
            CapabilityView::Subagents(no_tasks()),
        ),
        "SkillStore"@,
        "SkillStore"@,
        CapabilityView::Skills(builtin()),
    )
}

impl<H> Plugin<Capability, H> for ToolsPlugin {
    open spec fn named(&self) -> Seq<char> {
        "tools"@
    }

    open spec fn mounts(
        &self,
        before: ContextView<Capability, H>,
        after: ContextView<Capability, H>,
        teardowns: Seq<Option<TeardownView>>,
    ) -> bool {
        &&& outline(after) == with_tools(outline(before))
        &&& teardowns == tools_teardowns(before.next_service)
    }

    fn name(&self) -> (r: &'static str) {
        "tools"
    }

    fn mount(&self, ctx: &mut Context<Capability, H>) -> (r: Result<Disposers, String>)
        ensures
            r is Ok,
    {
        let ghost first = ctx@.next_service;
        let mut registry: ToolRegistry<AnyTool> = ToolRegistry::labelled(ctx.next_service());
        let mut tools = register_all(&mut registry, builtin_tools());
        let manager = SubagentManager::new();
        assert(manager@ =~= no_tasks());
        let mut out: Disposers = Vec::new();
        out.push(provide(ctx, "ToolRegistry", "ToolRegistry", Capability::Tools(registry)));
        out.push(
            provide(ctx, "SubagentManager", "SubagentManager", Capability::Subagents(manager)),
        );
        out.push(
            provide(ctx, "SkillStore", "SkillStore", Capability::Skills(SkillStore::new(None))),
        );
        out.append(&mut tools);
        assert(out.deep_view() =~= tools_teardowns(first));
        Ok(out)
    }
}

// ---------- unloading ----------

/// A context after a teardown. The teardown of a tool is performed on the registry, where there is
/// one.
pub open spec fn undone<H>(c: ContextView<CapabilityView, H>, t: TeardownView) -> ContextView<
    CapabilityView,
    H,
> {
    match t {
        TeardownView::Tool { .. } => match at(c.services, "ToolRegistry"@) {
            Some(CapabilityView::Tools(b)) => ContextView {
                services: put(c.services, "ToolRegistry"@, CapabilityView::Tools(released(b, t))),
                ..c
            },
            _ => c,
        },
        _ => torn_down(c, t),
    }
}

/// A context after teardowns, one after the other.
pub open spec fn unloaded<H>(
    c: ContextView<CapabilityView, H>,
    teardowns: Seq<Option<TeardownView>>,
) -> ContextView<CapabilityView, H>
    decreases teardowns.len(),
{
    if teardowns.len() == 0 {
        c
    } else {
        let front = unloaded(c, teardowns.drop_last());
        match teardowns.last() {
            Some(t) => undone(front, t),
            None => front,
        }
    }
}

fn drop_tool(service: &mut Capability, teardown: &Teardown)
    ensures
        final(service)@ == (match old(service)@ {
            CapabilityView::Tools(b) => CapabilityView::Tools(released(b, teardown@)),
            other => other,
        }),
{
    match service {
        Capability::Tools(registry) => {
            registry.tear_down(teardown);
        },
        _ => {},
    }
}

/// Performs a teardown.
pub fn tear_down<H>(ctx: &mut Context<Capability, H>, teardown: &Teardown)
    ensures
        outline(final(ctx)@) == undone(outline(old(ctx)@), teardown@),
{
    let ghost rows = ctx@.services;
    match teardown {
        Teardown::Tool { .. } => {
            proof {
                lemma_mapped(rows, seen_capability(), "ToolRegistry"@, Capability::Shell);
                lemma_any_change(rows, "ToolRegistry"@);
            }
            match ctx.service_mut("ToolRegistry") {
                Some(service) => {
                    drop_tool(service, teardown);
                },
                None => {},
            }
        },
        Teardown::Service { kind, .. } => {
            proof {
                lemma_mapped_without(rows, seen_capability(), kind@);
            }
            ctx.tear_down(teardown);
        },
        Teardown::Subscription { .. } => {
            ctx.tear_down(teardown);
        },
    }
}

/// Unloads a plugin: undoes all that it mounted.
pub fn unload<H>(ctx: &mut Context<Capability, H>, disposers: &mut Disposers)
    ensures
        outline(final(ctx)@) == unloaded(outline(old(ctx)@), old(disposers).deep_view()),
        final(disposers)@.len() == 0,
{
    let ghost start = outline(ctx@);
    let ghost all = disposers.deep_view();
    let mut rows: Disposers = Vec::new();
    std::mem::swap(&mut rows, disposers);
    let ghost list = rows@;
    let ghost mut n: int = 0;
    assert(unloaded(start, all.take(0)) == start);
    for mut d in it: rows
        invariant
            it.seq() == list,
            all == Seq::new(list.len(), |i: int| list[i]@),
            n == it.index(),
            start == outline(old(ctx)@),
            outline(ctx@) == unloaded(start, all.take(n)),
    {
        proof {
            assert(d == list[n]);
            assert(all.take(n + 1).drop_last() =~= all.take(n));
            assert(all.take(n + 1).last() == all[n]);
        }
        match d.dispose() {
            Some(t) => tear_down(ctx, &t),
            None => {},
        }
        proof {
            n = n + 1;
        }
    }
    assert(all.take(n) =~= all);
}

proof fn lemma_unloaded_push<H>(
    c: ContextView<CapabilityView, H>,
    ts: Seq<Option<TeardownView>>,
    t: TeardownView,
)
    ensures
        unloaded(c, ts.push(Some(t))) == undone(unloaded(c, ts), t),
{
    assert(ts.push(Some(t)).drop_last() =~= ts);
}

proof fn lemma_registered_label(b: RegistryView<AnyTool>, tools: Seq<AnyTool>)
    ensures
        registered(b, tools).label == b.label,
    decreases tools.len(),
{
    if tools.len() > 0 {
        lemma_registered_label(b, tools.drop_last());
    }
}

/// Whether a context has no registry of a label.
spec fn unlabelled<H>(c: ContextView<CapabilityView, H>, label: u64) -> bool {
    match at(c.services, "ToolRegistry"@) {
        Some(CapabilityView::Tools(b)) => b.label != label,
        _ => true,
    }
}

proof fn lemma_tools_of_another_registry<H>(
    c: ContextView<CapabilityView, H>,
    ts: Seq<Option<TeardownView>>,
    b: RegistryView<AnyTool>,
    tools: Seq<AnyTool>,
)
    requires
        unlabelled(unloaded(c, ts), b.label),
    ensures
        unloaded(c, ts + tool_teardowns(b, tools)) == unloaded(c, ts),
    decreases tools.len(),
{
    if tools.len() > 0 {
        let front = tools.drop_last();
        lemma_tools_of_another_registry(c, ts, b, front);
        lemma_registered_label(b, front);
        let t = tool_teardown(registered(b, front), tools.last());
        assert(ts + tool_teardowns(b, tools) =~= (ts + tool_teardowns(b, front)).push(Some(t)));
        lemma_unloaded_push(c, ts + tool_teardowns(b, front), t);
        let now = unloaded(c, ts);
        if has(now.services, "ToolRegistry"@) {
            lemma_put_same(now.services, "ToolRegistry"@);
        }
        assert(undone(now, t) =~= now);
    } else {
        assert(ts + tool_teardowns(b, tools) =~= ts);
    }
}

proof fn lemma_put_same<T>(rows: Seq<(Seq<char>, T)>, key: Seq<char>)
    requires
        has(rows, key),
    ensures
        put(rows, key, at(rows, key)->0) == rows,
{
    crate::text::lemma_span(crate::table::keys(rows), key);
    let n = crate::table::row(rows, key);
    assert(crate::table::keys(rows)[n] == key);
    assert(put(rows, key, at(rows, key)->0) =~= rows);
}

/// Unloading a plugin that mounted one service takes away that service with its name, and nothing
/// else.
pub proof fn lemma_service_is_unloaded<H>(
    c: ContextView<CapabilityView, H>,
    kind: Seq<char>,
    name: Seq<char>,
    service: CapabilityView,
    other: Seq<char>,
)
    ensures
        ({
            let after = unloaded(
                with_service(c, kind, name, service),
                seq![Some(TeardownView::Service { kind, id: c.next_service })],
            );
            &&& at(after.services, kind) is None
            &&& at(after.names, kind) is None
            &&& other != kind ==> at(after.services, other) == at(c.services, other)
            &&& other != kind ==> at(after.names, other) == at(c.names, other)
            &&& after.handlers == c.handlers
        }),
{
    let mid = with_service(c, kind, name, service);
    let none: Seq<Option<TeardownView>> = Seq::empty();
    let t = TeardownView::Service { kind, id: c.next_service };
    assert(seq![Some(t)] =~= none.push(Some(t)));
    lemma_unloaded_push(mid, none, t);
    lemma_provide_is_reversible(c, kind, name, service, other);
}

/// Unloading a plugin whose one service was replaced since changes nothing.
pub proof fn lemma_replaced_service_unloads_nothing<H>(
    c: ContextView<CapabilityView, H>,
    kind: Seq<char>,
    first_name: Seq<char>,
    first: CapabilityView,
    second_name: Seq<char>,
    second: CapabilityView,
)
    ensures
        ({
            let both = with_service(
                with_service(c, kind, first_name, first),
                kind,
                second_name,
                second,
            );
            unloaded(both, seq![Some(TeardownView::Service { kind, id: c.next_service })]) == both
        }),
{
    let both = with_service(with_service(c, kind, first_name, first), kind, second_name, second);
    let none: Seq<Option<TeardownView>> = Seq::empty();
    let t = TeardownView::Service { kind, id: c.next_service };
    assert(seq![Some(t)] =~= none.push(Some(t)));
    lemma_unloaded_push(both, none, t);
    lemma_replaced_registration_unwinds_nothing(c, kind, first_name, first, second_name, second);
}

/// The three services of the tools, their kinds told apart.
proof fn lemma_kinds()
    ensures
        "ToolRegistry"@ != "SubagentManager"@,
        "ToolRegistry"@ != "SkillStore"@,
        "SubagentManager"@ != "SkillStore"@,
{
    reveal_strlit("ToolRegistry");
    reveal_strlit("SubagentManager");
    reveal_strlit("SkillStore");
    assert("ToolRegistry"@.len() != "SubagentManager"@.len());
    assert("ToolRegistry"@.len() != "SkillStore"@.len());
    assert("SubagentManager"@.len() != "SkillStore"@.len());
}

/// The numbers of what the plugin mounts.
proof fn lemma_tools_marks<H>(c: ContextView<CapabilityView, H>, other: Seq<char>)
    ensures
        ({
            let m = with_tools(c);
            let n = c.next_service;
            &&& at(m.marks, "ToolRegistry"@) == Some(n)
            &&& at(m.marks, "SubagentManager"@) == Some(next_number(n))
            &&& at(m.marks, "SkillStore"@) == Some(next_number(next_number(n)))
            &&& at(m.services, "ToolRegistry"@) == Some(CapabilityView::Tools(builtin_registry(n)))
            &&& other != "ToolRegistry"@ && other != "SubagentManager"@ && other != "SkillStore"@
                ==> at(m.services, other) == at(c.services, other) && at(m.names, other) == at(
                c.names,
                other,
            )
        }),
{
    lemma_kinds();
    let a = "ToolRegistry"@;
    let b = "SubagentManager"@;
    let d = "SkillStore"@;
    let x = CapabilityView::Tools(builtin_registry(c.next_service));
    let y = CapabilityView::Subagents(no_tasks());
    let z = CapabilityView::Skills(builtin());
    let c1 = with_service(c, a, a, x);
    let c2 = with_service(c1, b, b, y);
    lemma_put_at(c.marks, a, c.next_service);
    lemma_put_keeps(c1.marks, b, c1.next_service, a);
    lemma_put_keeps(c2.marks, d, c2.next_service, a);
    lemma_put_at(c1.marks, b, c1.next_service);
    lemma_put_keeps(c2.marks, d, c2.next_service, b);
    lemma_put_at(c2.marks, d, c2.next_service);
    lemma_put_at(c.services, a, x);
    lemma_put_keeps(c1.services, b, y, a);
    lemma_put_keeps(c2.services, d, z, a);
    if other != a && other != b && other != d {
        lemma_put_keeps(c.services, a, x, other);
        lemma_put_keeps(c1.services, b, y, other);
        lemma_put_keeps(c2.services, d, z, other);
        lemma_put_keeps(c.names, a, a, other);
        lemma_put_keeps(c1.names, b, b, other);
        lemma_put_keeps(c2.names, d, d, other);
    }
}

/// Unloading the tools takes away the registry, the tasks and the skills with their names, and
/// nothing else.
pub proof fn lemma_tools_are_unloaded<H>(c: ContextView<CapabilityView, H>, other: Seq<char>)
    ensures
        ({
            let after = unloaded(with_tools(c), tools_teardowns(c.next_service));
            &&& at(after.services, "ToolRegistry"@) is None
            &&& at(after.services, "SubagentManager"@) is None
            &&& at(after.services, "SkillStore"@) is None
            &&& at(after.names, "ToolRegistry"@) is None
            &&& at(after.names, "SubagentManager"@) is None
            &&& at(after.names, "SkillStore"@) is None
            &&& after.handlers == c.handlers
            &&& other != "ToolRegistry"@ && other != "SubagentManager"@ && other != "SkillStore"@
                ==> at(after.services, other) == at(c.services, other) && at(after.names, other)
                == at(c.names, other)
        }),
{
    lemma_kinds();
    lemma_tools_marks(c, other);
    let a = "ToolRegistry"@;
    let b = "SubagentManager"@;
    let d = "SkillStore"@;
    let n = c.next_service;
    let m = with_tools(c);
    let ta = TeardownView::Service { kind: a, id: n };
    let tb = TeardownView::Service { kind: b, id: next_number(n) };
    let td = TeardownView::Service { kind: d, id: next_number(next_number(n)) };
    let t0: Seq<Option<TeardownView>> = Seq::empty();
    let t1 = t0.push(Some(ta));
    let t2 = t1.push(Some(tb));
    let t3 = t2.push(Some(td));
    lemma_unloaded_push(m, t0, ta);
    lemma_unloaded_push(m, t1, tb);
    lemma_unloaded_push(m, t2, td);
    let u1 = undone(m, ta);
    let u2 = undone(u1, tb);
    let u3 = undone(u2, td);
    lemma_without_at(m.marks, a, b);
    lemma_without_at(m.marks, a, d);
    lemma_without_at(u1.marks, b, d);
    assert(unloaded(m, t3) == u3);
    lemma_gone(m.services, u1.services, u2.services, a, b, d, other);
    lemma_gone(m.names, u1.names, u2.names, a, b, d, other);
    assert(tools_teardowns(n) =~= t3 + tool_teardowns(no_tools(n), builtin_list()));
    lemma_tools_of_another_registry(m, t3, no_tools(n), builtin_list());
}

proof fn lemma_gone<T>(
    m: Seq<(Seq<char>, T)>,
    u1: Seq<(Seq<char>, T)>,
    u2: Seq<(Seq<char>, T)>,
    a: Seq<char>,
    b: Seq<char>,
    d: Seq<char>,
    other: Seq<char>,
)
    requires
        a != b,
        a != d,
        b != d,
        u1 == without(m, a),
        u2 == without(u1, b),
    ensures
        at(without(u2, d), a) is None,
        at(without(u2, d), b) is None,
        at(without(u2, d), d) is None,
        other != a && other != b && other != d ==> at(without(u2, d), other) == at(m, other),
{
    lemma_without_at(m, a, other);
    lemma_without_at(u1, b, a);
    lemma_without_at(u1, b, other);
    lemma_without_at(u2, d, a);
    lemma_without_at(u2, d, b);
    lemma_without_at(u2, d, other);
}

/// Unloading tools that were mounted anew since changes nothing: the later registry, tasks and
/// skills stay, with all their tools.
pub proof fn lemma_replaced_tools_stay<H>(c: ContextView<CapabilityView, H>)
    ensures
        unloaded(with_tools(with_tools(c)), tools_teardowns(c.next_service)) == with_tools(
            with_tools(c),
        ),
{
    let a = "ToolRegistry"@;
    let b = "SubagentManager"@;
    let d = "SkillStore"@;
    let n = c.next_service;
    let m = with_tools(with_tools(c));
    lemma_tools_marks(with_tools(c), a);
    let ta = TeardownView::Service { kind: a, id: n };
    let tb = TeardownView::Service { kind: b, id: next_number(n) };
    let td = TeardownView::Service { kind: d, id: next_number(next_number(n)) };
    let t0: Seq<Option<TeardownView>> = Seq::empty();
    let t1 = t0.push(Some(ta));
    let t2 = t1.push(Some(tb));
    let t3 = t2.push(Some(td));
    lemma_unloaded_push(m, t0, ta);
    lemma_unloaded_push(m, t1, tb);
    lemma_unloaded_push(m, t2, td);
    assert(unloaded(m, t3) == m);
    lemma_registered_label(no_tools(with_tools(c).next_service), builtin_list());
    assert(tools_teardowns(n) =~= t3 + tool_teardowns(no_tools(n), builtin_list()));
    lemma_tools_of_another_registry(m, t3, no_tools(n), builtin_list());
}

// ---------- the services by their types ----------

/// Whether a context changed in one service, and nowhere else.
pub open spec fn changed<H>(
    before: ContextView<Capability, H>,
    after: ContextView<Capability, H>,
    kind: Seq<char>,
    service: CapabilityView,
) -> bool {
    outline(after) == (ContextView {
        services: put(outline(before).services, kind, service),
        ..outline(before)
    })
}

/// Whether a context stayed as it was.
pub open spec fn unchanged<H>(
    before: ContextView<Capability, H>,
    after: ContextView<Capability, H>,
) -> bool {
    outline(after) == outline(before)
}

proof fn lemma_any_change(rows: Seq<(Seq<char>, Capability)>, key: Seq<char>)
    ensures
        forall|x: Capability|
            mapped(#[trigger] put(rows, key, x), seen_capability()) == put(
                mapped(rows, seen_capability()),
                key,
                x@,
            ),
        has(rows, key) ==> put(mapped(rows, seen_capability()), key, at(rows, key)->0@) == mapped(
            rows,
            seen_capability(),
        ),
{
    assert forall|x: Capability|
        mapped(#[trigger] put(rows, key, x), seen_capability()) == put(
            mapped(rows, seen_capability()),
            key,
            x@,
        ) by {
        lemma_mapped(rows, seen_capability(), key, x);
    }
    if has(rows, key) {
        crate::text::lemma_span(crate::table::keys(rows), key);
        let n = crate::table::row(rows, key);
        assert(crate::table::keys(rows)[n] == key);
        let m = mapped(rows, seen_capability());
        lemma_mapped(rows, seen_capability(), key, at(rows, key)->0);
        assert(put(m, key, at(rows, key)->0@) =~= m);
    }
}

/// The sessions of a context.
pub open spec fn sessions_of<H>(c: ContextView<Capability, H>) -> Option<StoreView> {
    match at(services(c), "SessionStore"@) {
        Some(CapabilityView::Sessions(x)) => Some(x),
        _ => None,
    }
}

/// The sessions of a context.
pub fn sessions<H>(ctx: &Context<Capability, H>) -> (r: Option<&SessionStore>)
    ensures
        match r {
            Some(x) => sessions_of(ctx@) == Some(x@),
            None => sessions_of(ctx@) is None,
        },
{
    proof {
        lemma_mapped(ctx@.services, seen_capability(), "SessionStore"@, Capability::Shell);
    }
    match ctx.service("SessionStore") {
        Some(Capability::Sessions(x)) => Some(x),
        _ => None,
    }
}

/// The sessions of a context, to change it in place.
pub fn sessions_mut<H>(ctx: &mut Context<Capability, H>) -> (r: Option<&mut SessionStore>)
    ensures
        match r {
            Some(x) => {
                &&& sessions_of(old(ctx)@) == Some((*x)@)
                &&& changed(
                    old(ctx)@,
                    final(ctx)@,
                    "SessionStore"@,
                    CapabilityView::Sessions((*final(x))@),
                )
            },
            None => {
                &&& sessions_of(old(ctx)@) is None
                &&& unchanged(old(ctx)@, final(ctx)@)
            },
        },
{
    let ghost rows = ctx@.services;
    proof {
        lemma_mapped(rows, seen_capability(), "SessionStore"@, Capability::Shell);
        lemma_any_change(rows, "SessionStore"@);
    }
    match ctx.service_mut("SessionStore") {
        Some(Capability::Sessions(x)) => Some(x),
        _ => None,
    }
}

/// The tools of a context.
pub open spec fn tools_of<H>(c: ContextView<Capability, H>) -> Option<RegistryView<AnyTool>> {
    match at(services(c), "ToolRegistry"@) {
        Some(CapabilityView::Tools(x)) => Some(x),
        _ => None,
    }
}

/// The tools of a context.
pub fn tools<H>(ctx: &Context<Capability, H>) -> (r: Option<&ToolRegistry<AnyTool>>)
    ensures
        match r {
            Some(x) => tools_of(ctx@) == Some(x.book()),
            None => tools_of(ctx@) is None,
        },
{
    proof {
        lemma_mapped(ctx@.services, seen_capability(), "ToolRegistry"@, Capability::Shell);
    }
    match ctx.service("ToolRegistry") {
        Some(Capability::Tools(x)) => Some(x),
        _ => None,
    }
}

/// The tools of a context, to change it in place.
pub fn tools_mut<H>(ctx: &mut Context<Capability, H>) -> (r: Option<&mut ToolRegistry<AnyTool>>)
    ensures
        match r {
            Some(x) => {
                &&& tools_of(old(ctx)@) == Some((*x).book())
                &&& changed(
                    old(ctx)@,
                    final(ctx)@,
                    "ToolRegistry"@,
                    CapabilityView::Tools((*final(x)).book()),
                )
            },
            None => {
                &&& tools_of(old(ctx)@) is None
                &&& unchanged(old(ctx)@, final(ctx)@)
            },
        },
{
    let ghost rows = ctx@.services;
    proof {
        lemma_mapped(rows, seen_capability(), "ToolRegistry"@, Capability::Shell);
        lemma_any_change(rows, "ToolRegistry"@);
    }
    match ctx.service_mut("ToolRegistry") {
        Some(Capability::Tools(x)) => Some(x),
        _ => None,
    }
}

/// The tasks of a context.
pub open spec fn subagents_of<H>(c: ContextView<Capability, H>) -> Option<TasksView> {
    match at(services(c), "SubagentManager"@) {
        Some(CapabilityView::Subagents(x)) => Some(x),
        _ => None,
    }
}

/// The tasks of a context.
pub fn subagents<H>(ctx: &Context<Capability, H>) -> (r: Option<&SubagentManager>)
    ensures
        match r {
            Some(x) => subagents_of(ctx@) == Some(x@),
            None => subagents_of(ctx@) is None,
        },
{
    proof {
        lemma_mapped(ctx@.services, seen_capability(), "SubagentManager"@, Capability::Shell);
    }
    match ctx.service("SubagentManager") {
        Some(Capability::Subagents(x)) => Some(x),
        _ => None,
    }
}

/// The tasks of a context, to change it in place.
pub fn subagents_mut<H>(ctx: &mut Context<Capability, H>) -> (r: Option<&mut SubagentManager>)
    ensures
        match r {
            Some(x) => {
                &&& subagents_of(old(ctx)@) == Some((*x)@)
                &&& changed(
                    old(ctx)@,
                    final(ctx)@,
                    "SubagentManager"@,
                    CapabilityView::Subagents((*final(x))@),
                )
            },
            None => {
                &&& subagents_of(old(ctx)@) is None
                &&& unchanged(old(ctx)@, final(ctx)@)
            },
        },
{
    let ghost rows = ctx@.services;
    proof {
        lemma_mapped(rows, seen_capability(), "SubagentManager"@, Capability::Shell);
        lemma_any_change(rows, "SubagentManager"@);
    }
    match ctx.service_mut("SubagentManager") {
        Some(Capability::Subagents(x)) => Some(x),
        _ => None,
    }
}

/// The skills of a context.
pub open spec fn skills_of<H>(c: ContextView<Capability, H>) -> Option<Seq<SkillView>> {
    match at(services(c), "SkillStore"@) {
        Some(CapabilityView::Skills(x)) => Some(x),
        _ => None,
    }
}

/// The skills of a context.
pub fn skills<H>(ctx: &Context<Capability, H>) -> (r: Option<&SkillStore>)
    ensures
        match r {
            Some(x) => skills_of(ctx@) == Some(x@),
            None => skills_of(ctx@) is None,
        },
{
    proof {
        lemma_mapped(ctx@.services, seen_capability(), "SkillStore"@, Capability::Shell);
    }
    match ctx.service("SkillStore") {
        Some(Capability::Skills(x)) => Some(x),
        _ => None,
    }
}

// ---------- assembling ----------

/// The assembled harness.
#[derive(Debug)]
pub struct Assembled<H> {
    pub ctx: Context<Capability, H>,
    /// The names of the plugins, in the order of mounting.
    pub plugins: Vec<&'static str>,
    /// What undoes each of them.
    pub disposers: Vec<Disposers>,
}

/// A context without anything.
pub open spec fn bare<H>() -> ContextView<CapabilityView, H> {
    ContextView {
        services: Seq::empty(),
        names: Seq::empty(),
        marks: Seq::empty(),
        handlers: Seq::empty(),
        next_handler: 0,
        next_service: 0,
    }
}

/// The context of an assembled harness.
pub open spec fn assembled<H>(home: Seq<char>) -> ContextView<CapabilityView, H> {
    with_tools(
        with_service(
            with_service(
                with_service(
                    bare(),
                    "SessionStore"@,
                    "SessionStore"@,
                    CapabilityView::Sessions(
                        StoreView { sessions: Seq::empty(), observed: true, dir: None, home },
                    ),
                ),
                "Shell"@,
                "Shell(local)"@,
                CapabilityView::Shell,
            ),
            "FileSystem"@,
            "FileSystem(local)"@,
            CapabilityView::Files,
        ),
    )
}

/// The teardowns of each plugin of an assembled harness.
pub open spec fn assembled_teardowns() -> Seq<Seq<Option<TeardownView>>> {
    seq![
        seq![Some(TeardownView::Service { kind: "SessionStore"@, id: 0 })],
        seq![Some(TeardownView::Service { kind: "Shell"@, id: 1 })],
        seq![Some(TeardownView::Service { kind: "FileSystem"@, id: 2 })],
        tools_teardowns(3),
    ]
}

/// Mounts the plugins of the harness, one after the other.
pub fn assemble<H>(home: &str) -> (r: Result<Assembled<H>, String>)
    ensures
        r matches Ok(a) && outline(a.ctx@) == assembled::<H>(home@) && a.plugins@ == seq![
            "session",
            "shell:local",
            "fs:local",
            "tools",
        ] && a.disposers.deep_view() == assembled_teardowns(),
{
    let mut ctx: Context<Capability, H> = Context::new();
    assert(outline(ctx@) =~= bare::<H>());
    let mut plugins: Vec<&'static str> = Vec::new();
    let mut disposers: Vec<Disposers> = Vec::new();
    let session = SessionPlugin { home: home.to_owned() };
    plugins.push("session");
    match session.mount(&mut ctx) {
        Ok(d) => disposers.push(d),
        Err(e) => return Err(e),
    }
    plugins.push("shell:local");
    match ShellPlugin.mount(&mut ctx) {
        Ok(d) => disposers.push(d),
        Err(e) => return Err(e),
    }
    plugins.push("fs:local");
    match FileSystemPlugin.mount(&mut ctx) {
        Ok(d) => disposers.push(d),
        Err(e) => return Err(e),
    }
    plugins.push("tools");
    match ToolsPlugin.mount(&mut ctx) {
        Ok(d) => disposers.push(d),
        Err(e) => return Err(e),
    }
    assert(plugins@ =~= seq!["session", "shell:local", "fs:local", "tools"]);
    assert(disposers.deep_view() =~= assembled_teardowns());
    Ok(Assembled { ctx, plugins, disposers })
}

} // verus!

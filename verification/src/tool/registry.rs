//! The tool trait, and the registry that routes a call to its tool.
use vstd::prelude::*;
use vstd::string::*;

use crate::host::context::next_number;
use crate::host::service::{Disposer, Teardown, TeardownView};
use crate::json::{Json, Tree};
use crate::table::{
    Table, at, distinct, keys, lemma_keys_alike, lemma_put_at, lemma_put_distinct, lemma_put_keeps,
    lemma_without_at, lemma_without_distinct, put, without,
};
use crate::tool::call::{CallView, ToolCallContext};
use crate::tool::description::{DescriptionView, ToolCapabilities, ToolConcurrency, ToolDescription};
use crate::tool::error::{ErrorView, ToolError, unimplemented_tool, unknown_tool};
use crate::tool::stream::{ItemView, ToolStreamItem, result_view, terminal_only};

verus! {

/// What every tool is: an identity by which calls are routed to it, and what a model is told.
pub trait Tool: Sized {
    spec fn named(&self) -> Seq<char>;

    spec fn described(&self) -> DescriptionView;

    spec fn listed(&self, ctx: CallView) -> bool;

    /// The identity by which calls are routed to the tool.
    fn id(&self) -> (r: String)
        ensures
            r@ == self.named(),
    ;

    /// What a model is told of the tool.
    fn description(&self) -> (r: ToolDescription)
        ensures
            r@ == self.described(),
    ;

    /// What the tool can and does.
    fn capabilities(&self) -> (r: ToolCapabilities)
        default_ensures
            r == (ToolCapabilities { concurrency: ToolConcurrency::Once, read_only: false }),
    {
        ToolCapabilities { concurrency: ToolConcurrency::Once, read_only: false }
    }

    /// Whether a model is told of the tool in a turn.
    fn should_list(&self, ctx: &ToolCallContext) -> (r: bool)
        ensures
            r == self.listed(ctx@),
    ;

    /// The stream of a call, from what running the tool gave: exactly that, as the one item. A
    /// tool that was not run fails loudly.
    fn execute(&self, ran: Option<Result<Json, ToolError>>) -> (r: Vec<ToolStreamItem>)
        ensures
            r.deep_view() == seq![
                ItemView::Terminal(
                    run_result(
                        self.named(),
                        (match ran {
                            Some(x) => Some(result_view(x)),
                            None => None,
                        }),
                    ),
                ),
            ],
    {
        match ran {
            Some(x) => terminal_only(x),
            None => {
                let id = self.id();
                terminal_only(Err(ToolError::not_implemented(id.as_str())))
            },
        }
    }
}

/// What running a tool gives; a tool that runs nothing says so.
pub open spec fn run_result(
    named: Seq<char>,
    ran: Option<Result<Tree, ErrorView>>,
) -> Result<Tree, ErrorView> {
    match ran {
        Some(x) => x,
        None => Err(unimplemented_tool(named)),
    }
}

/// The tools, under their identities.
#[derive(Debug)]
pub struct ToolRegistry<T> {
    label: u64,
    tools: Table<T>,
    marks: Table<u64>,
    next: u64,
}

/// What a registry stands for.
#[verifier::ext_equal]
#[verifier::reject_recursive_types(T)]
pub struct RegistryView<T> {
    /// The label by which the registry is told apart from others.
    pub label: u64,
    /// The tools, under their identities.
    pub rows: Seq<(Seq<char>, T)>,
    /// The numbers of the registrations that the tools are from.
    pub marks: Seq<(Seq<char>, u64)>,
    /// The number of the next registration.
    pub next: u64,
}

impl<T> View for ToolRegistry<T> {
    type V = Seq<(Seq<char>, T)>;

    open spec fn view(&self) -> Seq<(Seq<char>, T)> {
        self.book().rows
    }
}

impl<T> ToolRegistry<T> {
    /// The tools with their registrations.
    pub closed spec fn book(&self) -> RegistryView<T> {
        RegistryView {
            label: self.label,
            rows: self.tools@,
            marks: self.marks@,
            next: self.next,
        }
    }
}

/// A registry without tools.
pub open spec fn no_tools<T>(label: u64) -> RegistryView<T> {
    RegistryView { label, rows: Seq::empty(), marks: Seq::empty(), next: 0 }
}

/// The registry with one more tool, in the place of an earlier one of its identity.
pub open spec fn with_tool<T: Tool>(b: RegistryView<T>, tool: T) -> RegistryView<T> {
    RegistryView {
        rows: put(b.rows, tool.named(), tool),
        marks: put(b.marks, tool.named(), b.next),
        next: next_number(b.next),
        ..b
    }
}

/// The teardown of the next registration of a tool.
pub open spec fn tool_teardown<T: Tool>(b: RegistryView<T>, tool: T) -> TeardownView {
    TeardownView::Tool { registry: b.label, tool: tool.named(), id: b.next }
}

/// The registry without what is under an identity.
pub open spec fn without_tool<T>(b: RegistryView<T>, id: Seq<char>) -> RegistryView<T> {
    RegistryView { rows: without(b.rows, id), marks: without(b.marks, id), ..b }
}

/// The registry after a teardown, which unwinds one registration: where the registration is of
/// another registry, or another one has come in its place, nothing changes.
pub open spec fn released<T>(b: RegistryView<T>, t: TeardownView) -> RegistryView<T> {
    match t {
        TeardownView::Tool { registry, tool, id } => if registry == b.label && at(b.marks, tool)
            == Some(id) {
            without_tool(b, tool)
        } else {
            b
        },
        _ => b,
    }
}

/// What a model is told in a turn: the descriptions of the tools that are listed.
pub open spec fn manifest<T: Tool>(rows: Seq<(Seq<char>, T)>, ctx: CallView) -> Seq<DescriptionView>
    decreases rows.len(),
{
    if rows.len() == 0 {
        Seq::empty()
    } else if rows.last().1.listed(ctx) {
        manifest(rows.drop_last(), ctx).push(rows.last().1.described())
    } else {
        manifest(rows.drop_last(), ctx)
    }
}

impl<T: Tool> Default for ToolRegistry<T> {
    fn default() -> (r: Self)
        ensures
            r.book() == no_tools::<T>(0),
    {
        ToolRegistry::new()
    }
}

impl<T: Tool> ToolRegistry<T> {
    /// An empty registry.
    pub fn new() -> (r: ToolRegistry<T>)
        ensures
            r.book() == no_tools::<T>(0),
    {
        ToolRegistry::labelled(0)
    }

    /// An empty registry with a label.
    pub fn labelled(label: u64) -> (r: ToolRegistry<T>)
        ensures
            r.book() == no_tools::<T>(label),
    {
        ToolRegistry { label, tools: Table::new(), marks: Table::new(), next: 0 }
    }

    /// Registers a tool, in the place of an earlier one of the same identity.
    pub fn register(&mut self, tool: T) -> (r: Disposer)
        ensures
            final(self).book() == with_tool(old(self).book(), tool),
            r@ == Some(tool_teardown(old(self).book(), tool)),
    {
        let name = tool.id();
        let id = self.next;
        self.tools.put(name.as_str(), tool);
        self.marks.put(name.as_str(), id);
        self.next = id.wrapping_add(1);
        Disposer::new(Teardown::Tool { registry: self.label, tool: name, id })
    }

    /// Looks up a tool.
    pub fn get(&self, id: &str) -> (r: Option<&T>)
        ensures
            match r {
                Some(t) => at(self@, id@) == Some(*t),
                None => at(self@, id@) is None,
            },
    {
        self.tools.get(id)
    }

    /// What a model is told in a turn.
    pub fn list(&self, ctx: &ToolCallContext) -> (r: Vec<ToolDescription>)
        ensures
            r.deep_view() == manifest(self@, ctx@),
    {
        let ghost all = self@;
        let mut out: Vec<ToolDescription> = Vec::new();
        let mut i: usize = 0;
        assert(out.deep_view() =~= manifest(all.take(0), ctx@));
        while i < self.tools.len()
            invariant
                i <= all.len(),
                all == self.tools@,
                out.deep_view() == manifest(all.take(i as int), ctx@),
            decreases all.len() - i,
        {
            proof {
                assert(all.take(i + 1).drop_last() =~= all.take(i as int));
                assert(all.take(i + 1).last() == all[i as int]);
            }
            let ghost before = out.deep_view();
            let tool = self.tools.value_at(i);
            if tool.should_list(ctx) {
                out.push(tool.description());
                assert(out.deep_view() =~= before.push(all[i as int].1.described()));
            }
            i = i + 1;
        }
        assert(all.take(i as int) =~= all);
        out
    }

    /// The number of tools.
    pub fn len(&self) -> (r: usize)
        ensures
            r == self@.len(),
    {
        self.tools.len()
    }

    /// Whether there is no tool.
    pub fn is_empty(&self) -> (r: bool)
        ensures
            r == (self@.len() == 0),
    {
        self.tools.len() == 0
    }

    /// Routes a call: the tool that is to be executed.
    pub fn call(&self, id: &str) -> (r: Result<&T, ToolError>)
        ensures
            match r {
                Ok(t) => at(self@, id@) == Some(*t),
                Err(e) => at(self@, id@) is None && e@ == unknown_tool(id@),
            },
    {
        match self.get(id) {
            Some(t) => Ok(t),
            None => Err(ToolError::not_found(id)),
        }
    }

    /// Takes a tool away; tells whether it was there.
    pub fn remove(&mut self, id: &str) -> (r: bool)
        ensures
            r == (at(old(self)@, id@) is Some),
            final(self).book() == without_tool(old(self).book(), id@),
    {
        let _ = self.marks.remove(id);
        self.tools.remove(id)
    }

    /// Performs a teardown. What is not of a tool of this registry changes nothing here.
    pub fn tear_down(&mut self, teardown: &Teardown)
        ensures
            final(self).book() == released(old(self).book(), teardown@),
    {
        match teardown {
            Teardown::Tool { registry, tool, id } => {
                let current = *registry == self.label && match self.marks.get(tool.as_str()) {
                    Some(mark) => *mark == *id,
                    None => false,
                };
                if current {
                    let _ = self.remove(tool.as_str());
                }
            },
            _ => {},
        }
    }

    /// Undoes a registration. What is not a tool's teardown changes nothing here.
    pub fn dispose(&mut self, disposer: &mut Disposer)
        ensures
            final(self).book() == (match old(disposer)@ {
                Some(t) => released(old(self).book(), t),
                None => old(self).book(),
            }),
            final(disposer)@ is None,
    {
        match disposer.dispose() {
            Some(t) => self.tear_down(&t),
            None => {},
        }
    }
}

/// A call is routed to the tool that was registered last under its identity, and once the
/// registration is undone it is routed to none; the other tools stay as they were.
pub proof fn lemma_registration<T: Tool>(b: RegistryView<T>, tool: T, other: Seq<char>)
    ensures
        at(with_tool(b, tool).rows, tool.named()) == Some(tool),
        at(released(with_tool(b, tool), tool_teardown(b, tool)).rows, tool.named()) is None,
        other != tool.named() ==> at(with_tool(b, tool).rows, other) == at(b.rows, other),
        other != tool.named() ==> at(
            released(with_tool(b, tool), tool_teardown(b, tool)).rows,
            other,
        ) == at(b.rows, other),
{
    let mid = with_tool(b, tool);
    lemma_put_at(b.rows, tool.named(), tool);
    lemma_put_at(b.marks, tool.named(), b.next);
    lemma_without_at(mid.rows, tool.named(), other);
    if other != tool.named() {
        lemma_put_keeps(b.rows, tool.named(), tool, other);
    }
}

/// Whether calls to an identity go to one tool, and numbers are kept for the tools that are there,
/// and for no others.
pub open spec fn orderly<T>(b: RegistryView<T>) -> bool {
    distinct(b.rows) && keys(b.marks) == keys(b.rows)
}

/// A registry is orderly: a new one is, and it stays so whatever is registered, taken away or torn
/// down.
pub proof fn lemma_registry_is_orderly<T: Tool>(
    b: RegistryView<T>,
    label: u64,
    tool: T,
    id: Seq<char>,
    t: TeardownView,
)
    requires
        orderly(b),
    ensures
        orderly(no_tools::<T>(label)),
        orderly(with_tool(b, tool)),
        orderly(without_tool(b, id)),
        orderly(released(b, t)),
{
    assert(keys(no_tools::<T>(label).marks) =~= keys(no_tools::<T>(label).rows));
    lemma_put_distinct(b.rows, tool.named(), tool);
    lemma_keys_alike(b.marks, b.rows, tool.named(), b.next, tool);
    lemma_without_distinct(b.rows, id);
    lemma_keys_alike(b.marks, b.rows, id, b.next, tool);
    match t {
        TeardownView::Tool { tool: name, .. } => {
            lemma_without_distinct(b.rows, name);
            lemma_keys_alike(b.marks, b.rows, name, b.next, tool);
        },
        _ => {},
    }
}

/// Once a tool is replaced, the teardown of its registration changes nothing: calls go to the
/// replacement.
pub proof fn lemma_replaced_tool_stays<T: Tool>(b: RegistryView<T>, first: T, second: T)
    requires
        first.named() == second.named(),
    ensures
        ({
            let both = with_tool(with_tool(b, first), second);
            &&& released(both, tool_teardown(b, first)) == both
            &&& at(both.rows, first.named()) == Some(second)
        }),
{
    let one = with_tool(b, first);
    lemma_put_at(one.marks, second.named(), one.next);
    lemma_put_at(one.rows, second.named(), second);
}

} // verus!

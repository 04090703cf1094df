//! Services and reversible effects.
use vstd::prelude::*;

verus! {

/// What can be provided on a context and resolved from it. Every value can; services are told
/// apart by the name of their type.
pub trait Service: Sized {

}

impl<T> Service for T {

}

/// What undoes a registration.
#[derive(Debug)]
pub enum Teardown {
    /// Removes one registration of a service: that of the number.
    Service { kind: String, id: u64 },
    /// Removes one subscription to an event type.
    Subscription { event: String, id: u64 },
    /// Removes one registration of a tool, that of the number, from the registry of the label.
    Tool { registry: u64, tool: String, id: u64 },
}

/// What a teardown stands for.
pub enum TeardownView {
    Service { kind: Seq<char>, id: u64 },
    Subscription { event: Seq<char>, id: u64 },
    Tool { registry: u64, tool: Seq<char>, id: u64 },
}

impl View for Teardown {
    type V = TeardownView;

    open spec fn view(&self) -> TeardownView {
        match self {
            Teardown::Service { kind, id } => TeardownView::Service { kind: kind@, id: *id },
            Teardown::Subscription { event, id } => TeardownView::Subscription {
                event: event@,
                id: *id,
            },
            Teardown::Tool { registry, tool, id } => TeardownView::Tool {
                registry: *registry,
                tool: tool@,
                id: *id,
            },
        }
    }
}

impl DeepView for Teardown {
    type V = TeardownView;

    open spec fn deep_view(&self) -> TeardownView {
        self@
    }
}

/// A reversible effect: the teardown is handed out exactly once.
#[derive(Debug)]
pub struct Disposer {
    teardown: Option<Teardown>,
}

impl View for Disposer {
    type V = Option<TeardownView>;

    closed spec fn view(&self) -> Option<TeardownView> {
        self.teardown.deep_view()
    }
}

impl DeepView for Disposer {
    type V = Option<TeardownView>;

    open spec fn deep_view(&self) -> Option<TeardownView> {
        self@
    }
}

impl Disposer {
    /// A disposer with a teardown.
    pub fn new(teardown: Teardown) -> (r: Disposer)
        ensures
            r@ == Some(teardown@),
    {
        Disposer { teardown: Some(teardown) }
    }

    /// A disposer that does nothing.
    pub fn noop() -> (r: Disposer)
        ensures
            r@ is None,
    {
        Disposer { teardown: None }
    }

    /// Hands out the teardown. Every further call hands out nothing.
    pub fn dispose(&mut self) -> (r: Option<Teardown>)
        ensures
            r.deep_view() == old(self)@,
            final(self)@ is None,
    {
        self.teardown.take()
    }

    /// Whether the teardown was handed out already.
    pub fn is_disposed(&self) -> (r: bool)
        ensures
            r == (self@ is None),
    {
        self.teardown.is_none()
    }
}

/// A bundle of disposers, such as everything that a plugin mounted.
pub type Disposers = Vec<Disposer>;

/// A value together with the disposer of its registration.
pub fn provided<T: Service>(value: T, disposer: Disposer) -> (r: (T, Disposer))
    ensures
        r == (value, disposer),
{
    (value, disposer)
}

} // verus!

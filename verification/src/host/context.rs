//! The shared composition context and the plugin trait.
use std::sync::Arc;
use vstd::prelude::*;
use vstd::string::*;

use crate::host::service::{Disposer, Disposers, Service, Teardown, TeardownView};
use crate::table::{
    Table, at, distinct, has, keys, lemma_keys_alike, lemma_mapped, lemma_mapped_without,
    lemma_put_at, lemma_put_distinct, lemma_put_keeps, lemma_without_at, lemma_without_distinct,
    mapped, put, without,
};
use crate::text::{concat2, same};

verus! {

/// A plugin contributes services, subscriptions and reversible effects to a context.
pub trait Plugin<S, H>: Sized {
    /// The name that the plugin is listed under.
    spec fn named(&self) -> Seq<char>;

    /// How the plugin changes a context, and the teardowns of what it contributed.
    spec fn mounts(
        &self,
        before: ContextView<S, H>,
        after: ContextView<S, H>,
        teardowns: Seq<Option<TeardownView>>,
    ) -> bool;

    /// The name that the plugin is listed under.
    fn name(&self) -> (r: &'static str)
        ensures
            r@ == self.named(),
    ;

    /// Contributes to the context; the disposers undo the contributions. A plugin may fail, and
    /// says why.
    fn mount(&self, ctx: &mut Context<S, H>) -> (r: Result<Disposers, String>)
        ensures
            r matches Ok(d) ==> self.mounts(old(ctx)@, final(ctx)@, d.deep_view()),
    ;
}

/// One subscription to an event type.
#[derive(Debug)]
pub struct Subscription<H> {
    event: String,
    id: u64,
    handler: Arc<H>,
}

/// What a subscription stands for.
#[verifier::reject_recursive_types(H)]
pub struct SubscriptionView<H> {
    pub event: Seq<char>,
    pub id: u64,
    pub handler: H,
}

/// `Arc::clone` gives another handle on the same value.
#[verifier::external_body]
fn share<H>(handler: &Arc<H>) -> (r: Arc<H>)
    ensures
        *r == **handler,
{
    Arc::clone(handler)
}

/// The shared composition context: services by type, and subscriptions by event type.
#[derive(Debug)]
pub struct Context<S, H> {
    services: Table<S>,
    names: Table<String>,
    marks: Table<u64>,
    handlers: Vec<Subscription<H>>,
    next_handler: u64,
    next_service: u64,
}

/// What a context stands for.
#[verifier::ext_equal]
#[verifier::reject_recursive_types(S)]
#[verifier::reject_recursive_types(H)]
pub struct ContextView<S, H> {
    /// The services, under the names of their types.
    pub services: Seq<(Seq<char>, S)>,
    /// The diagnostic names of the services, under the names of their types.
    pub names: Seq<(Seq<char>, Seq<char>)>,
    /// The numbers of the registrations that the services are from.
    pub marks: Seq<(Seq<char>, u64)>,
    /// The subscriptions, in the order of registration.
    pub handlers: Seq<SubscriptionView<H>>,
    pub next_handler: u64,
    pub next_service: u64,
}

/// How a name is seen.
pub open spec fn seen_text() -> spec_fn(String) -> Seq<char> {
    |s: String| s@
}

/// Subscriptions as they stand.
pub closed spec fn subscription_views<H>(s: Seq<Subscription<H>>) -> Seq<SubscriptionView<H>> {
    Seq::new(
        s.len(),
        |i: int| SubscriptionView { event: s[i].event@, id: s[i].id, handler: *s[i].handler },
    )
}

impl<S, H> View for Context<S, H> {
    type V = ContextView<S, H>;

    closed spec fn view(&self) -> ContextView<S, H> {
        ContextView {
            services: self.services@,
            names: mapped(self.names@, seen_text()),
            marks: self.marks@,
            handlers: subscription_views(self.handlers@),
            next_handler: self.next_handler,
            next_service: self.next_service,
        }
    }
}

/// The context with one more service, under a diagnostic name.
pub open spec fn with_service<S, H>(
    c: ContextView<S, H>,
    kind: Seq<char>,
    name: Seq<char>,
    service: S,
) -> ContextView<S, H> {
    ContextView {
        services: put(c.services, kind, service),
        names: put(c.names, kind, name),
        marks: put(c.marks, kind, c.next_service),
        next_service: next_number(c.next_service),
        ..c
    }
}

/// The number after `n`; the largest is followed by zero.
pub open spec fn next_number(n: u64) -> u64 {
    if n == u64::MAX {
        0
    } else {
        (n + 1) as u64
    }
}

/// The context with one more subscription.
pub open spec fn with_handler<S, H>(c: ContextView<S, H>, event: Seq<char>, handler: H) -> ContextView<
    S,
    H,
> {
    ContextView {
        handlers: c.handlers.push(SubscriptionView { event, id: c.next_handler, handler }),
        next_handler: next_number(c.next_handler),
        ..c
    }
}

/// The subscriptions to an event type, in the order of registration.
pub open spec fn subscribed<H>(s: Seq<SubscriptionView<H>>, event: Seq<char>) -> Seq<H>
    decreases s.len(),
{
    if s.len() == 0 {
        Seq::empty()
    } else if s.last().event == event {
        subscribed(s.drop_last(), event).push(s.last().handler)
    } else {
        subscribed(s.drop_last(), event)
    }
}

/// The subscriptions without one.
pub open spec fn unsubscribed<H>(s: Seq<SubscriptionView<H>>, event: Seq<char>, id: u64) -> Seq<
    SubscriptionView<H>,
>
    decreases s.len(),
{
    if s.len() == 0 {
        s
    } else if s.last().event == event && s.last().id == id {
        unsubscribed(s.drop_last(), event, id)
    } else {
        unsubscribed(s.drop_last(), event, id).push(s.last())
    }
}

/// The context after a teardown. That of a service unwinds its own registration: where another one
/// has come in its place, or none is there any more, nothing changes.
pub open spec fn torn_down<S, H>(c: ContextView<S, H>, t: TeardownView) -> ContextView<S, H> {
    match t {
        TeardownView::Service { kind, id } => if at(c.marks, kind) == Some(id) {
            ContextView {
                services: without(c.services, kind),
                names: without(c.names, kind),
                marks: without(c.marks, kind),
                ..c
            }
        } else {
            c
        },
        TeardownView::Subscription { event, id } => ContextView {
            handlers: unsubscribed(c.handlers, event, id),
            ..c
        },
        TeardownView::Tool { .. } => c,
    }
}

impl<S: Service, H> Default for Context<S, H> {
    fn default() -> (r: Self)
        ensures
            r@.services == Seq::<(Seq<char>, S)>::empty(),
            r@.names == Seq::<(Seq<char>, Seq<char>)>::empty(),
            r@.marks == Seq::<(Seq<char>, u64)>::empty(),
            r@.handlers == Seq::<SubscriptionView<H>>::empty(),
            r@.next_handler == 0,
            r@.next_service == 0,
    {
        Context::new()
    }
}

impl<S: Service, H> Context<S, H> {
    /// An empty context.
    pub fn new() -> (r: Context<S, H>)
        ensures
            r@.services == Seq::<(Seq<char>, S)>::empty(),
            r@.names == Seq::<(Seq<char>, Seq<char>)>::empty(),
            r@.marks == Seq::<(Seq<char>, u64)>::empty(),
            r@.handlers == Seq::<SubscriptionView<H>>::empty(),
            r@.next_handler == 0,
            r@.next_service == 0,
    {
        let r = Context {
            services: Table::new(),
            names: Table::new(),
            marks: Table::new(),
            handlers: Vec::new(),
            next_handler: 0,
            next_service: 0,
        };
        assert(r@.names =~= Seq::empty());
        assert(r@.handlers =~= Seq::empty());
        r
    }

    /// Registers a service under the name of its type. A later registration of the same type
    /// replaces an earlier one.
    pub fn provide(&mut self, kind: &str, service: S) -> (r: Disposer)
        ensures
            final(self)@ == with_service(old(self)@, kind@, kind@, service),
            r@ == Some(TeardownView::Service { kind: kind@, id: old(self)@.next_service }),
    {
        self.provide_named(kind, kind, service)
    }

    /// Registers a service under a diagnostic name.
    pub fn provide_named(&mut self, kind: &str, name: &str, service: S) -> (r: Disposer)
        ensures
            final(self)@ == with_service(old(self)@, kind@, name@, service),
            r@ == Some(TeardownView::Service { kind: kind@, id: old(self)@.next_service }),
    {
        let label = name.to_owned();
        proof {
            lemma_mapped(self.names@, seen_text(), kind@, label);
        }
        self.services.put(kind, service);
        self.names.put(kind, label);
        let id = self.next_service;
        self.marks.put(kind, id);
        self.next_service = id.wrapping_add(1);
        Disposer::new(Teardown::Service { kind: kind.to_owned(), id })
    }

    /// The number that the next registration of a service gets.
    pub fn next_service(&self) -> (r: u64)
        ensures
            r == self@.next_service,
    {
        self.next_service
    }

    /// Resolves a service by its type.
    pub fn service(&self, kind: &str) -> (r: Option<&S>)
        ensures
            match r {
                Some(s) => at(self@.services, kind@) == Some(*s),
                None => at(self@.services, kind@) is None,
            },
    {
        self.services.get(kind)
    }

    /// Resolves a service by its type, to change it in place.
    pub fn service_mut(&mut self, kind: &str) -> (r: Option<&mut S>)
        ensures
            match r {
                Some(s) => {
                    &&& at(old(self)@.services, kind@) == Some(*s)
                    &&& final(self)@ == (ContextView {
                        services: put(old(self)@.services, kind@, *final(s)),
                        ..old(self)@
                    })
                },
                None => {
                    &&& at(old(self)@.services, kind@) is None
                    &&& final(self)@ == old(self)@
                },
            },
    {
        self.services.get_mut(kind)
    }

    /// Resolves a service by its type, or fails with a message.
    pub fn service_or(&self, kind: &str, what: &str) -> (r: Result<&S, String>)
        ensures
            match r {
                Ok(s) => at(self@.services, kind@) == Some(*s),
                Err(e) => {
                    &&& at(self@.services, kind@) is None
                    &&& e@ == "no service registered for "@ + what@
                },
            },
    {
        match self.service(kind) {
            Some(s) => Ok(s),
            None => Err(concat2("no service registered for ", what)),
        }
    }

    /// Subscribes to an event type.
    pub fn on(&mut self, event: &str, handler: H) -> (r: Disposer)
        ensures
            final(self)@ == with_handler(old(self)@, event@, handler),
            r@ == Some(TeardownView::Subscription { event: event@, id: old(self)@.next_handler }),
    {
        let ghost before = self@;
        let id = self.next_handler;
        self.next_handler = id.wrapping_add(1);
        self.handlers.push(Subscription { event: event.to_owned(), id, handler: Arc::new(handler) });
        assert(self@.handlers =~= with_handler(before, event@, handler).handlers);
        Disposer::new(Teardown::Subscription { event: event.to_owned(), id })
    }

    /// Publishes an event: hands out the handlers that are subscribed to its type, to be run in
    /// the order of registration. This is a snapshot that holds on to nothing of the context, so a
    /// handler may subscribe and unsubscribe while the event is delivered.
    pub fn emit(&self, event: &str) -> (r: Vec<Arc<H>>)
        ensures
            Seq::new(r@.len(), |i: int| *r@[i]) == subscribed(self@.handlers, event@),
    {
        let ghost all = self@.handlers;
        let mut out: Vec<Arc<H>> = Vec::new();
        let mut i: usize = 0;
        let ghost mut told: Seq<H> = Seq::empty();
        while i < self.handlers.len()
            invariant
                i <= self.handlers@.len(),
                all == subscription_views(self.handlers@),
                told == Seq::new(out@.len(), |k: int| *out@[k]),
                told == subscribed(all.take(i as int), event@),
            decreases self.handlers@.len() - i,
        {
            proof {
                assert(all.take(i + 1).drop_last() =~= all.take(i as int));
                assert(all.take(i + 1).last() == all[i as int]);
            }
            if same(self.handlers[i].event.as_str(), event) {
                out.push(share(&self.handlers[i].handler));
                proof {
                    told = told.push(all[i as int].handler);
                    assert(told =~= Seq::new(out@.len(), |k: int| *out@[k]));
                }
            }
            i = i + 1;
        }
        assert(all.take(i as int) =~= all);
        out
    }

    /// The diagnostic names of the registered services.
    pub fn service_names(&self) -> (r: Vec<String>)
        ensures
            r.deep_view() == Seq::new(self@.names.len(), |i: int| self@.names[i].1),
    {
        let mut out: Vec<String> = Vec::new();
        let mut i: usize = 0;
        while i < self.names.len()
            invariant
                i <= self.names@.len(),
                out@.len() == i,
                forall|k: int| 0 <= k < i ==> (#[trigger] out@[k])@ == self.names@[k].1@,
            decreases self.names@.len() - i,
        {
            out.push(self.names.value_at(i).clone());
            i = i + 1;
        }
        assert(out.deep_view() =~= Seq::new(self@.names.len(), |i: int| self@.names[i].1));
        out
    }

    fn unsubscribe(&mut self, event: &str, id: u64)
        ensures
            final(self)@ == (ContextView {
                handlers: unsubscribed(old(self)@.handlers, event@, id),
                ..old(self)@
            }),
    {
        let ghost all = self@.handlers;
        let mut rows: Vec<Subscription<H>> = Vec::new();
        std::mem::swap(&mut rows, &mut self.handlers);
        let ghost from = rows@;
        let mut kept: Vec<Subscription<H>> = Vec::new();
        let ghost mut n: int = 0;
        assert(subscription_views(kept@) =~= unsubscribed(all.take(0), event@, id));
        for r in it: rows
            invariant
                it.seq() == from,
                all == subscription_views(from),
                n == it.index(),
                subscription_views(kept@) == unsubscribed(all.take(n), event@, id),
        {
            proof {
                assert(r == from[n]);
                assert(all.take(n + 1).drop_last() =~= all.take(n));
                assert(all.take(n + 1).last() == all[n]);
            }
            let ghost before = subscription_views(kept@);
            if !(same(r.event.as_str(), event) && r.id == id) {
                kept.push(r);
                assert(subscription_views(kept@) =~= before.push(all[n]));
            }
            proof {
                n = n + 1;
            }
        }
        assert(all.take(n) =~= all);
        self.handlers = kept;
    }

    /// Performs a teardown. Tools are not registered here: their teardown changes nothing.
    pub fn tear_down(&mut self, teardown: &Teardown)
        ensures
            final(self)@ == torn_down(old(self)@, teardown@),
    {
        match teardown {
            Teardown::Service { kind, id } => {
                let current = match self.marks.get(kind.as_str()) {
                    Some(mark) => *mark == *id,
                    None => false,
                };
                if current {
                    proof {
                        lemma_mapped_without(self.names@, seen_text(), kind@);
                    }
                    let _ = self.services.remove(kind.as_str());
                    let _ = self.names.remove(kind.as_str());
                    let _ = self.marks.remove(kind.as_str());
                }
            },
            Teardown::Subscription { event, id } => {
                self.unsubscribe(event.as_str(), *id);
            },
            Teardown::Tool { .. } => {},
        }
    }

    /// Undoes a registration.
    pub fn dispose(&mut self, disposer: &mut Disposer)
        ensures
            final(self)@ == (match old(disposer)@ {
                Some(t) => torn_down(old(self)@, t),
                None => old(self)@,
            }),
            final(disposer)@ is None,
    {
        match disposer.dispose() {
            Some(t) => self.tear_down(&t),
            None => {},
        }
    }
}

// ---------- what the context promises ----------

/// A provided service is resolved, and replaces an earlier one of its type; the others stay.
pub proof fn lemma_provided_is_resolved<S, H>(
    c: ContextView<S, H>,
    kind: Seq<char>,
    name: Seq<char>,
    service: S,
    other: Seq<char>,
)
    ensures
        at(with_service(c, kind, name, service).services, kind) == Some(service),
        other != kind ==> at(with_service(c, kind, name, service).services, other) == at(
            c.services,
            other,
        ),
{
    lemma_put_at(c.services, kind, service);
    if other != kind {
        lemma_put_keeps(c.services, kind, service, other);
    }
}

/// A registration is reversible: after the teardown neither the service nor its name is there, and
/// the services of other types, their names, and the subscriptions are as they were before.
pub proof fn lemma_provide_is_reversible<S, H>(
    c: ContextView<S, H>,
    kind: Seq<char>,
    name: Seq<char>,
    service: S,
    other: Seq<char>,
)
    ensures
        ({
            let after = torn_down(
                with_service(c, kind, name, service),
                TeardownView::Service { kind, id: c.next_service },
            );
            &&& at(after.services, kind) is None
            &&& at(after.names, kind) is None
            &&& other != kind ==> at(after.services, other) == at(c.services, other)
            &&& other != kind ==> at(after.names, other) == at(c.names, other)
            &&& other != kind ==> at(after.marks, other) == at(c.marks, other)
            &&& after.handlers == c.handlers
        }),
{
    let mid = with_service(c, kind, name, service);
    lemma_put_at(c.marks, kind, c.next_service);
    lemma_without_at(mid.services, kind, other);
    lemma_without_at(mid.names, kind, other);
    lemma_without_at(mid.marks, kind, other);
    if other != kind {
        lemma_put_keeps(c.services, kind, service, other);
        lemma_put_keeps(c.names, kind, name, other);
        lemma_put_keeps(c.marks, kind, c.next_service, other);
    }
}

/// A teardown unwinds exactly what was mounted: once a registration is replaced, its teardown
/// changes nothing, and the replacement stays.
pub proof fn lemma_replaced_registration_unwinds_nothing<S, H>(
    c: ContextView<S, H>,
    kind: Seq<char>,
    first_name: Seq<char>,
    first: S,
    second_name: Seq<char>,
    second: S,
)
    ensures
        ({
            let both = with_service(
                with_service(c, kind, first_name, first),
                kind,
                second_name,
                second,
            );
            &&& torn_down(both, TeardownView::Service { kind, id: c.next_service }) == both
            &&& at(both.services, kind) == Some(second)
        }),
{
    let one = with_service(c, kind, first_name, first);
    lemma_put_at(one.marks, kind, one.next_service);
    lemma_put_at(one.services, kind, second);
}

/// Whether there is one service of a type, and names and numbers are kept for the services that are
/// there, and for no others.
pub open spec fn aligned<S, H>(c: ContextView<S, H>) -> bool {
    &&& distinct(c.services)
    &&& keys(c.names) == keys(c.services)
    &&& keys(c.marks) == keys(c.services)
}

/// The names of a context are those of its services: this holds of a new context, and it stays so
/// whatever is registered, changed in place, subscribed or torn down.
pub proof fn lemma_names_follow_services<S, H>(
    c: ContextView<S, H>,
    kind: Seq<char>,
    name: Seq<char>,
    service: S,
    event: Seq<char>,
    handler: H,
    t: TeardownView,
)
    requires
        aligned(c),
    ensures
        has(c.names, kind) == has(c.services, kind),
        aligned(with_service(c, kind, name, service)),
        has(c.services, kind) ==> aligned(
            (ContextView { services: put(c.services, kind, service), ..c }),
        ),
        aligned(with_handler(c, event, handler)),
        aligned(torn_down(c, t)),
{
    lemma_put_distinct(c.services, kind, service);
    lemma_keys_alike(c.names, c.services, kind, name, service);
    lemma_keys_alike(c.marks, c.services, kind, c.next_service, service);
    if has(c.services, kind) {
        crate::text::lemma_span(keys(c.services), kind);
        assert(keys(c.services)[crate::table::row(c.services, kind)] == kind);
        assert(keys(put(c.services, kind, service)) =~= keys(c.services));
    }
    match t {
        TeardownView::Service { kind: k, .. } => {
            lemma_without_distinct(c.services, k);
            lemma_keys_alike(c.names, c.services, k, name, service);
            lemma_keys_alike(c.marks, c.services, k, c.next_service, service);
        },
        _ => {},
    }
}

proof fn lemma_unsubscribed_absent<H>(s: Seq<SubscriptionView<H>>, event: Seq<char>, id: u64)
    requires
        forall|i: int| 0 <= i < s.len() ==> (#[trigger] s[i]).id != id,
    ensures
        unsubscribed(s, event, id) == s,
    decreases s.len(),
{
    if s.len() > 0 {
        let front = s.drop_last();
        assert forall|i: int| 0 <= i < front.len() implies (#[trigger] front[i]).id != id by {
            assert(s[i].id != id);
        }
        lemma_unsubscribed_absent(front, event, id);
        assert(s[s.len() - 1].id != id);
        assert(front.push(s.last()) =~= s);
    }
}

/// A subscription is reversible: it is told of events of its type, after those that were there
/// before, and once it is undone the subscriptions are as they were. This holds while the
/// running number has not come round to one that is still in use.
pub proof fn lemma_subscription_is_reversible<S, H>(
    c: ContextView<S, H>,
    event: Seq<char>,
    handler: H,
)
    requires
        forall|i: int| 0 <= i < c.handlers.len() ==> (#[trigger] c.handlers[i]).id != c.next_handler,
    ensures
        subscribed(with_handler(c, event, handler).handlers, event) == subscribed(
            c.handlers,
            event,
        ).push(handler),
        torn_down(
            with_handler(c, event, handler),
            TeardownView::Subscription { event, id: c.next_handler },
        ).handlers == c.handlers,
{
    let mid = with_handler(c, event, handler);
    assert(mid.handlers.drop_last() =~= c.handlers);
    lemma_unsubscribed_absent(c.handlers, event, c.next_handler);
}

proof fn lemma_unsubscribed_push<H>(
    s: Seq<SubscriptionView<H>>,
    x: SubscriptionView<H>,
    event: Seq<char>,
    id: u64,
)
    requires
        x.id != id,
    ensures
        unsubscribed(s.push(x), event, id) == unsubscribed(s, event, id).push(x),
{
    assert(s.push(x).drop_last() =~= s);
}

/// Delivery is from a snapshot: while the handlers that were handed out are run, another may be
/// subscribed and one may be unsubscribed. The next event of the type then goes to those that were
/// there before, without the one, and to the new one after them.
pub proof fn lemma_delivery_is_from_a_snapshot<S, H>(
    c: ContextView<S, H>,
    event: Seq<char>,
    id: u64,
    handler: H,
)
    requires
        id != c.next_handler,
    ensures
        ({
            let later = torn_down(
                with_handler(c, event, handler),
                TeardownView::Subscription { event, id },
            );
            subscribed(later.handlers, event) == subscribed(
                unsubscribed(c.handlers, event, id),
                event,
            ).push(handler)
        }),
{
    let x = SubscriptionView { event, id: c.next_handler, handler };
    lemma_unsubscribed_push(c.handlers, x, event, id);
    assert(unsubscribed(c.handlers, event, id).push(x).drop_last() =~= unsubscribed(
        c.handlers,
        event,
        id,
    ));
}

/// A subscription is not told of events of other types.
pub proof fn lemma_subscription_is_typed<S, H>(
    c: ContextView<S, H>,
    event: Seq<char>,
    handler: H,
    other: Seq<char>,
)
    requires
        other != event,
    ensures
        subscribed(with_handler(c, event, handler).handlers, other) == subscribed(
            c.handlers,
            other,
        ),
{
    assert(with_handler(c, event, handler).handlers.drop_last() =~= c.handlers);
}

} // verus!

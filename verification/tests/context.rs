//! The composition context: services, subscriptions, and their teardown.
use rh::host::context::Context;
use rh::host::service::{provided, Disposer, Teardown};

struct Ping(String);

#[test]
fn service_roundtrip_and_replace() {
    let mut ctx: Context<Ping, ()> = Context::new();
    let mut d1 = ctx.provide("Ping", Ping("one".into()));
    assert_eq!(ctx.service("Ping").unwrap().0, "one");

    // Later registration replaces the earlier one.
    let mut d2 = ctx.provide("Ping", Ping("two".into()));
    assert_eq!(ctx.service("Ping").unwrap().0, "two");

    // Disposing the registration removes the service.
    ctx.dispose(&mut d2);
    assert!(ctx.service("Ping").is_none());

    ctx.dispose(&mut d1);
}

trait Greeter: Send + Sync {
    fn greet(&self) -> String;
}

struct Hi;

impl Greeter for Hi {
    fn greet(&self) -> String {
        "hi".into()
    }
}

#[test]
fn trait_object_service_roundtrip() {
    let mut ctx: Context<Box<dyn Greeter>, ()> = Context::new();
    let greeter: Box<dyn Greeter> = Box::new(Hi);
    let _registration = ctx.provide("dyn Greeter", greeter);
    assert_eq!(ctx.service("dyn Greeter").unwrap().greet(), "hi");
}

#[derive(Debug, PartialEq)]
struct Evt {
    n: u32,
}

type Handler = Box<dyn Fn(&Evt)>;

#[test]
fn event_pub_sub_is_reversible() {
    let mut ctx: Context<(), Handler> = Context::new();
    let seen = std::rc::Rc::new(std::cell::RefCell::new(Vec::new()));
    let seen2 = std::rc::Rc::clone(&seen);
    let handler: Handler = Box::new(move |event: &Evt| {
        seen2.borrow_mut().push(event.n);
    });
    let mut sub = ctx.on("Evt", handler);

    for handler in ctx.emit("Evt") {
        handler(&Evt { n: 1 });
    }
    for handler in ctx.emit("Evt") {
        handler(&Evt { n: 2 });
    }
    ctx.dispose(&mut sub);
    for handler in ctx.emit("Evt") {
        handler(&Evt { n: 3 });
    }

    assert_eq!(*seen.borrow(), vec![1, 2]);
}

fn told(ctx: &Context<(), u32>, event: &str) -> Vec<u32> {
    ctx.emit(event).iter().map(|handler| **handler).collect()
}

#[test]
fn handlers_change_subscriptions_during_delivery() {
    let mut ctx: Context<(), u32> = Context::new();
    let _h1 = ctx.on("E", 1);
    let mut h2 = ctx.on("E", 2);
    let mut ran = Vec::new();
    for handler in ctx.emit("E") {
        ran.push(*handler);
        if *handler == 1 {
            let _h3 = ctx.on("E", 3);
            ctx.dispose(&mut h2);
        }
    }
    assert_eq!(ran, vec![1, 2]);
    assert_eq!(told(&ctx, "E"), vec![1, 3]);
}

#[test]
fn a_replaced_registration_unwinds_nothing() {
    let mut ctx: Context<Ping, ()> = Context::new();
    let mut d1 = ctx.provide("Ping", Ping("one".into()));
    let mut d2 = ctx.provide_named("Ping", "ping", Ping("two".into()));
    ctx.dispose(&mut d1);
    assert_eq!(ctx.service("Ping").unwrap().0, "two");
    assert_eq!(ctx.service_names(), vec!["ping"]);
    ctx.dispose(&mut d2);
    assert!(ctx.service("Ping").is_none());
    assert!(ctx.service_names().is_empty());
}

#[test]
fn handlers_run_in_registration_order_and_by_type() {
    let mut ctx: Context<(), u32> = Context::new();
    let mut first = ctx.on("A", 10);
    let _second = ctx.on("B", 20);
    let _third = ctx.on("A", 30);
    assert_eq!(told(&ctx, "A"), vec![10, 30]);
    assert_eq!(told(&ctx, "B"), vec![20]);
    assert!(told(&ctx, "C").is_empty());
    ctx.dispose(&mut first);
    assert_eq!(told(&ctx, "A"), vec![30]);
    assert_eq!(told(&ctx, "B"), vec![20]);
}

#[test]
fn a_missing_service_is_named() {
    let mut ctx: Context<u32, ()> = Context::new();
    assert_eq!(
        ctx.service_or("ToolRegistry", "tool registry"),
        Err("no service registered for tool registry".to_string())
    );
    let _kept = ctx.provide_named("ToolRegistry", "tools", 7);
    assert_eq!(ctx.service_or("ToolRegistry", "tool registry"), Ok(&7));
    *ctx.service_mut("ToolRegistry").unwrap() = 8;
    assert_eq!(ctx.service("ToolRegistry"), Some(&8));
    assert!(ctx.service_mut("Shell").is_none());
}

#[test]
fn names_go_with_their_services() {
    let mut ctx: Context<u32, ()> = Context::new();
    let mut a = ctx.provide_named("A", "first", 1);
    let _b = ctx.provide("B", 2);
    assert_eq!(ctx.service_names(), vec!["first", "B"]);
    ctx.dispose(&mut a);
    assert_eq!(ctx.service_names(), vec!["B"]);
    assert!(ctx.service("A").is_none());
}

#[test]
fn a_disposer_runs_once() {
    let mut d = Disposer::new(Teardown::Service { kind: "A".to_string(), id: 7 });
    assert!(!d.is_disposed());
    assert!(matches!(d.dispose(), Some(Teardown::Service { kind, id: 7 }) if kind == "A"));
    assert!(d.is_disposed());
    assert!(d.dispose().is_none());
    assert!(Disposer::noop().is_disposed());

    let mut ctx: Context<u32, ()> = Context::new();
    let mut first = ctx.provide("A", 1);
    ctx.dispose(&mut first);
    let _again = ctx.provide("A", 2);
    ctx.dispose(&mut first);
    assert_eq!(ctx.service("A"), Some(&2));
}

#[test]
fn a_value_travels_with_its_disposer() {
    let (value, disposer) = provided(5, Disposer::noop());
    assert_eq!(value, 5);
    assert!(disposer.is_disposed());
}

#[test]
fn a_default_context_is_empty() {
    let mut ctx: Context<Ping, ()> = Context::default();
    assert!(ctx.service("Ping").is_none());
    let mut d = ctx.provide("Ping", Ping("one".into()));
    assert_eq!(ctx.service("Ping").unwrap().0, "one");
    ctx.dispose(&mut d);
    assert!(ctx.service("Ping").is_none());
}

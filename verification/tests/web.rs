//! The web front end: the catalog, the servers, the routes and the socket.
use rh::harness::{
    assemble, sessions, sessions_mut, skills, subagents, subagents_mut, tools, tools_mut, unload,
    Capability, ToolsPlugin,
};
use rh::host::context::{Context, Plugin};
use rh::json::{parse, Json};
use rh::mcp::client::offered_tools;
use rh::mcp::config::McpServerConfig;
use rh::providers::hub::{ModelHub, ProviderConfig};
use rh::session::event::{ContentBlock, SessionEvent};
use rh::session::ids::Ids;
use rh::session::store::SessionStore;
use rh::tool::registry::ToolRegistry;
use rh::tools::any::AnyTool;
use rh::web::api;
use rh::web::catalog::{build_provider, EnvModel, ModelCatalog, ModelConfig, ModelRoute};
use rh::web::servers::McpHub;
use rh::web::socket::{auto_title, error_frame, event_frame, plan_turn, Socket};

fn no_env() -> EnvModel {
    EnvModel { api_key: None, base_url: None, model: None }
}

#[test]
fn a_catalog_has_a_mock_model() {
    let (catalog, save) = ModelCatalog::load("m.json", None, no_env());
    assert_eq!(catalog.list().len(), 1);
    assert_eq!(catalog.list()[0].id, "mock");
    assert_eq!(catalog.active_id(), Some("mock".to_string()));
    assert_eq!(save.path, "m.json");
    let env = EnvModel {
        api_key: Some("k".into()),
        base_url: None,
        model: Some("x".into()),
    };
    let (catalog, _) = ModelCatalog::load("m.json", None, env);
    assert_eq!(catalog.list().len(), 2);
    let active = catalog.active().unwrap();
    assert!(build_provider(&active).is_ok());
}

#[test]
fn a_catalog_reads_back_what_it_wrote() {
    let (mut catalog, _) = ModelCatalog::load("m.json", None, no_env());
    let config = ModelConfig {
        id: "".into(),
        label: "L".into(),
        provider: "openai".into(),
        base_url: Some("http://x".into()),
        api_key: Some("k".into()),
        model: Some("m".into()),
    };
    let (put, _) = catalog.upsert(config);
    assert!(!put.id.is_empty());
    let save = catalog.set_active(&put.id).unwrap();
    let (back, _) = ModelCatalog::load("m.json", Some(&save.text), no_env());
    assert_eq!(back.active().unwrap().label, "L");
    assert_eq!(back.save().text, save.text);
    assert!(catalog.set_active("nope").is_err());
    assert!(catalog.remove("mock").is_err());
    catalog.remove(&put.id).unwrap();
    assert_eq!(catalog.list().len(), 1);
}

#[test]
fn a_route_needs_its_parts() {
    let mut config = ModelConfig::mock();
    assert!(matches!(build_provider(&config), Ok(ModelRoute::Mock { model }) if model == "mock"));
    config.provider = "openai".into();
    assert_eq!(build_provider(&config).unwrap_err(), "base_url 必填");
    config.base_url = Some("u".into());
    assert_eq!(build_provider(&config).unwrap_err(), "api_key 必填");
    config.api_key = Some("k".into());
    config.model = None;
    assert_eq!(build_provider(&config).unwrap_err(), "model 必填");
    config.model = Some("m".into());
    assert!(matches!(build_provider(&config), Ok(ModelRoute::OpenAi { model, .. }) if model == "m"));
    config.provider = "x".into();
    assert_eq!(build_provider(&config).unwrap_err(), "未知的 provider：x");
}

fn server(name: &str) -> McpServerConfig {
    McpServerConfig {
        name: name.into(),
        transport: "".into(),
        command: "c".into(),
        args: vec![],
        url: "".into(),
    }
}

#[test]
fn servers_are_kept_and_connected() {
    let mut hub = McpHub::load("s.json", Some("nonsense"));
    assert!(hub.list().is_empty());
    hub.add(server("a"));
    hub.add(server("b"));
    let save = hub.add(McpServerConfig { command: "d".into(), ..server("a") });
    assert_eq!(save.path, "s.json");
    let back = McpHub::load("s.json", Some(&save.text));
    assert_eq!(back.list().len(), 2);
    assert_eq!(back.list()[0].command, "d");

    let offered = parse("{\"tools\":[{\"name\":\"t\"},{\"name\":\"u\"}]}").unwrap();
    let mut registry: ToolRegistry<AnyTool> = ToolRegistry::new();
    assert!(!hub.is_connected("a"));
    hub.attach(&mut registry, "a", offered_tools(&offered));
    assert!(hub.is_connected("a"));
    assert_eq!(registry.len(), 2);
    hub.disconnect(&mut registry, "b");
    assert_eq!(registry.len(), 2);
    hub.disconnect(&mut registry, "a");
    assert_eq!(registry.len(), 0);
    assert!(!hub.is_connected("a"));
    hub.remove("a");
    assert_eq!(hub.list().len(), 1);

    let mut ctx: Context<Capability, ()> = Context::new();
    assert_eq!(hub.renew(&mut ctx, "a").unwrap_err(), "no tool registry registered");
    let _kept = ctx.provide("ToolRegistry", Capability::Tools(ToolRegistry::new()));
    hub.attach(tools_mut(&mut ctx).unwrap(), "b", offered_tools(&offered));
    assert_eq!(tools(&ctx).unwrap().len(), 2);
    hub.renew(&mut ctx, "b").unwrap();
    assert_eq!(tools(&ctx).unwrap().len(), 0);
}

#[test]
fn the_harness_is_assembled_and_unloaded() {
    let mut a = assemble::<()>("/h").unwrap();
    assert_eq!(a.plugins, vec!["session", "shell:local", "fs:local", "tools"]);
    assert_eq!(
        a.ctx.service_names(),
        vec!["SessionStore", "Shell(local)", "FileSystem(local)", "ToolRegistry", "SubagentManager", "SkillStore"]
    );
    assert_eq!(tools(&a.ctx).unwrap().len(), 15);
    assert!(sessions(&a.ctx).is_some());
    assert_eq!(skills(&a.ctx).unwrap().list().len(), 4);
    let mut ids = Ids::new();
    sessions_mut(&mut a.ctx).unwrap().create_fresh(&mut ids, 1);
    assert_eq!(sessions(&a.ctx).unwrap().list().len(), 1);
    let task = subagents_mut(&mut a.ctx).unwrap().spawn();
    assert!(subagents(&a.ctx).unwrap().output(&task).is_some());
    let mut tools_kept = a.disposers.pop().unwrap();
    unload(&mut a.ctx, &mut tools_kept);
    assert!(tools(&a.ctx).is_none());
    assert!(skills(&a.ctx).is_none());
    assert!(tools_mut(&mut a.ctx).is_none());
    assert!(sessions(&a.ctx).is_some());
    assert_eq!(
        a.ctx.service_names(),
        vec!["SessionStore", "Shell(local)", "FileSystem(local)"]
    );
}

#[test]
fn unloading_replaced_tools_leaves_the_later_ones() {
    let mut a = assemble::<()>("/h").unwrap();
    let mut again = ToolsPlugin.mount(&mut a.ctx).unwrap();
    let mut first = a.disposers.pop().unwrap();
    unload(&mut a.ctx, &mut first);
    assert_eq!(tools(&a.ctx).unwrap().len(), 15);
    assert!(skills(&a.ctx).is_some());
    unload(&mut a.ctx, &mut again);
    assert!(tools(&a.ctx).is_none());
}

#[test]
fn disconnecting_leaves_a_replaced_tool() {
    let mut hub = McpHub::load("s.json", None);
    let offered = parse("{\"tools\":[{\"name\":\"t\"},{\"name\":\"u\"}]}").unwrap();
    let other = parse("{\"tools\":[{\"name\":\"u\"}]}").unwrap();
    let mut registry: ToolRegistry<AnyTool> = ToolRegistry::new();
    hub.attach(&mut registry, "a", offered_tools(&offered));
    hub.attach(&mut registry, "b", offered_tools(&other));
    hub.disconnect(&mut registry, "a");
    assert!(registry.get("t").is_none());
    assert!(registry.get("u").is_some());
    hub.disconnect(&mut registry, "b");
    assert!(registry.is_empty());
}

#[test]
fn what_the_harness_answers_of_itself() {
    let a = assemble::<()>("/h").unwrap();
    let registry = tools(&a.ctx).unwrap();
    let listed = api::tools(registry, "/w");
    let list = listed.array_at("tools").unwrap();
    assert_eq!(list.len(), 15);
    assert_eq!(list[0].str_at("name"), Some("bash"));
    assert!(list[0].get("parameters").is_some());
    let plugins: Vec<String> = a.plugins.iter().map(|s| s.to_string()).collect();
    let config = api::config(&plugins, &a.ctx.service_names(), registry, "/w");
    assert_eq!(config.array_at("plugins").unwrap().len(), 4);
    assert_eq!(config.array_at("services").unwrap().len(), 6);
    assert_eq!(config.array_at("tools").unwrap()[1].as_str(), Some("fs_read"));
    assert_eq!(skills(&a.ctx).unwrap().to_json().array_at("skills").unwrap().len(), 4);
}

#[test]
fn providers_over_the_web() {
    let (mut hub, _) = ModelHub::load("m.json", None, None, None);
    assert_eq!(
        api::hub_state(&hub).to_text(),
        "{\"active\":{\"model\":null,\"provider\":null},\"models\":{},\"providers\":[]}"
    );
    let config = ProviderConfig {
        id: "a".into(),
        name: "A".into(),
        base_url: "u".into(),
        api_key: "k".into(),
    };
    let added = api::add_provider(&mut hub, config);
    assert_eq!(added.refusal, 400);
    assert_eq!(added.output.array_at("providers").unwrap().len(), 1);
    let found = api::discover_models(&mut hub, "a", &parse("{\"data\":[{\"id\":\"m\"}]}").unwrap());
    assert_eq!(found.output.get("models").unwrap().array_at("a").unwrap().len(), 1);
    assert!(found.save.is_some());

    let refused = |hub: &mut ModelHub, body: &str| api::set_active(hub, &parse(body).unwrap()).unwrap_err();
    let f = refused(&mut hub, "{}");
    assert_eq!((f.status, f.text.as_str()), (400, "缺少 provider"));
    let f = refused(&mut hub, "{\"provider\":\"a\"}");
    assert_eq!((f.status, f.text.as_str()), (400, "缺少 model"));
    let f = refused(&mut hub, "{\"provider\":\"z\",\"model\":\"m\"}");
    assert_eq!((f.status, f.text.as_str()), (400, "provider z not found"));
    let f = refused(&mut hub, "{\"provider\":\"a\",\"model\":\"z\"}");
    assert_eq!((f.status, f.text.as_str()), (400, "model z not found under provider a"));
    assert!(plan_turn(&hub, "ws").unwrap_err().starts_with("没有可用的模型"));
    let chosen = api::set_active(&mut hub, &parse("{\"provider\":\"a\",\"model\":\"m\"}").unwrap()).unwrap();
    assert_eq!(chosen.output.get("active").unwrap().str_at("model"), Some("m"));

    let plan = plan_turn(&hub, "ws").unwrap();
    assert_eq!(plan.definition.name, "rh-web");
    assert_eq!(plan.definition.model, "m");
    assert_eq!(
        plan.definition.system_prompt,
        "You are a Rust harness agent. Use tools when useful.\n\nws"
    );
    assert!(matches!(&plan.model, ModelRoute::OpenAi { provider, .. } if provider.base_url() == "u"));

    let gone = api::remove_provider(&mut hub, "a");
    assert_eq!(gone.refusal, 404);
    assert!(gone.output.array_at("providers").unwrap().is_empty());

    let mut mcp = McpHub::load("s.json", None);
    assert_eq!(api::add_mcp(&mut mcp, server("a")).refusal, 400);
    assert_eq!(api::list_mcp(&mcp).array_at("servers").unwrap().len(), 1);
    assert_eq!(api::remove_mcp(&mut mcp, "a").refusal, 404);
    assert_eq!(api::list_mcp(&mcp).to_text(), "{\"servers\":[]}");
}

fn one_session(ids: &mut Ids) -> SessionStore {
    let mut store = SessionStore::persistent("/d", &vec![], true, "/h");
    let (out, save) = api::create_session(&mut store, ids, &Json::object(), 7);
    assert_eq!(out.str_at("created"), Some("sess-0"));
    assert_eq!(save.unwrap().path, "/d/sess-0.json");
    store
}

#[test]
fn sessions_over_the_web() {
    let mut ids = Ids::new();
    let mut store = one_session(&mut ids);
    api::create_session(&mut store, &mut ids, &parse("{\"title\":\"T\"}").unwrap(), 5);
    let list = api::list_sessions(&store);
    let list = list.array_at("sessions").unwrap();
    assert_eq!(list[0].str_at("title"), Some("T"));
    assert_eq!(list[1].str_at("title"), Some("新会话"));
    let s = api::get_session(&store, "sess-0").unwrap();
    assert_eq!(s.str_at("id"), Some("sess-0"));
    let f = api::get_session(&store, "x").unwrap_err();
    assert_eq!((f.status, f.text.as_str()), (404, "session not found"));

    let f = api::rename_session(&mut store, "sess-0", &Json::object()).unwrap_err();
    assert_eq!((f.status, f.text.as_str()), (400, "缺少 title"));
    let title = parse("{\"title\":\"N\"}").unwrap();
    let f = api::rename_session(&mut store, "x", &title).unwrap_err();
    assert_eq!((f.status, f.text.as_str()), (404, "session x not found"));
    let r = api::rename_session(&mut store, "sess-0", &title).unwrap();
    assert_eq!(r.refusal, 404);
    assert!(r.save.unwrap().text.contains("\"N\""));

    let d = api::export_session(&store, "sess-0", None).unwrap();
    assert_eq!(d.content_type, "text/markdown; charset=utf-8");
    assert_eq!(d.disposition, "attachment; filename=\"sess-0.md\"");
    assert_eq!(d.content, "# N\n\n");
    let d = api::export_session(&store, "sess-0", Some("json")).unwrap();
    assert_eq!(d.content_type, "application/json");
    assert_eq!(d.disposition, "attachment; filename=\"sess-0.json\"");
    assert_eq!(d.content, store.get("sess-0").unwrap().to_json());
    assert_eq!(api::export_session(&store, "x", None).unwrap_err().status, 404);

    let (out, path) = api::delete_session(&mut store, "sess-0");
    assert_eq!(out.array_at("sessions").unwrap().len(), 1);
    assert_eq!(path, Some("/d/sess-0.json".to_string()));
    let (_, path) = api::delete_session(&mut store, "sess-0");
    assert_eq!(path, None);
}

#[test]
fn what_belongs_to_a_session_over_the_web() {
    let mut ids = Ids::new();
    let mut store = one_session(&mut ids);
    let f = api::add_task(&mut store, &mut ids, "sess-0", &Json::object()).unwrap_err();
    assert_eq!((f.status, f.text.as_str()), (400, "缺少 title"));
    let title = parse("{\"title\":\"T\"}").unwrap();
    assert_eq!(api::add_task(&mut store, &mut ids, "x", &title).unwrap_err().status, 404);
    let added = api::add_task(&mut store, &mut ids, "sess-0", &title).unwrap();
    assert_eq!(added.refusal, 500);
    let id = added.output.str_at("added").unwrap().to_string();
    let done = parse("{\"done\":true}").unwrap();
    let r = api::set_task_done(&mut store, "sess-0", &id, &done).unwrap();
    assert_eq!(r.output.array_at("tasks").unwrap()[0].bool_at("done"), Some(true));
    let r = api::set_task_done(&mut store, "sess-0", &id, &Json::object()).unwrap();
    assert_eq!(r.output.array_at("tasks").unwrap()[0].bool_at("done"), Some(false));
    assert_eq!(api::set_task_done(&mut store, "x", &id, &done).unwrap_err().status, 404);
    assert_eq!(api::list_tasks(&store, "sess-0").array_at("tasks").unwrap().len(), 1);
    assert_eq!(api::list_tasks(&store, "x").to_text(), "{\"tasks\":[]}");

    assert_eq!(
        api::get_mode(&store, "sess-0").unwrap().to_text(),
        "{\"mode\":\"direct\",\"phase\":\"\"}"
    );
    assert_eq!(api::get_mode(&store, "x").unwrap_err().status, 404);
    let f = api::set_mode(&mut store, "sess-0", &Json::object()).unwrap_err();
    assert_eq!((f.status, f.text.as_str()), (400, "缺少 mode"));
    let mode = parse("{\"mode\":\"plan\"}").unwrap();
    assert_eq!(api::set_mode(&mut store, "x", &mode).unwrap_err().status, 404);
    let r = api::set_mode(&mut store, "sess-0", &mode).unwrap();
    assert_eq!(r.output.str_at("mode"), Some("plan"));

    assert_eq!(api::get_workspace(&store, "sess-0").unwrap(), "/h/.rh/workspaces/sess-0");
    assert_eq!(api::get_workspace(&store, "x").unwrap_err().status, 404);
    let f = api::set_workspace(&mut store, "sess-0", &Json::object()).unwrap_err();
    assert_eq!((f.status, f.text.as_str()), (400, "缺少 root"));
    let root = parse("{\"root\":\"/r\"}").unwrap();
    assert_eq!(api::set_workspace(&mut store, "x", &root).unwrap_err().status, 404);
    let (path, save) = api::set_workspace(&mut store, "sess-0", &root).unwrap();
    assert_eq!(path, "/r");
    assert!(save.unwrap().text.contains("\"/r\""));
    let answer = api::workspace_answer("/r", None, false);
    assert_eq!(answer.str_at("root"), Some("/r"));
    assert!(answer.str_at("context").unwrap().starts_with("工作区目录：/r\n"));
}

#[test]
fn a_conversation_over_a_socket() {
    let mut ids = Ids::new();
    assert_eq!(
        Socket::attach(None, &mut ids, None, 1).unwrap_err(),
        "{\"error\":\"未注册会话存储\",\"type\":\"error\"}"
    );
    let mut store = one_session(&mut ids);
    let a = Socket::attach(Some(&mut store), &mut ids, Some("sess-0"), 1).unwrap();
    assert_eq!(a.hello, "{\"session_id\":\"sess-0\",\"type\":\"hello\"}");
    assert!(a.save.is_none());
    let fresh = Socket::attach(Some(&mut store), &mut ids, Some("gone"), 1).unwrap();
    assert_eq!(fresh.socket.session_id(), "sess-1");
    assert!(fresh.save.is_some());

    let mut socket = a.socket;
    assert_eq!(socket.heard("not json"), None);
    assert_eq!(socket.heard("{\"type\":\"other\",\"text\":\"x\"}"), None);
    assert_eq!(socket.heard("{\"type\":\"input\",\"text\":\"  \"}"), None);
    assert_eq!(socket.heard("{\"type\":\"input\"}"), None);
    assert!(!socket.running());
    assert_eq!(socket.heard("{\"type\":\"input\",\"text\":\" go \"}"), Some("go".to_string()));
    assert!(socket.running());
    assert_eq!(socket.heard("{\"type\":\"input\",\"text\":\"again\"}"), None);
    assert_eq!(socket.done(Err("bad".to_string())), Some(error_frame("bad")));
    assert_eq!(socket.heard("{\"type\":\"input\",\"text\":\"again\"}"), Some("again".to_string()));
    assert_eq!(socket.done(Ok(())), None);

    let session = store.get_mut("sess-0").unwrap();
    let long = "一二三四五六七八九十一二三四五六七八九十一二三四五六七八九十more";
    auto_title(session, long);
    assert_eq!(session.title().chars().count(), 30);
    auto_title(session, "another");
    assert!(session.title().starts_with("一二三"));

    let event = SessionEvent::UserMessage {
        message_id: "m".into(),
        content: vec![ContentBlock::Text { text: "x".into() }],
    };
    let frame = parse(&event_frame(&event)).unwrap();
    assert_eq!(frame.str_at("message_id"), Some("m"));
}

#[test]
fn servers_may_be_given_as_lists() {
    let hub = McpHub::load("s.json", Some("[[\"a\",\"stdio\",\"c\",[\"x\"]],{\"name\":\"b\"}]"));
    assert_eq!(hub.list().len(), 2);
    assert_eq!(hub.list()[0].args, vec!["x"]);
    assert_eq!(hub.list()[0].url, "");
    assert!(McpHub::load("s.json", Some("[[]]")).list().is_empty());
}

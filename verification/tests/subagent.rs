//! Tasks that run as agents of their own.
use rh::agent::model::{FinishReason, ModelEvent, ModelRequest, ModelRole};
use rh::agent::turn::{Action, AgentDefinition, RunReport};
use rh::json::{parse, Json};
use rh::session::event::{ContentBlock, SessionEvent};
use rh::session::ids::Ids;
use rh::session::store::SessionStore;
use rh::tool::registry::ToolRegistry;
use rh::tools::any::AnyTool;
use rh::tools::subagent::{
    report_text, subagent_definition, wait_foreground, SubagentManager, TaskKillTool,
    TaskOutputTool, TaskTool, TaskWaitTool,
};
use rh::agent::turn::Turn;

fn echo(request: &ModelRequest) -> Vec<ModelEvent> {
    let user = request
        .messages
        .iter()
        .rev()
        .find(|m| m.role == ModelRole::User)
        .and_then(|m| m.content.clone())
        .unwrap_or_default();
    vec![ModelEvent::Text(format!("echo: {user}")), ModelEvent::Done(FinishReason::Stop)]
}

fn run(
    store: &mut SessionStore,
    ids: &mut Ids,
    definition: &AgentDefinition,
    tools: &ToolRegistry<AnyTool>,
    session_id: &str,
    prompt: &str,
) -> RunReport {
    let session = store.get_mut(session_id).unwrap();
    let mut turn = Turn::begin(session, ids, prompt);
    loop {
        match turn.advance(session, ids, definition, tools) {
            Action::Ask(request) => {
                for event in echo(&request) {
                    turn.hear(session, event);
                }
                turn.end_of_stream(session);
            }
            Action::Finish(report) => return report,
            _ => panic!("unexpected"),
        }
    }
}

#[test]
fn task_tool_spawns_and_collects_subagent() {
    let mut store = SessionStore::new(false, "/h");
    let mut manager = SubagentManager::new();
    let tools: ToolRegistry<AnyTool> = ToolRegistry::new();
    let mut ids = Ids::new();

    let args = Json::object()
        .with("prompt", Json::text("just say hello"))
        .with("description", Json::text("hi"));
    let order = TaskTool
        .start(Some(&mut manager), Some(&mut store), &mut ids, &args, 1)
        .unwrap();
    assert!(!order.background);
    assert!(wait_foreground(&manager, &order.task_id, false).is_none());
    let report = run(
        &mut store,
        &mut ids,
        &subagent_definition(),
        &tools,
        &order.session_id,
        &order.prompt,
    );
    manager.settle(&order.task_id, Ok(report_text(&report.events)));
    let end = wait_foreground(&manager, &order.task_id, false).unwrap();
    let result = TaskTool.finish(&order.task_id, &end).unwrap();

    assert_eq!(result.str_at("status"), Some("completed"));
    assert!(result.str_at("output").unwrap().contains("hello"));
}

#[test]
fn a_task_needs_a_prompt_and_services() {
    let mut store = SessionStore::new(false, "/h");
    let mut manager = SubagentManager::new();
    let mut ids = Ids::new();
    let err = TaskTool
        .start(Some(&mut manager), Some(&mut store), &mut ids, &Json::object(), 1)
        .unwrap_err();
    assert!(err.message.contains("prompt"));
    let args = Json::object().with("prompt", Json::text("x"));
    let err = TaskTool.start(None, Some(&mut store), &mut ids, &args, 1).unwrap_err();
    assert!(err.text().contains("SubagentManager"));
    let err = TaskTool.start(Some(&mut manager), None, &mut ids, &args, 1).unwrap_err();
    assert!(err.text().contains("SessionStore"));
}

#[test]
fn a_task_in_the_background_is_fetched_later() {
    let mut store = SessionStore::new(false, "/h");
    let mut manager = SubagentManager::new();
    let mut ids = Ids::new();
    let args = parse("{\"prompt\":\"x\",\"run_in_background\":true}").unwrap();
    let order = TaskTool
        .start(Some(&mut manager), Some(&mut store), &mut ids, &args, 1)
        .unwrap();
    assert!(order.background);
    let started = TaskTool.started(&order);
    assert_eq!(started.str_at("task_id"), Some(order.task_id.as_str()));

    let ask = Json::object().with("task_id", Json::text(&order.task_id));
    let running = TaskOutputTool.run(Some(&manager), &ask).unwrap();
    assert_eq!(running.str_at("status"), Some("running"));

    let wait = Json::object().with("task_ids", Json::array(vec![Json::text(&order.task_id)]));
    let plan = TaskWaitTool.plan(&wait, true).unwrap();
    assert_eq!(plan.task_ids, vec![order.task_id.clone()]);
    assert!(TaskWaitTool.poll(&manager, &plan.task_ids, false).is_none());
    assert!(TaskWaitTool.poll(&manager, &plan.task_ids, true).is_some());

    manager.settle(&order.task_id, Err("boom".to_string()));
    let ended = TaskOutputTool.run(Some(&manager), &ask).unwrap();
    assert_eq!(ended.str_at("status"), Some("failed"));
    assert!(TaskWaitTool.poll(&manager, &plan.task_ids, false).is_some());
    assert!(TaskTool
        .finish(&order.task_id, &Err("boom".to_string()))
        .is_err());
}

#[test]
fn a_killed_task_is_gone() {
    let mut manager = SubagentManager::new();
    let id = manager.spawn();
    let other = manager.spawn();
    assert_ne!(id, other);
    let ask = Json::object().with("task_id", Json::text(&id));
    let killed = TaskKillTool.run(Some(&mut manager), &ask).unwrap();
    assert_eq!(killed.bool_at("cancelled"), Some(true));
    let again = TaskKillTool.run(Some(&mut manager), &ask).unwrap();
    assert_eq!(again.bool_at("cancelled"), Some(false));
    assert!(manager.output(&id).is_none());
    manager.settle(&id, Ok("late".to_string()));
    assert!(manager.output(&id).is_none());
    assert!(manager.output(&other).is_some());
    assert_eq!(
        wait_foreground(&manager, &other, true),
        Some(Err("timeout".to_string()))
    );
    let err = TaskKillTool.run(Some(&mut manager), &Json::object()).unwrap_err();
    assert_eq!(err.message, "缺少 task_id");
    assert!(TaskKillTool.run(None, &ask).unwrap_err().text().contains("SubagentManager"));
}

#[test]
fn the_report_is_the_last_thing_said() {
    let said = |s: &str| SessionEvent::AssistantMessage {
        message_id: "m".into(),
        content: vec![ContentBlock::Text { text: s.into() }],
    };
    assert_eq!(report_text(&vec![said("first"), said("second")]), "second");
    assert!(!report_text(&vec![]).contains("second"));
    assert_eq!(subagent_definition().max_steps, 8);
}

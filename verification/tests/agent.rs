//! The agent loop: what a turn logs, and what it asks for.
use rh::agent::builder::AgentBuilder;
use rh::agent::model::{
    mock_answer, FinishReason, ModelEvent, ModelMessage, ModelRequest, ModelRole, ModelToolCall,
};
use rh::agent::turn::{Action, AgentDefinition, RunReport, Stage, Turn};
use rh::harness::Capability;
use rh::host::context::Context;
use rh::json::Json;
use rh::plugins::{echo_call, echo_tools, read_descriptors};
use rh::session::event::{ContentBlock, Message, Role, SessionEvent};
use rh::session::ids::Ids;
use rh::session::log::Session;
use rh::tool::registry::{Tool, ToolRegistry};
use rh::tool::stream::{drain, terminal_only};
use rh::tool::error::ToolError;
use rh::tools::any::AnyTool;
use rh::web::catalog::ModelRoute;

fn echo_registry() -> ToolRegistry<AnyTool> {
    let mut registry = ToolRegistry::new();
    for tool in read_descriptors(&echo_tools().to_text()).unwrap() {
        registry.register(AnyTool::Plugin(tool));
    }
    registry
}

fn scripted(request: &ModelRequest) -> Vec<ModelEvent> {
    let after_tool = matches!(request.messages.last().map(|m| m.role), Some(ModelRole::Tool));
    if after_tool {
        vec![ModelEvent::Text("done".to_string()), ModelEvent::Done(FinishReason::Stop)]
    } else {
        vec![
            ModelEvent::ToolCall(ModelToolCall {
                id: "c1".to_string(),
                name: "echo".to_string(),
                arguments: Json::object().with("text", Json::text("hi")),
            }),
            ModelEvent::Done(FinishReason::ToolCalls),
        ]
    }
}

fn drive(
    turn: &mut Turn,
    session: &mut Session,
    ids: &mut Ids,
    definition: &AgentDefinition,
    tools: &ToolRegistry<AnyTool>,
    model: fn(&ModelRequest) -> Vec<ModelEvent>,
) -> RunReport {
    loop {
        match turn.advance(session, ids, definition, tools) {
            Action::Ask(request) => {
                for event in model(&request) {
                    turn.hear(session, event);
                }
                turn.end_of_stream(session);
            }
            Action::Call(order) => {
                let result = match tools.call(&order.call.name) {
                    Ok(AnyTool::Plugin(tool)) => tool.finish(&Ok(echo_call(
                        &tool.id(),
                        &order.call.arguments.to_text(),
                    )
                    .to_text())),
                    Ok(_) => Err(ToolError::execution("no such tool here")),
                    Err(e) => Err(e),
                };
                let (output, is_error) = drain(terminal_only(result));
                turn.answer(session, output, is_error);
            }
            Action::Finish(report) => return report,
            Action::Wait => panic!("the turn waits"),
        }
    }
}

fn definition(max_steps: usize) -> AgentDefinition {
    AgentDefinition {
        name: "test".into(),
        model: "test-model".into(),
        system_prompt: "sys".into(),
        tool_ids: vec![],
        max_steps,
    }
}

#[test]
fn agent_runs_a_turn_with_a_tool_call() {
    let mut ctx: Context<Capability, ()> = Context::new();
    let _registry_registration = ctx.provide("ToolRegistry", Capability::Tools(echo_registry()));
    let _provider_registration = ctx.provide(
        "ModelProvider",
        Capability::Model(ModelRoute::Mock { model: "test-model".into() }),
    );
    let registry = echo_registry();
    let mut ids = Ids::new();
    let mut session = Session::new("s", false, "/h", 1);
    let agent = AgentBuilder::new(definition(4)).build(&ctx, session.id()).unwrap();

    let mut turn = agent.run(&mut session, &mut ids, "use the echo tool please");
    let report = drive(&mut turn, &mut session, &mut ids, agent.definition(), &registry, scripted);

    assert!(report.events.iter().any(|e| matches!(e, SessionEvent::ToolCall { .. })));
    assert!(report.events.iter().any(|e| matches!(e, SessionEvent::ToolResult { .. })));
    assert!(report.events.iter().any(|e| matches!(e, SessionEvent::TurnEnd { .. })));
}

#[test]
fn the_log_of_a_turn_follows_the_grammar() {
    let registry = echo_registry();
    let mut ids = Ids::new();
    let mut session = Session::new("s", false, "/h", 1);
    let mut turn = Turn::begin(&mut session, &mut ids, "go");
    let report = drive(&mut turn, &mut session, &mut ids, &definition(4), &registry, scripted);
    let kinds: Vec<&str> = report
        .events
        .iter()
        .map(|e| match e {
            SessionEvent::TurnStart { .. } => "turn",
            SessionEvent::UserMessage { .. } => "user",
            SessionEvent::StepStart { .. } => "step",
            SessionEvent::AssistantChunk { .. } => "chunk",
            SessionEvent::ReasoningChunk { .. } => "reasoning",
            SessionEvent::AssistantMessage { .. } => "assistant",
            SessionEvent::ToolCall { .. } => "call",
            SessionEvent::ToolResult { .. } => "result",
            SessionEvent::StepEnd { .. } => "/step",
            SessionEvent::TurnEnd { .. } => "/turn",
            SessionEvent::WorkflowStep { .. } => "workflow",
        })
        .collect();
    assert_eq!(
        kinds,
        vec![
            "turn", "user", "step", "assistant", "call", "result", "/step", "step", "chunk",
            "assistant", "/step", "/turn"
        ]
    );
    assert_eq!(turn.stage(), Stage::Ended);
    assert!(matches!(
        &report.events[5],
        SessionEvent::ToolResult { output, is_error: false, .. } if output.to_text() == "{\"content\":\"hi\"}"
    ));
    assert!(matches!(
        turn.advance(&mut session, &mut ids, &definition(4), &registry),
        Action::Wait
    ));
}

fn always_calling(_: &ModelRequest) -> Vec<ModelEvent> {
    vec![
        ModelEvent::Reasoning("hm".to_string()),
        ModelEvent::ToolCall(ModelToolCall {
            id: "c".to_string(),
            name: "missing".to_string(),
            arguments: Json::Null,
        }),
        ModelEvent::Done(FinishReason::ToolCalls),
    ]
}

#[test]
fn the_step_budget_ends_a_turn() {
    let registry = echo_registry();
    let mut ids = Ids::new();
    let mut session = Session::new("s", false, "/h", 1);
    let mut turn = Turn::begin(&mut session, &mut ids, "go");
    let report = drive(&mut turn, &mut session, &mut ids, &definition(2), &registry, always_calling);
    let steps = report.events.iter().filter(|e| matches!(e, SessionEvent::StepStart { .. })).count();
    assert_eq!(steps, 2);
    let failed: Vec<String> = report
        .events
        .iter()
        .filter_map(|e| match e {
            SessionEvent::ToolResult { output, is_error: true, .. } => Some(output.to_text()),
            _ => None,
        })
        .collect();
    assert_eq!(failed.len(), 2);
    assert!(failed[0].contains("missing"));
    assert!(matches!(report.events.last(), Some(SessionEvent::TurnEnd { .. })));
}

fn calls_without_asking(_: &ModelRequest) -> Vec<ModelEvent> {
    vec![
        ModelEvent::ToolCall(ModelToolCall {
            id: "c".to_string(),
            name: "echo".to_string(),
            arguments: Json::Null,
        }),
        ModelEvent::Done(FinishReason::Stop),
    ]
}

#[test]
fn calls_count_only_where_the_model_stopped_for_them() {
    let registry = echo_registry();
    let mut ids = Ids::new();
    let mut session = Session::new("s", false, "/h", 1);
    let mut turn = Turn::begin(&mut session, &mut ids, "go");
    let report =
        drive(&mut turn, &mut session, &mut ids, &definition(4), &registry, calls_without_asking);
    assert!(!report.events.iter().any(|e| matches!(e, SessionEvent::ToolCall { .. })));
}

#[test]
fn a_request_shows_the_log_and_the_tools() {
    let registry = echo_registry();
    let mut ids = Ids::new();
    let mut session = Session::new("s", false, "/h", 1);
    let mut turn = Turn::begin(&mut session, &mut ids, "go");
    let Action::Ask(request) = turn.advance(&mut session, &mut ids, &definition(1), &registry) else {
        panic!("no request");
    };
    assert_eq!(request.model, "test-model");
    assert_eq!(request.messages.len(), 2);
    assert_eq!(request.messages[0].role, ModelRole::System);
    assert_eq!(request.messages[0].content.as_deref(), Some("sys"));
    assert_eq!(request.messages[1].content.as_deref(), Some("go"));
    assert_eq!(request.tools.len(), registry.len());
    assert_eq!(turn.stage(), Stage::Listening);
}

#[test]
fn an_agent_needs_a_model_and_tools() {
    let mut ctx: Context<Capability, ()> = Context::new();
    assert_eq!(
        AgentBuilder::new(AgentDefinition::default()).build(&ctx, "s").unwrap_err(),
        "no model provider registered on the context"
    );
    let mock = || ModelRoute::Mock { model: "m".into() };
    assert_eq!(
        AgentBuilder::new(AgentDefinition::default())
            .with_model(mock())
            .build(&ctx, "s")
            .unwrap_err(),
        "no tool registry registered on the context"
    );
    let _tools = ctx.provide("ToolRegistry", Capability::Tools(ToolRegistry::new()));
    let agent = AgentBuilder::new(AgentDefinition::default())
        .with_model(mock())
        .build(&ctx, "s")
        .unwrap();
    assert_eq!(agent.session(), "s");
    assert_eq!(agent.definition().max_steps, 8);
    assert_eq!(agent.definition().name, "rh-agent");
    assert!(matches!(agent.model(), ModelRoute::Mock { model } if model == "m"));
}

#[test]
fn messages_on_the_way_to_a_model() {
    let messages = vec![
        Message::user("hi"),
        Message {
            role: Role::Assistant,
            content: vec![
                ContentBlock::Text { text: "a".into() },
                ContentBlock::ToolCall { id: "c".into(), name: "n".into(), arguments: Json::Null },
                ContentBlock::Text { text: "b".into() },
            ],
        },
        Message {
            role: Role::Tool,
            content: vec![ContentBlock::ToolResult {
                id: "c".into(),
                output: Json::number(1),
                is_error: false,
            }],
        },
    ];
    let wire = ModelMessage::from_session(&messages);
    assert_eq!(wire[0].role, ModelRole::User);
    assert_eq!(wire[1].content.as_deref(), Some("a\nb"));
    assert_eq!(wire[1].tool_calls.len(), 1);
    assert_eq!(wire[2].tool_call_id.as_deref(), Some("c"));
    assert_eq!(wire[2].content.as_deref(), Some("1"));
    let said = |output: Json| {
        let content = vec![ContentBlock::ToolResult { id: "c1".into(), output, is_error: false }];
        let wire = ModelMessage::from_session(&vec![Message { role: Role::Tool, content }]);
        assert_eq!(wire.len(), 1);
        assert_eq!(wire[0].role, ModelRole::Tool);
        assert_eq!(wire[0].tool_call_id.as_deref(), Some("c1"));
        wire[0].content.clone()
    };
    assert_eq!(said(Json::text("ok")).as_deref(), Some("ok"));
    assert_eq!(said(Json::object().with("n", Json::Null)).as_deref(), Some("{\"n\":null}"));
}

#[test]
fn the_mock_says_what_the_user_said() {
    let answer = |messages: Vec<Message>| {
        let request = ModelRequest {
            model: "mock".into(),
            messages: ModelMessage::from_session(&messages),
            tools: vec![],
        };
        let events = mock_answer(&request);
        assert_eq!(events.len(), 2);
        assert!(matches!(events[1], ModelEvent::Done(FinishReason::Stop)));
        match &events[0] {
            ModelEvent::Text(text) => text.clone(),
            _ => panic!("not a text"),
        }
    };
    assert_eq!(answer(vec![]), "");
    assert_eq!(answer(vec![Message::system("s")]), "");
    assert_eq!(
        answer(vec![Message::user("a"), Message::user("b"), Message::system("s")]),
        "b"
    );
}

//! The wire form of requests, the streaming answers, and the hub of providers.
use rh::agent::model::{FinishReason, ModelEvent, ModelMessage, ModelRequest, ModelRole, ModelToolCall};
use rh::json::{parse, Json};
use rh::providers::chat::{chat_body, role_str, route_to};
use rh::providers::hub::{ModelHub, OpenAiCompatibleProvider, ProviderConfig};
use rh::providers::sse::{parse_reason, Polled, SseState};
use rh::tool::description::ToolDescription;

fn request() -> ModelRequest {
    ModelRequest {
        model: "m".into(),
        messages: vec![
            ModelMessage {
                role: ModelRole::User,
                content: Some("hi".into()),
                tool_calls: vec![],
                tool_call_id: None,
            },
            ModelMessage {
                role: ModelRole::Assistant,
                content: None,
                tool_calls: vec![ModelToolCall {
                    id: "c".into(),
                    name: "n".into(),
                    arguments: Json::object().with("x", Json::number(1)),
                }],
                tool_call_id: None,
            },
            ModelMessage {
                role: ModelRole::Tool,
                content: None,
                tool_calls: vec![],
                tool_call_id: Some("c".into()),
            },
        ],
        tools: vec![ToolDescription::new("n", "d", Json::object())],
    }
}

#[test]
fn a_request_on_the_wire() {
    let expected = parse(
        "{\"model\":\"m\",\"messages\":[{\"role\":\"user\",\"content\":\"hi\"},\
         {\"role\":\"assistant\",\"tool_calls\":[{\"id\":\"c\",\"type\":\"function\",\
         \"function\":{\"name\":\"n\",\"arguments\":\"{\\\"x\\\":1}\"}}]},\
         {\"role\":\"tool\",\"tool_call_id\":\"c\"}],\
         \"tools\":[{\"type\":\"function\",\"function\":{\"name\":\"n\",\"description\":\"d\",\"parameters\":{}}}]}",
    )
    .unwrap();
    assert_eq!(chat_body(&request(), false).to_text(), expected.to_text());
    let streamed = expected.with("stream", Json::Bool(true));
    assert_eq!(chat_body(&request(), true).to_text(), streamed.to_text());
    assert_eq!(role_str(ModelRole::System), "system");
    assert_eq!(route_to("http://x//", "/models"), "http://x/models");
}

fn drain(state: &mut SseState) -> Vec<String> {
    let mut out = Vec::new();
    loop {
        match state.poll() {
            Polled::Event(ModelEvent::Text(s)) => out.push(format!("text {s}")),
            Polled::Event(ModelEvent::Reasoning(s)) => out.push(format!("reasoning {s}")),
            Polled::Event(ModelEvent::ToolCall(c)) => {
                out.push(format!("call {} {} {}", c.id, c.name, c.arguments.to_text()))
            }
            Polled::Event(ModelEvent::Done(r)) => out.push(format!("done {r:?}")),
            Polled::Closed => {
                out.push("closed".to_string());
                return out;
            }
            Polled::Starved => {
                out.push("starved".to_string());
                return out;
            }
        }
    }
}

const STREAM: &str = concat_lines();

const fn concat_lines() -> &'static str {
    "data: {\"choices\":[{\"delta\":{\"content\":\"He\"}}]}\n\
     \n\
     : comment\n\
     data: {\"choices\":[{\"delta\":{\"content\":\"llo\"}}]}\n\
     data: {\"choices\":[{\"delta\":{\"tool_calls\":[{\"index\":0,\"id\":\"c1\",\"function\":{\"name\":\"bash\",\"arguments\":\"{\\\"a\\\"\"}}]}}]}\n\
     data: {\"choices\":[{\"delta\":{\"tool_calls\":[{\"index\":0,\"function\":{\"arguments\":\":1}\"}}]},\"finish_reason\":\"tool_calls\"}]}\n\
     data: [DONE]\n"
}

fn expected() -> Vec<&'static str> {
    vec!["text He", "text llo", "call c1 bash {\"a\":1}", "done ToolCalls", "closed"]
}

#[test]
fn a_stream_is_read_piece_by_piece() {
    let mut whole = SseState::new();
    whole.feed(&STREAM.as_bytes().to_vec());
    assert_eq!(drain(&mut whole), expected());

    let mut pieces = SseState::new();
    for b in STREAM.as_bytes() {
        pieces.feed(&vec![*b]);
    }
    assert_eq!(drain(&mut pieces), expected());
}

#[test]
fn a_stream_may_break_off() {
    let mut s = SseState::new();
    s.feed(&b"data: {\"choices\":[{\"delta\":{\"content\":\"x\"}}]}\n".to_vec());
    assert_eq!(drain(&mut s), vec!["text x", "starved"]);
    s.finish();
    assert_eq!(drain(&mut s), vec!["done Stop", "closed"]);
    s.finish();
    s.feed(&b"data: {\"choices\":[{\"delta\":{\"content\":\"y\"}}]}\n".to_vec());
    assert_eq!(drain(&mut s), vec!["closed"]);
}

#[test]
fn what_is_no_delta_is_passed_over() {
    let mut s = SseState::new();
    s.feed(&b"data: nonsense\nevent: x\ndata: {}\ndata: {\"choices\":[]}\n".to_vec());
    assert_eq!(drain(&mut s), vec!["starved"]);
    assert_eq!(parse_reason("length"), FinishReason::Length);
    assert_eq!(parse_reason("tool_calls"), FinishReason::ToolCalls);
    assert_eq!(parse_reason("other"), FinishReason::Stop);
}

#[test]
fn a_provider_from_the_environment() {
    assert_eq!(
        OpenAiCompatibleProvider::from_env(None, None).unwrap_err(),
        "RH_API_KEY not set"
    );
    let p = OpenAiCompatibleProvider::from_env(Some("k".into()), None).unwrap();
    assert_eq!(p.base_url(), "https://api.deepseek.com");
    assert_eq!(p.api_key(), "k");
    assert_eq!(p.chat_url(), "https://api.deepseek.com/chat/completions");
    assert_eq!(p.models_url(), "https://api.deepseek.com/models");
    let models = p.list_models(&parse("{\"data\":[{\"id\":\"a\"},{},{\"id\":\"b\"}]}").unwrap());
    assert_eq!(models.len(), 2);
    assert_eq!((models[1].id.as_str(), models[1].name.as_str(), models[1].provider.as_str()), ("b", "b", ""));
    assert!(p.list_models(&Json::Null).is_empty());
    assert_eq!(p.chat_body(&request(), false).to_text(), chat_body(&request(), false).to_text());
}

fn config(id: &str, name: &str) -> ProviderConfig {
    ProviderConfig {
        id: id.into(),
        name: name.into(),
        base_url: "http://x".into(),
        api_key: "k".into(),
    }
}

#[test]
fn the_hub_is_seeded_from_the_environment() {
    let (hub, save) = ModelHub::load("models.json", None, Some("key"), None);
    let providers = hub.providers();
    assert_eq!(providers.len(), 1);
    assert_eq!(providers[0].id, "deepseek");
    assert_eq!(providers[0].name, "DeepSeek");
    assert_eq!(providers[0].base_url, "https://api.deepseek.com");
    assert_eq!(save.path, "models.json");
    let (again, _) = ModelHub::load("models.json", Some(&save.text), Some("other"), Some("u"));
    assert_eq!(again.providers()[0].api_key, "key");
    let (empty, _) = ModelHub::load("models.json", Some("nonsense"), None, None);
    assert!(empty.providers().is_empty());
}

#[test]
fn the_hub_reads_back_what_it_wrote() {
    let (mut hub, _) = ModelHub::load("m.json", None, None, None);
    let (added, _) = hub.add_provider(config("  ", ""));
    assert_eq!((added.id.as_str(), added.name.as_str()), ("p-0", "p-0"));
    hub.add_provider(config("a", "A"));
    hub.add_provider(config("a", "B"));
    assert_eq!(hub.providers().len(), 2);
    assert_eq!(hub.provider("a").unwrap().name, "B");
    assert!(hub.provider("z").is_none());
    hub.discover_models("a", &parse("{\"data\":[{\"id\":\"m1\"},{\"id\":\"m2\"}]}").unwrap());
    assert_eq!(hub.models("a")[1].provider, "a");
    assert!(hub.models("p-0").is_empty());
    assert_eq!(hub.set_active("z", "m1").unwrap_err(), "provider z not found");
    assert_eq!(
        hub.set_active("a", "m9").unwrap_err(),
        "model m9 not found under provider a"
    );
    assert!(hub.active().is_none());
    let save = hub.set_active("a", "m2").unwrap();
    assert_eq!(hub.active_state(), (Some("a".to_string()), Some("m2".to_string())));
    let (back, _) = ModelHub::load("m.json", Some(&save.text), None, None);
    let (provider, model) = back.active().unwrap();
    assert_eq!((provider.name.as_str(), model.id.as_str()), ("B", "m2"));
    assert_eq!(back.save().text, save.text);
    assert_eq!(back.build_provider_for("a").unwrap().base_url(), "http://x");
    assert_eq!(back.build_provider_for("z").unwrap_err(), "provider z not found");
    hub.remove_provider("a");
    assert!(hub.active().is_none());
    assert_eq!(hub.active_state(), (None, None));
    assert!(hub.models("a").is_empty());
    assert_eq!(hub.providers().len(), 1);
}

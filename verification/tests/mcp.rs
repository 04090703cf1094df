//! The client of tool servers: messages, transports and tools.
use rh::codec::Codec;
use rh::json::{parse, Json};
use rh::mcp::client::{offered_tools, read_tool, McpClient};
use rh::mcp::config::{McpServerConfig, TransportKind};
use rh::mcp::rpc::{
    line_of, no_response, notification, read_reply, request, rpc_result, timed_out, Followed,
    HttpState, Reply,
};
use rh::mcp::scan::{no_endpoint, AnswerScan, EndpointScan};
use rh::mcp::url::resolve_url;
use rh::tool::registry::Tool;

fn config(transport: &str) -> McpServerConfig {
    McpServerConfig {
        name: "n".into(),
        transport: transport.into(),
        command: "c".into(),
        args: vec!["-x".into()],
        url: "http://h".into(),
    }
}

#[test]
fn the_transport_is_named() {
    assert_eq!(config("").transport_kind(), "stdio");
    assert_eq!(config("sse").transport_kind(), "sse");
    assert_eq!(config("").transport(), TransportKind::Stdio);
    assert_eq!(config("sse").transport(), TransportKind::Sse);
    assert_eq!(config("http").transport(), TransportKind::Http);
    assert_eq!(config("other").transport(), TransportKind::Stdio);
}

#[test]
fn a_configuration_reads_back() {
    let j = config("sse").to_json();
    let back = McpServerConfig::from_json(&j).unwrap();
    assert_eq!(back.to_json().to_text(), j.to_text());
    let short = McpServerConfig::from_json(&parse("{\"name\":\"n\"}").unwrap()).unwrap();
    assert_eq!((short.transport.as_str(), short.args.len()), ("", 0));
    assert!(McpServerConfig::from_json(&Json::object()).is_none());
}

#[test]
fn messages_are_framed() {
    assert_eq!(
        line_of(&request(3, "m", Json::Null)),
        "{\"id\":3,\"jsonrpc\":\"2.0\",\"method\":\"m\",\"params\":null}\n"
    );
    assert_eq!(
        notification("m", Json::object()).to_text(),
        "{\"jsonrpc\":\"2.0\",\"method\":\"m\",\"params\":{}}"
    );
}

#[test]
fn answers_give_a_result_or_an_error() {
    let ok = parse("{\"id\":1,\"result\":{\"a\":1}}").unwrap();
    assert_eq!(rpc_result(&ok).unwrap().to_text(), "{\"a\":1}");
    assert!(rpc_result(&Json::object()).unwrap().is_null());
    let err = parse("{\"error\":{\"message\":\"bad\"}}").unwrap();
    assert_eq!(rpc_result(&err).unwrap_err(), "MCP 错误：bad");
    let err = parse("{\"error\":{}}").unwrap();
    assert_eq!(rpc_result(&err).unwrap_err(), "MCP 错误：unknown");
}

#[test]
fn lines_from_a_process() {
    assert!(matches!(read_reply(Some("  "), 1, "m"), Reply::Again));
    assert!(matches!(read_reply(Some("{\"id\":2,\"result\":1}"), 1, "m"), Reply::Again));
    assert!(matches!(read_reply(Some("{\"method\":\"x\"}"), 1, "m"), Reply::Again));
    assert!(
        matches!(read_reply(Some("{\"id\":1,\"result\":7}"), 1, "m"), Reply::Over(Ok(j)) if j.to_text() == "7")
    );
    assert!(matches!(read_reply(Some("{"), 1, "m"), Reply::Over(Err(_))));
    assert!(
        matches!(read_reply(None, 1, "m"), Reply::Over(Err(e)) if e == "MCP 服务器连接关闭（方法 m）")
    );
    assert!(no_response("m").contains("m"));
    assert!(timed_out("m").contains("m"));
}

#[test]
fn an_http_answer_is_followed() {
    let mut state = HttpState::new();
    assert_eq!(state.session(), None);
    assert!(matches!(
        state.answered(Some("s".into()), Some("text/event-stream; x"), true),
        Followed::Stream
    ));
    assert_eq!(state.session(), Some("s".to_string()));
    assert!(matches!(state.answered(None, Some("application/json"), true), Followed::Body));
    assert_eq!(state.session(), Some("s".to_string()));
    assert!(matches!(state.answered(None, None, false), Followed::Nothing));
}

#[test]
fn addresses_are_resolved() {
    assert_eq!(resolve_url("http://h:1/sse", "/messages?x=1"), "http://h:1/messages?x=1");
    assert_eq!(resolve_url("http://h/sse", "https://o/m"), "https://o/m");
}

#[test]
fn the_endpoint_is_announced() {
    let mut scan = EndpointScan::new();
    assert_eq!(scan.feed(&b"event: endp".to_vec()), None);
    assert_eq!(scan.feed(&b"oint\ndata: /messages\n".to_vec()), Some("/messages".to_string()));
    let mut other = EndpointScan::new();
    assert_eq!(other.feed(&b"event: message\ndata: /no\n\n".to_vec()), None);
    assert!(!no_endpoint().is_empty());
}

#[test]
fn answers_are_found_in_a_stream() {
    let mut scan = AnswerScan::new();
    scan.feed(&b"event: message\ndata: {\"id\":1}\n\ndata: nope\ndata: {\"id\":".to_vec());
    scan.feed(&b"2}\n".to_vec());
    assert_eq!(scan.next().unwrap().to_text(), "{\"id\":1}");
    assert_eq!(scan.next().unwrap().to_text(), "{\"id\":2}");
    assert!(scan.next().is_none());
}

#[test]
fn the_client_numbers_its_requests() {
    let mut client = McpClient::new();
    let hello = client.connect();
    let list = client.list_tools();
    let call = client.call_tool("t", Json::object());
    assert_ne!(hello.id, list.id);
    assert_ne!(list.id, call.id);
    assert_eq!(hello.message.str_at("method"), Some("initialize"));
    assert_eq!(hello.message.u64_at("id"), Some(hello.id));
    assert_eq!(list.message.str_at("method"), Some("tools/list"));
    assert_eq!(call.message.str_at("method"), Some("tools/call"));
    assert_eq!(call.message.get("params").unwrap().str_at("name"), Some("t"));
    assert_eq!(client.initialized().str_at("method"), Some("notifications/initialized"));
    assert_eq!(client.request("x", Json::Null).message.str_at("method"), Some("x"));
}

#[test]
fn offered_tools_are_bridged() {
    let result = parse(
        "{\"tools\":[{\"name\":\"a\",\"description\":\"d\",\"inputSchema\":{\"type\":\"object\"}},{\"description\":\"nameless\"},{\"name\":\"b\"}]}",
    )
    .unwrap();
    let tools = offered_tools(&result);
    assert_eq!(tools.len(), 2);
    assert_eq!(tools[0].id(), "a");
    assert_eq!(tools[0].description().parameters.to_text(), "{\"type\":\"object\"}");
    assert_eq!(tools[1].description().description, "");
    assert!(offered_tools(&Json::Null).is_empty());
    assert!(read_tool(&Json::object(), "schema").is_none());
    let out = tools[0].output(&parse("{\"content\":[{\"type\":\"text\",\"text\":\"x\"}]}").unwrap());
    assert!(out.to_text().contains('x'));
}

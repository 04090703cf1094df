//! The command line: whole completions, the screen, the reports; and the static page.
use rh::agent::model::{FinishReason, ModelEvent, ModelRequest};
use rh::cli::http::{chunk_text, OpenAiCompatibleProvider};
use rh::cli::report::{config_report, pad, run_definition, tools_report, transcript};
use rh::cli::tui::{cursor_column, render_event, tui_definition, App, Color, Key, Reaction};
use rh::json::{parse, Json};
use rh::session::event::{ContentBlock, SessionEvent};
use rh::site::{answer, path_of, requested_path, served_at};
use rh::tool::call::ToolCallContext;
use rh::tool::registry::ToolRegistry;
use rh::tools::any::AnyTool;
use rh::tools::files::BashTool;

fn provider() -> OpenAiCompatibleProvider {
    OpenAiCompatibleProvider::from_env(Some("k".into()), Some("http://x/".into()), None).unwrap()
}

#[test]
fn a_whole_completion_is_read() {
    assert_eq!(
        OpenAiCompatibleProvider::from_env(None, None, None).unwrap_err(),
        "RH_API_KEY not set"
    );
    let p = provider();
    assert_eq!(p.chat_url(), "http://x/chat/completions");
    assert_eq!(p.api_key(), "k");
    let request = ModelRequest { model: "ignored".into(), messages: vec![], tools: vec![] };
    assert_eq!(
        p.chat_body(&request).to_text(),
        "{\"messages\":[],\"model\":\"deepseek-chat\",\"tools\":[]}"
    );
    for text in ["{}", "{\"choices\":[]}", "{\"choices\":1}", "null"] {
        assert_eq!(
            p.complete_once(&parse(text).unwrap()).unwrap_err(),
            "no choices in model response"
        );
    }
    let c = p
        .complete_once(
            &parse(
                "{\"choices\":[{\"message\":{\"content\":\"hello world\",\"tool_calls\":[\
                 {\"id\":\"c\",\"function\":{\"name\":\"n\",\"arguments\":\"{\\\"a\\\":1}\"}},\
                 {\"function\":{\"name\":\"m\"}},{\"function\":{\"name\":\"o\",\"arguments\":\"[\"}},\
                 {\"id\":\"nameless\"}]},\"finish_reason\":\"tool_calls\"}]}",
            )
            .unwrap(),
        )
        .unwrap();
    assert_eq!(c.content, "hello world");
    assert_eq!(c.finish_reason, FinishReason::ToolCalls);
    assert_eq!(c.tool_calls.len(), 3);
    assert_eq!(c.tool_calls[0].arguments.to_text(), "{\"a\":1}");
    assert_eq!(c.tool_calls[1].id, "");
    assert_eq!(c.tool_calls[1].arguments.to_text(), "{}");
    assert!(c.tool_calls[2].arguments.is_null());
    let events = p.stream(c);
    assert_eq!(events.len(), 6);
    assert!(matches!(&events[0], ModelEvent::Text(s) if s == "hello "));
    assert!(matches!(&events[1], ModelEvent::Text(s) if s == "world"));
    assert!(matches!(events[5], ModelEvent::Done(FinishReason::ToolCalls)));
    let empty = p.complete_once(&parse("{\"choices\":[{}]}").unwrap()).unwrap();
    assert_eq!((empty.content.as_str(), empty.finish_reason), ("", FinishReason::Stop));
}

#[test]
fn text_is_cut_into_pieces() {
    let pieces = |s: &str| -> Vec<String> {
        chunk_text(s)
            .into_iter()
            .map(|e| match e {
                ModelEvent::Text(t) => t,
                _ => panic!("no text"),
            })
            .collect()
    };
    assert!(pieces("").is_empty());
    assert_eq!(pieces("abc"), vec!["abc"]);
    assert_eq!(pieces("abcdef"), vec!["abcdef"]);
    assert_eq!(pieces("你好吗我很好谢"), vec!["你好吗我很好", "谢"]);
    assert_eq!(pieces("a longer text").concat(), "a longer text");
}

fn press_all(app: &mut App, s: &str) {
    for c in s.chars() {
        assert_eq!(app.press(Key::Char(c, false)), Reaction::Nothing);
    }
}

#[test]
fn keys_drive_the_screen() {
    let mut app = App::default();
    assert_eq!(app.visible(10).len(), 1);
    assert_eq!(app.press(Key::Enter), Reaction::Nothing);
    press_all(&mut app, " gox");
    assert_eq!(app.press(Key::Backspace), Reaction::Nothing);
    assert_eq!(app.prompt(), ">  go");
    assert_eq!(app.title(), " rh — Rust Harness Agent · idle · Enter: send · q: quit ");
    assert_eq!(app.press(Key::Enter), Reaction::Run("go".to_string()));
    assert_eq!(app.input(), "");
    assert!(app.title().contains("working…"));
    press_all(&mut app, "b");
    assert_eq!(app.press(Key::Enter), Reaction::Nothing);
    assert_eq!(app.input(), "b");
    app.done(Err("bad".to_string()));
    let lines = app.visible(10);
    assert_eq!(lines[1].spans[0].text, "error ");
    assert_eq!(lines[1].spans[1].text, "bad");
    assert_eq!(app.submit(), Some("b".to_string()));
    app.done(Ok(()));
    assert_eq!(app.press(Key::Other), Reaction::Nothing);
    assert_eq!(app.press(Key::Char('c', true)), Reaction::Quit);
    assert_eq!(app.press(Key::Char('q', false)), Reaction::Quit);
    assert_eq!(app.press(Key::Escape), Reaction::Quit);
    assert_eq!(app.press(Key::Backspace), Reaction::Nothing);
    assert_eq!(tui_definition().name, "rh-tui");
}

#[test]
fn the_newest_lines_are_visible() {
    let mut app = App::default();
    for i in 0..5 {
        app.push_event(&SessionEvent::AssistantChunk { message_id: "m".into(), text: format!("{i}") });
    }
    let shown: Vec<String> = app.visible(4).iter().map(|l| l.spans[1].text.clone()).collect();
    assert_eq!(shown, vec!["3", "4"]);
    assert_eq!(app.visible(1).len(), 0);
    assert_eq!(app.visible(100).len(), 6);
    assert_eq!(cursor_column(3, 80), 5);
    assert_eq!(cursor_column(100, 80), 79);
    assert_eq!(cursor_column(100, 0), 0);
}

#[test]
fn events_become_lines() {
    let text = |s: &str| ContentBlock::Text { text: s.into() };
    let lines = render_event(&SessionEvent::UserMessage {
        message_id: "m".into(),
        content: vec![text("a"), text("b")],
    });
    assert_eq!(lines.len(), 1);
    assert_eq!((lines[0].spans[0].text.as_str(), lines[0].spans[0].color), ("you ", Color::Green));
    assert!(lines[0].spans[0].bold);
    assert_eq!(lines[0].spans[1].text, "a\nb");
    let lines = render_event(&SessionEvent::AssistantMessage {
        message_id: "m".into(),
        content: vec![
            text("a"),
            ContentBlock::ToolCall { id: "c".into(), name: "n".into(), arguments: Json::Null },
            text("b"),
        ],
    });
    assert_eq!(lines.len(), 2);
    let lines = render_event(&SessionEvent::ToolCall {
        tool_call_id: "c".into(),
        tool_name: "bash".into(),
        arguments: Json::object(),
    });
    assert_eq!(lines[0].spans[1].text, " bash {}");
    let lines = render_event(&SessionEvent::ToolResult {
        tool_call_id: "c".into(),
        output: Json::text(&"x".repeat(600)),
        is_error: true,
    });
    assert_eq!((lines[0].spans[0].text.as_str(), lines[0].spans[0].color), ("  ✗ ", Color::Red));
    assert_eq!(lines[0].spans[1].text.chars().count(), 501);
    let lines = render_event(&SessionEvent::TurnStart { turn_id: "t".into() });
    assert_eq!((lines[0].spans[0].text.as_str(), lines[0].spans[0].color), ("── turn ──", Color::DarkGray));
    assert!(render_event(&SessionEvent::StepEnd { step_id: "s".into() }).is_empty());
}

#[test]
fn the_commands_report() {
    assert_eq!(run_definition(None).model, "deepseek-chat");
    assert_eq!(run_definition(Some("m".into())).model, "m");
    assert_eq!(pad("bash", 6), "bash  ");
    assert_eq!(pad("工具", 4), "工具  ");
    assert_eq!(pad("longer", 3), "longer");
    let mut registry: ToolRegistry<AnyTool> = ToolRegistry::new();
    registry.register(AnyTool::Bash(BashTool));
    assert_eq!(
        tools_report(&registry, &ToolCallContext::new("tools", "tools", ".")),
        "- bash         Run a shell command and return stdout/stderr/exit code.\n"
    );
    let v = |s: &str| vec![s.to_string()];
    assert_eq!(
        config_report(&v("p"), &v("s"), &v("t")),
        "plugins (mount order):\n  - p\n\nservices:\n  - s\n\ntools:\n  - t\n"
    );
    let events = vec![SessionEvent::TurnStart { turn_id: "t".into() }];
    let text = transcript("s", &events);
    let mut lines = text.lines();
    assert_eq!(lines.next(), Some("== session transcript (s) =="));
    assert_eq!(parse(lines.next().unwrap()).unwrap().str_at("turn_id"), Some("t"));
}

#[test]
fn the_static_page_is_served() {
    assert_eq!(requested_path("GET /game.js HTTP/1.1\r\n"), "/game.js");
    assert_eq!(requested_path("GET"), "/");
    assert_eq!(requested_path(""), "/");
    assert_eq!(requested_path("  a \t b"), "b");
    assert_eq!(path_of(&b"GET /x\xff HTTP".to_vec()), "/x\u{fffd}");
    assert_eq!(served_at("/").file, Some("static/index.html"));
    assert_eq!(served_at("/index.html").content_type, "text/html; charset=utf-8");
    assert_eq!(served_at("/game.js").file, Some("static/game.js"));
    assert_eq!(served_at("/other").file, None);
    let ok = answer("/", Ok(b"body".to_vec()));
    assert_eq!(
        ok.head,
        "HTTP/1.1 200 OK\r\nContent-Type: text/html; charset=utf-8\r\nContent-Length: 4\r\nConnection: close\r\n\r\n"
    );
    assert_eq!(ok.body, b"body".to_vec());
    let gone = answer("/x", Ok(vec![1]));
    assert!(gone.head.starts_with("HTTP/1.1 404 Not Found\r\nContent-Type: text/plain"));
    assert_eq!(gone.body, b"Not Found".to_vec());
    let broken = answer("/game.js", Err("denied".to_string()));
    assert!(broken.head.starts_with("HTTP/1.1 500 Internal Server Error\r\n"));
    assert_eq!(broken.body, b"Unable to read static/game.js: denied".to_vec());
}

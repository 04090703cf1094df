//! The built-in tools.
use rh::json::{parse, Json};
use rh::plugins::{
    echo_call, echo_tools, is_library, load_failed, load_order, load_plugin, plugin_string,
    read_descriptors, symbol_missing,
};
use rh::session::event::SessionEvent;
use rh::session::ids::Ids;
use rh::session::store::SessionStore;
use rh::tool::call::ToolCallContext;
use rh::tool::description::{ToolCapabilities, ToolConcurrency, ToolDescription};
use rh::tool::error::{ToolError, ToolErrorKind};
use rh::tool::registry::{Tool, ToolRegistry};
use rh::tool::stream::{drain, error_json, terminal_only, Drain, ToolStreamItem};
use rh::tools::any::{builtin_tools, AnyTool};
use rh::tools::files::{
    is_plan_mode, resolve_path, BashTool, CommandOutput, FileSystem, FsReadTool, FsWriteTool,
    LocalFileSystem, LocalShell, Shell,
};
use rh::tools::search::{skip_dir, Ask, Entry, GlobTool, GrepTool};
use rh::tools::skills::{SkillListTool, SkillStore, SkillTool};
use rh::tools::todo::{TodoWriteTool, WorkflowStepTool};
use rh::tools::web::{
    decode_entities, links_of, url_encode, user_agent, WebFetchTool, WebPatterns, WebSearchTool,
};

fn call() -> ToolCallContext {
    ToolCallContext::new("sess-0", "call-1", "/w")
}

fn store(ids: &mut Ids) -> SessionStore {
    let mut store = SessionStore::new(false, "/h");
    store.create_fresh(ids, 1);
    store
}

#[test]
fn errors_have_a_text() {
    assert_eq!(ToolError::not_found("x").text(), "not found: tool `x` not found");
    assert_eq!(ToolError::not_implemented("x").kind, ToolErrorKind::NotImplemented);
    assert_eq!(ToolError::missing_service("Shell").kind, ToolErrorKind::MissingService);
    assert_eq!(ToolError::execution("bad").message, "bad");
    let e = ToolError::new(ToolErrorKind::Execution, "bad");
    assert_eq!(error_json(&e).str_at("error"), Some(e.text().as_str()));
}

#[test]
fn a_stream_is_drained_to_its_end() {
    let (j, failed) = drain(terminal_only(Ok(Json::number(1))));
    assert_eq!((j.to_text(), failed), ("1".to_string(), false));
    let (j, failed) = drain(vec![
        ToolStreamItem::Progress { text: "x".to_string() },
        ToolStreamItem::Terminal(Err(ToolError::execution("bad"))),
    ]);
    assert!(failed);
    assert!(j.str_at("error").unwrap().contains("bad"));
    let (j, failed) = drain(vec![]);
    assert_eq!((j.to_text(), failed), ("null".to_string(), false));
    let mut d = Drain::new();
    d.take(ToolStreamItem::Terminal(Ok(Json::text("a"))));
    assert_eq!(d.finish().0.to_text(), "\"a\"");
}

#[test]
fn the_registry_routes_by_name() {
    let mut registry: ToolRegistry<AnyTool> = ToolRegistry::new();
    assert!(registry.is_empty());
    let mut kept = registry.register(AnyTool::Bash(BashTool));
    registry.register(AnyTool::FsRead(FsReadTool));
    registry.register(AnyTool::Bash(BashTool));
    assert_eq!(registry.len(), 2);
    assert!(registry.get("bash").is_some());
    assert!(registry.call("fs_read").is_ok());
    assert_eq!(registry.call("nope").unwrap_err().kind, ToolErrorKind::NotFound);
    let names: Vec<String> = registry.list(&call()).into_iter().map(|d| d.name).collect();
    assert_eq!(names, vec!["bash", "fs_read"]);
    // The first registration was replaced: undoing it leaves the second one.
    registry.dispose(&mut kept);
    assert!(registry.get("bash").is_some());
    let mut latest = registry.register(AnyTool::Bash(BashTool));
    registry.dispose(&mut latest);
    assert!(registry.get("bash").is_none());
    assert!(!registry.remove("bash"));
    let mut other: ToolRegistry<AnyTool> = ToolRegistry::labelled(1);
    let mut elsewhere = other.register(AnyTool::FsRead(FsReadTool));
    registry.dispose(&mut elsewhere);
    assert!(registry.get("fs_read").is_some());
    assert!(registry.remove("fs_read"));
}

#[test]
fn the_built_in_tools() {
    let names: Vec<String> = builtin_tools().iter().map(|t| t.id()).collect();
    assert_eq!(
        names,
        vec![
            "bash", "fs_read", "fs_write", "todo_write", "web_fetch", "web_search", "grep", "glob",
            "task", "task_output", "task_wait", "task_kill", "workflow_step", "skill", "skill_list"
        ]
    );
    for tool in builtin_tools() {
        assert_eq!(tool.description().name, tool.id());
        assert!(tool.should_list(&call()));
        let reads = tool.id() == "fs_read";
        assert_eq!(tool.capabilities().read_only, reads);
        assert_eq!(tool.capabilities().concurrency == ToolConcurrency::Concurrent, reads);
    }
    let bash = BashTool.description().parameters;
    assert_eq!(
        bash.to_text(),
        parse("{\"type\":\"object\",\"properties\":{\"command\":{\"type\":\"string\",\"description\":\"the shell command to run\"}},\"required\":[\"command\"]}").unwrap().to_text()
    );
    assert!(FsReadTool.capabilities().read_only);
    assert_eq!(FsReadTool.capabilities().concurrency, ToolConcurrency::Concurrent);
    assert!(!ToolCapabilities::default().read_only);
    assert!(!BashTool.capabilities().read_only);
    assert_eq!(
        ToolDescription::new("a", "b", Json::Null).to_json().to_text(),
        "{\"description\":\"b\",\"name\":\"a\",\"parameters\":null}"
    );
}

#[test]
fn nothing_is_changed_while_planning() {
    let mut ids = Ids::new();
    let mut store = store(&mut ids);
    assert!(!is_plan_mode(Some(&store), "sess-0"));
    store.get_mut("sess-0").unwrap().set_work_mode("plan");
    assert!(is_plan_mode(Some(&store), "sess-0"));
    assert!(!is_plan_mode(Some(&store), "sess-9"));
    assert!(!is_plan_mode(None, "sess-0"));
    let args = parse("{\"command\":\"ls\",\"path\":\"a\",\"content\":\"é\"}").unwrap();
    assert_eq!(BashTool.plan(true, &args, true).unwrap_err().message, "plan 模式下禁止执行命令");
    assert_eq!(BashTool.plan(false, &args, true).unwrap(), "ls");
    assert_eq!(
        BashTool.plan(false, &Json::object(), true).unwrap_err().message,
        "missing `command` argument"
    );
    assert_eq!(BashTool.plan(false, &args, false).unwrap_err().kind, ToolErrorKind::MissingService);
    assert_eq!(
        FsWriteTool.plan(&call(), true, &args, true).unwrap_err().message,
        "plan 模式下禁止写文件"
    );
    assert_eq!(
        FsWriteTool.plan(&call(), false, &args, true).unwrap(),
        ("/w/a".to_string(), "é".to_string())
    );
    assert_eq!(
        FsWriteTool
            .plan(&call(), false, &parse("{\"path\":\"a\"}").unwrap(), true)
            .unwrap_err()
            .message,
        "missing `content` argument"
    );
    assert_eq!(FsReadTool.plan(&call(), &args, true).unwrap(), "/w/a");
    assert_eq!(
        FsReadTool.plan(&call(), &Json::object(), true).unwrap_err().message,
        "missing `path` argument"
    );
}

#[test]
fn paths_are_seen_from_the_workspace() {
    assert_eq!(resolve_path(&call(), "a/b"), "/w/a/b");
    assert_eq!(resolve_path(&call(), "/etc/x"), "/etc/x");
    assert_eq!(resolve_path(&call().with_cwd("/v"), "a"), "/v/a");
}

#[test]
fn the_local_services() {
    assert_eq!(
        LocalShell.shell_invocation("ls", true, true),
        ("sh", vec!["-c".to_string(), "ls".to_string()])
    );
    assert_eq!(LocalShell.shell_invocation("ls", false, true).0, "bash");
    assert_eq!(LocalShell.shell_invocation("ls", false, false).0, "/bin/sh");
    assert_eq!(
        LocalShell.spawn_failed("sh", "gone").message,
        "failed to spawn `sh` (is a shell installed?): gone"
    );
    assert!(LocalFileSystem.read_failed("/a", "gone").message.contains("/a"));
    assert!(LocalFileSystem.write_failed("/a", "gone").message.contains("gone"));
    let out = CommandOutput { stdout: "o".into(), stderr: "e".into(), exit_code: Some(-1) };
    assert_eq!(out.to_json().to_text(), "{\"exit_code\":-1,\"stderr\":\"e\",\"stdout\":\"o\"}");
    let out = CommandOutput { stdout: "".into(), stderr: "".into(), exit_code: None };
    assert!(out.to_json().get("exit_code").unwrap().is_null());
}

#[test]
fn the_todo_list_is_set() {
    let mut ids = Ids::new();
    let mut store = store(&mut ids);
    let args = parse("{\"todos\":[{\"content\":\"a\",\"status\":\"completed\"},{\"status\":\"pending\"},{\"content\":\"b\"}]}").unwrap();
    let r = TodoWriteTool.run(&call(), Some(&mut store), &mut ids, &args).unwrap();
    assert!(r.save.is_none());
    assert_eq!(r.output.array_at("todos").unwrap().len(), 2);
    let title = Json::object().with("title", Json::text("c"));
    TodoWriteTool.run(&call(), Some(&mut store), &mut ids, &title).unwrap();
    let tasks = store.get("sess-0").unwrap().tasks();
    assert_eq!(tasks.len(), 3);
    assert!(tasks[0].done);
    assert_eq!(tasks[2].title, "c");
    assert_eq!(
        TodoWriteTool
            .run(&call(), Some(&mut store), &mut ids, &Json::object())
            .unwrap_err()
            .message,
        "缺少 todos 或 title"
    );
    assert_eq!(
        TodoWriteTool.run(&call(), None, &mut ids, &args).unwrap_err().kind,
        ToolErrorKind::MissingService
    );
    let elsewhere = ToolCallContext::new("x", "c", "/w");
    assert_eq!(
        TodoWriteTool.run(&elsewhere, Some(&mut store), &mut ids, &args).unwrap_err().message,
        "session not found"
    );
}

#[test]
fn the_workflow_phase_is_logged() {
    let mut ids = Ids::new();
    let mut store = store(&mut ids);
    let args = Json::object().with("step", Json::text("plan"));
    let r = WorkflowStepTool.run(&call(), Some(&mut store), &args).unwrap();
    assert_eq!(r.output.to_text(), "{\"phase\":\"plan\"}");
    let session = store.get("sess-0").unwrap();
    assert_eq!(session.workflow_phase(), "plan");
    assert!(matches!(&session.events()[0], SessionEvent::WorkflowStep { mode, step } if mode == "direct" && step == "plan"));
    assert_eq!(
        WorkflowStepTool.run(&call(), Some(&mut store), &Json::object()).unwrap_err().message,
        "缺少 step"
    );
}

#[test]
fn skills_are_found_by_name() {
    let entries = vec![
        ("mine.md".to_string(), Some("\n## My skill \nbody".to_string())),
        ("other.txt".to_string(), Some("x".to_string())),
        ("unread.md".to_string(), None),
    ];
    let store = SkillStore::new(Some(&entries));
    assert_eq!(store.list().len(), 5);
    assert_eq!(store.list()[4], ("mine".to_string(), "My skill".to_string()));
    assert_eq!(store.get("mine"), Some("\n## My skill \nbody".to_string()));
    assert_eq!(store.get("nope"), None);
    assert_eq!(SkillStore::new(None).list()[0].0, "code-review");
    let args = Json::object().with("name", Json::text("mine"));
    let out = SkillTool.run(Some(&store), &args).unwrap();
    assert!(out.to_text().contains("My skill"));
    assert!(SkillTool.run(Some(&store), &Json::object()).is_err());
    assert!(SkillTool.run(Some(&store), &Json::object().with("name", Json::text("nope"))).is_err());
    assert_eq!(SkillTool.run(None, &args).unwrap_err().kind, ToolErrorKind::MissingService);
    let listed = SkillListTool.run(Some(&store)).unwrap();
    assert_eq!(listed.array_at("skills").unwrap().len(), 5);
    assert_eq!(listed.to_text(), store.to_json().to_text());
}

fn file(path: &str) -> Entry {
    let name = path.rsplit('/').next().unwrap().to_string();
    Entry { name, path: path.to_string(), is_dir: false }
}

fn dir(path: &str) -> Entry {
    Entry { is_dir: true, ..file(path) }
}

fn listing(path: &str) -> Option<Vec<Entry>> {
    match path {
        "/w" => Some(vec![file("/w/a.rs"), dir("/w/src"), dir("/w/.git"), dir("/w/target"), file("/w/.env")]),
        "/w/src" => Some(vec![file("/w/src/b.rs"), file("/w/src/c.txt"), dir("/w/src/gone")]),
        _ => None,
    }
}

fn content(path: &str) -> Option<String> {
    match path {
        "/w/a.rs" => Some("fn main() {}\n// fn\n".to_string()),
        "/w/src/b.rs" => Some("let fn1 = 2;   \r\nnothing".to_string()),
        "/w/.env" => Some("fn".to_string()),
        _ => None,
    }
}

#[test]
fn file_contents_are_searched() {
    let args = Json::object().with("pattern", Json::text("fn\\w*"));
    let mut walk = GrepTool.start(&call(), &args).unwrap();
    let mut asked = Vec::new();
    loop {
        match walk.next() {
            Ask::List(d) => {
                asked.push(d.clone());
                walk.listed(listing(&d));
            }
            Ask::Read(f) => {
                asked.push(f.clone());
                walk.read(content(&f));
            }
            Ask::Done => break,
        }
    }
    assert!(!asked.iter().any(|p| p.contains(".git") || p.contains("target") || p.contains(".env")));
    let out = walk.finish();
    let expected = parse(
        "{\"matches\":[{\"file\":\"/w/a.rs\",\"line\":1,\"text\":\"fn main() {}\"},\
         {\"file\":\"/w/a.rs\",\"line\":2,\"text\":\"// fn\"},\
         {\"file\":\"/w/src/b.rs\",\"line\":1,\"text\":\"let fn1 = 2;\"}],\"truncated\":false}",
    )
    .unwrap();
    assert_eq!(out.to_text(), expected.to_text());
    assert_eq!(
        GrepTool.start(&call(), &Json::object()).unwrap_err().message,
        "缺少 pattern 参数"
    );
    let bad = Json::object().with("pattern", Json::text("("));
    assert!(GrepTool.start(&call(), &bad).unwrap_err().message.starts_with("无效的正则："));
    assert!(skip_dir("node_modules"));
    assert!(!skip_dir("src"));
}

#[test]
fn a_search_is_cut_off() {
    let args = Json::object().with("pattern", Json::text("x"));
    let mut walk = GrepTool.start(&call(), &args).unwrap();
    loop {
        match walk.next() {
            Ask::List(_) => walk.listed(Some(vec![file("/w/a")])),
            Ask::Read(_) => walk.read(Some("x\n".repeat(300))),
            Ask::Done => break,
        }
    }
    let out = walk.finish();
    assert_eq!(out.array_at("matches").unwrap().len(), 200);
    assert_eq!(out.bool_at("truncated"), Some(true));
}

#[test]
fn a_list_of_files_is_cut_off() {
    let many = |n: usize| (0..n).map(|i| file(&format!("/w/f{}.rs", i))).collect::<Vec<_>>();
    let args = Json::object().with("pattern", Json::text("*.rs"));
    for (there, listed, truncated) in [(199, 199, false), (200, 200, false), (201, 200, true)] {
        let mut walk = GlobTool.start(&call(), &args).unwrap();
        while let Ask::List(_) = walk.next() {
            walk.listed(Some(many(there)));
        }
        let out = walk.finish();
        assert_eq!(out.array_at("files").unwrap().len(), listed);
        assert_eq!(out.bool_at("truncated"), Some(truncated));
    }
}

#[test]
fn files_are_listed_by_pattern() {
    let args = Json::object().with("pattern", Json::text("src/*.rs"));
    let mut walk = GlobTool.start(&call(), &args).unwrap();
    loop {
        match walk.next() {
            Ask::List(d) => walk.listed(listing(&d)),
            Ask::Read(_) => panic!("nothing is read"),
            Ask::Done => break,
        }
    }
    assert_eq!(walk.finish().to_text(), "{\"files\":[\"src/b.rs\"],\"truncated\":false}");

    let args = Json::object().with("pattern", Json::text("*.rs"));
    let mut walk = GlobTool.start(&call(), &args).unwrap();
    while let Ask::List(d) = walk.next() {
        walk.listed(listing(&d));
    }
    assert_eq!(
        walk.finish().to_text(),
        "{\"files\":[\"a.rs\",\"src/b.rs\"],\"truncated\":false}"
    );
    let bad = Json::object().with("pattern", Json::text("***"));
    assert!(GlobTool.start(&call(), &bad).unwrap_err().message.starts_with("无效的 glob："));
    assert!(GlobTool.start(&call(), &Json::object()).is_err());
}

#[test]
fn pages_are_turned_into_text() {
    let p = WebPatterns::compile().unwrap();
    let html = "<html><script>var x = 1;</script><style>b{}</style><!-- c -->\
                <p>A &amp; B&nbsp;&lt;x&gt;</p>\t <b>bold</b></html>";
    assert_eq!(p.html_to_text(html), "A & B <x> bold");
    assert_eq!(decode_entities("&amp;lt; &quot;&#39;&apos;"), "< \"''");
    let page = "<a class=\"result__a\" rel=\"x\" href=\"http://u\">T <b>1</b></a>\
                <a class=\"result__a\" href=\"http://v\">Two</a>";
    assert_eq!(
        p.parse_ddg_results(page).to_text(),
        "[{\"title\":\"T 1\",\"url\":\"http://u\"},{\"title\":\"Two\",\"url\":\"http://v\"}]"
    );
    let many = "<a class=\"result__a\" href=\"u\">t</a>".repeat(12);
    assert_eq!(p.parse_ddg_results(&many).as_array().unwrap().len(), 8);
}

#[test]
fn pages_are_fetched_and_searched_for() {
    let p = WebPatterns::compile().unwrap();
    let args = parse("{\"url\":\"http://u\",\"query\":\"a b+é~\"}").unwrap();
    assert_eq!(WebFetchTool.plan(&args).unwrap(), "http://u");
    assert_eq!(WebFetchTool.plan(&Json::object()).unwrap_err().message, "缺少 url 参数");
    let out = WebFetchTool.finish(&p, "http://u", true, "200 OK", "<p>hi</p>").unwrap();
    assert_eq!(out.to_text(), "{\"text\":\"hi\",\"url\":\"http://u\"}");
    let long = "y".repeat(9000);
    let out = WebFetchTool.finish(&p, "u", true, "200 OK", &long).unwrap();
    assert_eq!(out.str_at("text").unwrap().chars().count(), 8001);
    let err = WebFetchTool.finish(&p, "http://u", false, "404 Not Found", "").unwrap_err();
    assert_eq!(err.message, "HTTP 404 Not Found");
    assert_eq!(WebFetchTool.fetch_failed("x").message, "抓取失败：x");
    assert_eq!(WebSearchTool.search_failed("x").message, "搜索失败：x");
    assert_eq!(
        WebSearchTool.plan(&args).unwrap(),
        (
            "a b+é~".to_string(),
            "https://html.duckduckgo.com/html/?q=a%20b%2B%C3%A9~".to_string()
        )
    );
    assert_eq!(WebSearchTool.plan(&Json::object()).unwrap_err().message, "缺少 query 参数");
    let out = WebSearchTool.finish(&p, "q", "");
    assert_eq!(out.to_text(), "{\"query\":\"q\",\"results\":[]}");
    assert_eq!(url_encode("AZaz09-_.~ /"), "AZaz09-_.~%20%2F");
    assert!(user_agent().contains("rh-harness"));
}

#[test]
fn plugins_are_bridged() {
    assert!(is_library("a.so"));
    assert!(!is_library(".so"));
    assert!(is_library("a.dylib"));
    assert!(is_library("a.dll"));
    assert!(!is_library("a.txt"));
    assert!(!is_library("so"));
    let names: Vec<String> = ["b.so", "notes.md", "a.so"].iter().map(|s| s.to_string()).collect();
    assert_eq!(load_order(&names), vec!["a.so", "b.so"]);

    let mut registry: ToolRegistry<AnyTool> = ToolRegistry::new();
    let kept = load_plugin(&mut registry, Some(echo_tools().to_text())).unwrap();
    assert_eq!(kept.len(), 1);
    assert!(matches!(registry.get("echo"), Some(AnyTool::Plugin(_))));
    assert_eq!(load_plugin(&mut registry, None).unwrap_err(), "插件返回空指针");
    assert!(load_plugin(&mut registry, Some("{}".to_string())).is_err());
    assert!(load_plugin(&mut registry, Some("[".to_string())).is_err());
    assert_eq!(load_plugin(&mut registry, Some("[{}]".to_string())).unwrap().len(), 0);

    let tool = read_descriptors(&echo_tools().to_text()).unwrap().remove(0);
    let answer = echo_call("echo", "{\"text\":\"hi\"}").to_text();
    assert_eq!(tool.finish(&Ok(answer)).unwrap().to_text(), "{\"content\":\"hi\"}");
    assert!(tool.finish(&Ok("nope".to_string())).is_err());
    assert_eq!(tool.finish(&Err("x".to_string())).unwrap_err().message, "x");
    assert_eq!(echo_call("other", "").str_at("error"), Some("unknown tool: other"));
    assert_eq!(echo_call("echo", "no json").str_at("content"), Some(""));
    assert_eq!(plugin_string(Some("x".to_string())).unwrap(), "x");
    assert_eq!(load_failed("/p", "e"), "加载插件 /p 失败：e");
    assert_eq!(symbol_missing("/p", "rh_plugin_call", "e"), "插件 /p 缺少 rh_plugin_call：e");
}

#[derive(Debug, PartialEq)]
struct FakeShell(Vec<String>);

impl Shell for FakeShell {
    fn run(mut self, command: &str, cwd: &str) -> (Self, Result<CommandOutput, ToolError>) {
        self.0.push(command.to_string());
        if command == "fail" {
            return (self, Err(ToolError::execution("no shell")));
        }
        let out = CommandOutput {
            stdout: format!("{cwd}$ {command}"),
            stderr: String::new(),
            exit_code: Some(0),
        };
        (self, Ok(out))
    }
}

#[derive(Debug, PartialEq)]
struct FakeFiles(Vec<String>);

impl FileSystem for FakeFiles {
    fn read(&self, path: &str) -> Result<String, ToolError> {
        if path == "/w/a" {
            Ok("text".to_string())
        } else {
            Err(ToolError::execution("gone"))
        }
    }

    fn write(mut self, path: &str, _content: &str) -> (Self, Result<(), ToolError>) {
        self.0.push(path.to_string());
        (self, Ok(()))
    }
}

#[test]
fn commands_and_files_go_through_their_services() {
    let args = parse("{\"command\":\"ls\",\"path\":\"a\",\"content\":\"é\"}").unwrap();
    let (shell, out) = BashTool.run(&call(), None, Some(FakeShell(vec![])), &args);
    assert_eq!(out.unwrap().str_at("stdout"), Some("/w$ ls"));
    let fail = Json::object().with("command", Json::text("fail"));
    let (shell, out) = BashTool.run(&call(), None, shell, &fail);
    assert_eq!(out.unwrap_err().message, "no shell");
    assert_eq!(shell.unwrap().0, vec!["ls", "fail"]);
    let none: Option<FakeShell> = None;
    assert_eq!(
        BashTool.run(&call(), None, none, &args).1.unwrap_err().kind,
        ToolErrorKind::MissingService
    );
    let files = FakeFiles(vec![]);
    let out = FsReadTool.run(&call(), Some(&files), &args).unwrap();
    assert_eq!(out.to_text(), "{\"content\":\"text\",\"path\":\"/w/a\"}");
    let other = Json::object().with("path", Json::text("b"));
    assert!(FsReadTool.run(&call(), Some(&files), &other).is_err());
    let (files, out) = FsWriteTool.run(&call(), None, Some(files), &args);
    assert_eq!(out.unwrap().to_text(), "{\"path\":\"/w/a\",\"written\":2}");
    assert_eq!(files.unwrap().0, vec!["/w/a"]);
}

#[test]
fn a_planning_session_runs_and_writes_nothing() {
    let mut ids = Ids::new();
    let mut store = store(&mut ids);
    store.get_mut("sess-0").unwrap().set_work_mode("plan");
    let args = parse("{\"command\":\"ls\",\"path\":\"a\",\"content\":\"x\"}").unwrap();
    let (shell, out) = BashTool.run(&call(), Some(&store), Some(FakeShell(vec![])), &args);
    assert_eq!(out.unwrap_err().message, "plan 模式下禁止执行命令");
    assert_eq!(shell, Some(FakeShell(vec![])));
    let (files, out) = FsWriteTool.run(&call(), Some(&store), Some(FakeFiles(vec![])), &args);
    assert_eq!(out.unwrap_err().message, "plan 模式下禁止写文件");
    assert_eq!(files, Some(FakeFiles(vec![])));
}

#[test]
fn searches_stay_in_the_workspace() {
    let there = |at: &str| match at {
        "/w" => Some(vec![dir("/w/src")]),
        "/w/src" => Some(vec![file("/w/src/a.ts"), file("/w/src/a.txt")]),
        _ => None,
    };
    let args = parse("{\"pattern\":\"foo\",\"path\":\"src\"}").unwrap();
    let mut walk = GrepTool.start(&call(), &args).unwrap();
    loop {
        match walk.next() {
            Ask::List(d) => walk.listed(there(&d)),
            Ask::Read(f) => walk.read((f == "/w/src/a.txt").then(|| "foo\n".to_string())),
            Ask::Done => break,
        }
    }
    assert_eq!(
        walk.finish().to_text(),
        "{\"matches\":[{\"file\":\"/w/src/a.txt\",\"line\":1,\"text\":\"foo\"}],\"truncated\":false}"
    );
    let args = Json::object().with("pattern", Json::text("src/*.ts"));
    let mut walk = GlobTool.start(&call(), &args).unwrap();
    while let Ask::List(d) = walk.next() {
        walk.listed(there(&d));
    }
    assert_eq!(walk.finish().to_text(), "{\"files\":[\"src/a.ts\"],\"truncated\":false}");
}

#[test]
fn a_tool_streams_what_it_gave() {
    let items = BashTool.execute(Some(Ok(Json::number(1))));
    assert_eq!(items.len(), 1);
    assert!(matches!(&items[0], ToolStreamItem::Terminal(Ok(j)) if j.to_text() == "1"));
    let items = GrepTool.execute(None);
    assert_eq!(items.len(), 1);
    match &items[0] {
        ToolStreamItem::Terminal(Err(e)) => {
            assert_eq!(e.kind, ToolErrorKind::NotImplemented);
            assert_eq!(e.message, "tool `grep` implements neither `run` nor `execute`");
        }
        _ => panic!("not one result"),
    }
}

#[test]
fn the_output_of_a_command_is_decoded() {
    let out = CommandOutput::decoded(&b"a\xffb".to_vec(), &"é".as_bytes().to_vec(), Some(-1));
    assert_eq!(out.stdout, "a\u{fffd}b");
    assert_eq!(out.stderr, "é");
    assert_eq!(
        out.to_json().to_text(),
        "{\"exit_code\":-1,\"stderr\":\"é\",\"stdout\":\"a\u{fffd}b\"}"
    );
}

#[test]
fn links_are_made_of_groups() {
    let matches = vec![
        vec![Some("whole".to_string()), Some("u".to_string()), Some("t".to_string())],
        vec![Some("whole".to_string()), None],
    ];
    let links = links_of(&matches);
    assert_eq!(links[0], ("u".to_string(), "t".to_string()));
    assert_eq!(links[1], (String::new(), String::new()));
}

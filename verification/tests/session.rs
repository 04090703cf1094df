//! Sessions: the log, its projection, the todo list, the store and the record.
use rh::json::{parse, Json};
use rh::session::event::{ContentBlock, Role, SessionEvent};
use rh::session::ids::{next_call_id, next_id, IdKind, Ids};
use rh::session::log::{default_workspace, text_of, Session};
use rh::session::record::read_record;
use rh::session::store::SessionStore;
use rh::session::task::{parse_status, status_text, TaskStatus};
use rh::session::workspace::workspace_context;

fn text(s: &str) -> ContentBlock {
    ContentBlock::Text { text: s.to_string() }
}

fn user(id: &str, s: &str) -> SessionEvent {
    SessionEvent::UserMessage { message_id: id.to_string(), content: vec![text(s)] }
}

#[test]
fn derive_messages_projects_model_history_from_the_log() {
    let mut session = Session::new("s", false, "/home/u", 1);
    session.append(SessionEvent::UserMessage {
        message_id: "m1".into(),
        content: vec![ContentBlock::Text { text: "hello".into() }],
    });
    session.append(SessionEvent::AssistantMessage {
        message_id: "m2".into(),
        content: vec![
            ContentBlock::Text { text: "hi".into() },
            ContentBlock::ToolCall {
                id: "c1".into(),
                name: "bash".into(),
                arguments: Json::object(),
            },
        ],
    });
    session.append(SessionEvent::ToolResult {
        tool_call_id: "c1".into(),
        output: Json::text("ok"),
        is_error: false,
    });

    let messages = session.derive_messages(Some("sys"));

    assert_eq!(messages.len(), 4);
    assert_eq!(messages[0].role, Role::System);
    assert_eq!(messages[1].role, Role::User);
    assert_eq!(messages[2].role, Role::Assistant);
    assert!(matches!(messages[2].content[1], ContentBlock::ToolCall { .. }));
    assert_eq!(messages[3].role, Role::Tool);
}

#[test]
fn fork_copies_the_log() {
    let mut session = Session::new("a", false, "/home/u", 1);
    session.append(SessionEvent::UserMessage {
        message_id: "m1".into(),
        content: vec![ContentBlock::Text { text: "x".into() }],
    });
    let fork = session.fork("b", "/home/u", 2);
    assert_eq!(fork.id(), "b");
    assert_eq!(fork.len(), 1);
}

#[test]
fn tasks_and_export() {
    let mut ids = Ids::new();
    let mut session = Session::new("t", false, "/home/u", 1);
    session.add_task(&mut ids, "写文档");
    let item = session.add_task(&mut ids, "写测试");
    session.set_task_done(&item.id, true);
    assert_eq!(session.tasks().len(), 2);

    session.append(SessionEvent::UserMessage {
        message_id: "m1".into(),
        content: vec![ContentBlock::Text { text: "你好".into() }],
    });

    let md = session.to_markdown();
    assert!(md.contains("**你**：你好"));
    assert!(md.contains("- [x] 写测试"));

    let json = session.to_json();
    assert!(json.contains("\"tasks\""));
}

#[test]
fn persistent_store_roundtrip() {
    let mut files: Vec<(String, Option<String>)> = Vec::new();
    let mut ids = Ids::new();
    {
        let mut store = SessionStore::persistent("/data", &files, false, "/home/u");
        let created = store.create(&mut ids, "我的会话", 1);
        let session = store.get_mut(&created.id).unwrap();
        session.add_task(&mut ids, "任务一");
        session.append(SessionEvent::UserMessage {
            message_id: "m1".into(),
            content: vec![ContentBlock::Text { text: "hi".into() }],
        });
        let save = store.save(store.get(&created.id).unwrap()).unwrap();
        assert_eq!(save.path, "/data/sess-0.json");
        files.push(("sess-0.json".to_string(), Some(save.text)));
    }
    {
        let mut store = SessionStore::persistent("/data", &files, false, "/home/u");
        let metas = store.list();
        assert_eq!(metas.len(), 1);
        assert_eq!(metas[0].title, "我的会话");
        let session = store.get(&metas[0].id).unwrap();
        assert_eq!(session.len(), 1);
        assert_eq!(session.tasks().len(), 1);
        assert_eq!(store.remove(&metas[0].id), Some("/data/sess-0.json".to_string()));
        assert!(store.get(&metas[0].id).is_none());
    }
}

#[test]
fn files_that_are_no_sessions_are_passed_over() {
    let files = vec![
        ("notes.txt".to_string(), Some("{}".to_string())),
        ("broken.json".to_string(), Some("{".to_string())),
        ("unread.json".to_string(), None),
        ("old.json".to_string(), Some("{\"id\":\"s1\",\"title\":\"t\",\"created_at\":5,\"events\":[],\"tasks\":[]}".to_string())),
        ("short.json".to_string(), Some("{\"id\":\"s2\",\"title\":\"t\",\"created_at\":5}".to_string())),
    ];
    let store = SessionStore::persistent("/data", &files, true, "/home/u");
    let metas = store.list();
    assert_eq!(metas.len(), 1);
    let session = store.get("s1").unwrap();
    assert_eq!(session.title(), "t");
    assert_eq!(session.created_at(), 5);
    assert!(session.is_empty());
    assert_eq!(session.workspace(), "/home/u/.rh/workspaces/s1");
}

#[test]
fn the_markdown_of_a_session() {
    let mut ids = Ids::new();
    let mut s = Session::with_title("s", "T", false, "/h", 1);
    s.append(SessionEvent::TurnStart { turn_id: "t".into() });
    s.append(user("m", "hi"));
    s.append(SessionEvent::AssistantMessage { message_id: "n".into(), content: vec![] });
    s.append(SessionEvent::ToolCall {
        tool_call_id: "c".into(),
        tool_name: "bash".into(),
        arguments: Json::object().with("command", Json::text("ls")),
    });
    s.append(SessionEvent::ToolResult {
        tool_call_id: "c".into(),
        output: Json::number(3),
        is_error: true,
    });
    s.append(SessionEvent::AssistantMessage { message_id: "o".into(), content: vec![text("a"), text("b")] });
    assert_eq!(
        s.to_markdown(),
        "# T\n\n**你**：hi\n\n**工具调用** `bash`：`{\"command\":\"ls\"}`\n  ✗ 结果：`3`\n\n**助手**：a\nb\n\n"
    );
    s.add_task(&mut ids, "x");
    assert!(s.to_markdown().ends_with("\n## 任务\n\n- [ ] x\n"));
}

#[test]
fn a_record_reads_back() {
    let mut ids = Ids::new();
    let mut s = Session::with_title("s", "标题", false, "/h", 77);
    s.append(user("m", "a \"quoted\" line\n"));
    s.append(SessionEvent::ToolResult {
        tool_call_id: "c".into(),
        output: parse("{\"n\":-3,\"f\":1.5,\"l\":[true,null]}").unwrap(),
        is_error: false,
    });
    s.append(SessionEvent::ReasoningChunk { message_id: "r".into(), text: "hm".into() });
    s.append(SessionEvent::WorkflowStep { mode: "plan".into(), step: "design".into() });
    s.add_task(&mut ids, "x");
    s.set_work_mode("plan");
    s.set_workflow_phase("design");
    s.set_workspace("/w");
    let back = Session::from_record(read_record(&s.to_json()).unwrap(), false, "/other");
    assert_eq!(back.to_json(), s.to_json());
    assert_eq!(back.workspace(), "/w");
    assert_eq!(back.work_mode(), "plan");
    assert_eq!(back.workflow_phase(), "design");
    assert_eq!(back.len(), 4);
    assert!(read_record("[]").is_none());
    assert!(read_record("{\"id\":1}").is_none());
}

#[test]
fn a_tool_call_joins_the_last_assistant_message() {
    let mut s = Session::new("s", false, "/h", 1);
    s.append(SessionEvent::AssistantMessage { message_id: "m".into(), content: vec![text("x")] });
    s.append(SessionEvent::AssistantChunk { message_id: "m".into(), text: "unseen".into() });
    s.append(SessionEvent::ToolCall {
        tool_call_id: "c".into(),
        tool_name: "bash".into(),
        arguments: Json::Null,
    });
    s.append(SessionEvent::ToolResult { tool_call_id: "c".into(), output: Json::Null, is_error: false });
    s.append(SessionEvent::ToolCall {
        tool_call_id: "d".into(),
        tool_name: "bash".into(),
        arguments: Json::Null,
    });
    let ms = s.derive_messages(None);
    assert_eq!(ms.len(), 3);
    assert_eq!(ms[0].role, Role::Assistant);
    assert_eq!(ms[0].content.len(), 2);
    assert_eq!(ms[1].role, Role::Tool);
    assert_eq!(ms[2].role, Role::Assistant);
    assert_eq!(ms[2].content.len(), 1);
}

#[test]
fn a_subscriber_misses_nothing() {
    let mut s = Session::new("s", true, "/h", 1);
    let told = s.append(user("m", "a"));
    assert!(told.observed);
    assert!(matches!(told.event, SessionEvent::UserMessage { .. }));
    let mut seen = 0;
    let first = s.events_since(seen);
    seen += first.len();
    s.append(user("n", "b"));
    s.append(user("o", "c"));
    let second = s.events_since(seen);
    assert_eq!((first.len(), second.len()), (1, 2));
    assert_eq!(s.events_since(3).len(), 0);
    assert_eq!(s.events_since(9).len(), 0);
    assert_eq!(s.events().len(), 3);
}

#[test]
fn identities_count_up() {
    let mut ids = Ids::new();
    assert_eq!(next_id(&mut ids, IdKind::Session), "sess-0");
    assert_eq!(next_id(&mut ids, IdKind::Message), "msg-1");
    assert_eq!(next_id(&mut ids, IdKind::Turn), "turn-2");
    assert_eq!(next_id(&mut ids, IdKind::Step), "step-3");
    assert_eq!(next_id(&mut ids, IdKind::Task), "task-4");
    assert_eq!(next_call_id(&mut ids), "call-5");
    assert_eq!(IdKind::ToolCall.prefix(), "call");
}

#[test]
fn the_store_lists_oldest_first() {
    let mut ids = Ids::new();
    let mut store = SessionStore::new(true, "/h");
    let a = store.create(&mut ids, "late", 9);
    let b = store.create_fresh(&mut ids, 3);
    let c = store.create(&mut ids, "late too", 9);
    assert!(a.save.is_none());
    let order: Vec<String> = store.list().into_iter().map(|m| m.id).collect();
    assert_eq!(order, vec![b.id.clone(), a.id.clone(), c.id.clone()]);
    assert_eq!(store.get(&b.id).unwrap().title(), "新会话");
    assert!(store.rename(&b.id, "neu").unwrap().is_none());
    assert_eq!(store.get(&b.id).unwrap().title(), "neu");
    assert_eq!(store.rename("nope", "x").unwrap_err(), "session nope not found");
    assert_eq!(store.remove(&a.id), None);
    assert_eq!(store.list().len(), 2);
    assert_eq!(store.remove("nope"), None);
    let copy = store.get(&b.id).unwrap().fork("f", "/h", 1);
    store.insert(copy);
    assert_eq!(store.list()[0].id, "f");
}

#[test]
fn tasks_change_in_place() {
    let mut ids = Ids::new();
    let mut s = Session::new("s", false, "/h", 1);
    let a = s.add_task(&mut ids, "a");
    assert_eq!(a.status, TaskStatus::Pending);
    assert!(s.set_task_done(&a.id, true));
    assert_eq!(s.tasks()[0].status, TaskStatus::Completed);
    assert!(s.tasks()[0].done);
    assert!(s.set_task_done(&a.id, false));
    assert_eq!(s.tasks()[0].status, TaskStatus::Pending);
    assert!(!s.set_task_done("nope", true));
    s.replace_tasks(&mut ids, &vec![
        ("x".to_string(), TaskStatus::InProgress),
        ("y".to_string(), TaskStatus::Completed),
    ]);
    let tasks = s.tasks();
    assert_eq!(tasks.len(), 2);
    assert_eq!((tasks[0].id.as_str(), tasks[0].done), ("task-1", false));
    assert_eq!((tasks[1].id.as_str(), tasks[1].done), ("task-2", true));
    assert_eq!(s.meta().task_count, 2);
}

#[test]
fn statuses_have_words() {
    for status in [
        TaskStatus::Pending,
        TaskStatus::InProgress,
        TaskStatus::Completed,
        TaskStatus::Cancelled,
    ] {
        assert_eq!(parse_status(status_text(status)), status);
    }
    assert_eq!(parse_status("in_progress"), TaskStatus::InProgress);
    assert_eq!(parse_status("whatever"), TaskStatus::Pending);
}

#[test]
fn a_workspace_is_summed_up() {
    assert_eq!(default_workspace("/home/u", "s"), "/home/u/.rh/workspaces/s");
    let listing = Some(vec![
        ("b.txt".to_string(), false),
        ("a".to_string(), true),
    ]);
    assert_eq!(
        workspace_context("/w", listing, true),
        "工作区目录：/w\n目录内容：\n📁 a\n📄 b.txt\nGit 仓库：是\n"
    );
    assert_eq!(
        workspace_context("/w", Some(vec![]), false),
        "工作区目录：/w\n目录内容：\n(空)\nGit 仓库：否\n"
    );
    assert_eq!(
        workspace_context("/w", None, false),
        "工作区目录：/w\n目录内容：(不可读)\nGit 仓库：否\n"
    );
    let many: Vec<(String, bool)> = (0..60).map(|i| (format!("f{i:02}"), false)).collect();
    let out = workspace_context("/w", Some(many), false);
    assert!(out.contains("f49"));
    assert!(!out.contains("f50"));
}

#[test]
fn texts_are_joined_by_lines() {
    let content = vec![
        text("a"),
        ContentBlock::ToolCall { id: "c".into(), name: "n".into(), arguments: Json::Null },
        text("b"),
    ];
    assert_eq!(text_of(&content), "a\nb");
    assert_eq!(text_of(&vec![]), "");
}

fn nest(levels: usize) -> Json {
    let mut j = Json::text("x");
    for _ in 0..levels {
        j = Json::array(vec![j]);
    }
    j
}

#[test]
fn deeply_nested_values_are_read_back() {
    let deep = nest(127);
    assert_eq!(parse(&deep.to_text()).unwrap().to_text(), deep.to_text());
    assert_eq!(parse(&deep.to_text_pretty()).unwrap().to_text(), deep.to_text());
    assert!(parse(&nest(128).to_text()).is_err());

    let mut s = Session::new("s", false, "/h", 1);
    s.append(SessionEvent::AssistantMessage {
        message_id: "m".into(),
        content: vec![ContentBlock::ToolCall {
            id: "c".into(),
            name: "t".into(),
            arguments: nest(122),
        }],
    });
    let back = Session::from_record(read_record(&s.to_json()).unwrap(), false, "/h");
    assert_eq!(back.to_json(), s.to_json());
}

#[test]
fn a_new_session_takes_no_id_in_use() {
    let mut ids = Ids::new();
    let mut first = SessionStore::persistent("/data", &Vec::new(), false, "/h");
    let mut files = Vec::new();
    for title in ["a", "b", "c"] {
        let save = first.create(&mut ids, title, 1).save.unwrap();
        files.push((save.path.rsplit('/').next().unwrap().to_string(), Some(save.text)));
    }
    files.remove(1);
    let mut ids = Ids::new();
    let mut store = SessionStore::persistent("/data", &files, false, "/h");
    assert_eq!(store.list().len(), 2);
    let one = store.create(&mut ids, "d", 2);
    assert_eq!(one.id, "sess-1");
    let two = store.create(&mut ids, "e", 2);
    assert_eq!(two.id, "sess-3");
    assert_eq!(store.list().len(), 4);
    assert_eq!(store.get("sess-0").unwrap().title(), "a");
    assert_eq!(store.get("sess-2").unwrap().title(), "c");
    assert_eq!(store.get("sess-1").unwrap().title(), "d");
    assert!(store.get("sess-3").unwrap().is_empty());
}

#[test]
fn records_may_be_given_as_lists() {
    let text = "[\"s\",\"t\",7,[[\"user_message\",\"m\",[[\"text\",\"hi\"]]],[\"turn_end\",\"u\"]],\
                [[\"task-1\",\"x\",true]],null]";
    let s = Session::from_record(read_record(text).unwrap(), false, "/h");
    assert_eq!((s.id(), s.title().as_str(), s.created_at()), ("s", "t", 7));
    assert_eq!(s.len(), 2);
    assert!(s.tasks()[0].done);
    let back = Session::from_record(read_record(&s.to_json()).unwrap(), false, "/h");
    assert_eq!(back.to_json(), s.to_json());
    assert!(read_record("[\"s\",\"t\",7,[]]").is_none());
    assert!(read_record("[\"s\",\"t\",7,[],[],null,\"direct\",\"\",1]").is_none());
    assert!(read_record("[\"s\",\"t\",7,[[\"turn_end\",\"u\",1]],[]]").is_none());
    assert!(read_record("[\"s\",\"t\",7,[[]],[]]").is_none());
}

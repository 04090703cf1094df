//! A session: its log, its tasks, its workspace and its working mode.
use vstd::prelude::*;
use vstd::string::*;

use crate::duplicate::Duplicate;
use crate::json::json_compact;
use crate::path;
use crate::session::event::{BlockView, ContentBlock, EventView, Message, SessionEvent};
use crate::session::ids::{IdKind, Ids, after, id_text, later, next_id};
use crate::session::projection::{derived, model_history};
use crate::session::task::{TaskItem, TaskStatus, TaskView};
use crate::text::{join, joined, lemma_span_is, same, span};

verus! {

/// A session. Its log only ever grows.
#[derive(Debug)]
pub struct Session {
    id: String,
    events: Vec<SessionEvent>,
    observed: bool,
    title: String,
    tasks: Vec<TaskItem>,
    created_at: u64,
    workspace: String,
    work_mode: String,
    workflow_phase: String,
}

/// What a session stands for.
#[verifier::ext_equal]
pub struct SessionView {
    pub id: Seq<char>,
    pub log: Seq<EventView>,
    /// Whether appended events also go to the observers of the context.
    pub observed: bool,
    pub title: Seq<char>,
    pub tasks: Seq<TaskView>,
    pub created_at: u64,
    pub workspace: Seq<char>,
    pub work_mode: Seq<char>,
    pub workflow_phase: Seq<char>,
}

impl View for Session {
    type V = SessionView;

    closed spec fn view(&self) -> SessionView {
        SessionView {
            id: self.id@,
            log: self.events.deep_view(),
            observed: self.observed,
            title: self.title@,
            tasks: self.tasks.deep_view(),
            created_at: self.created_at,
            workspace: self.workspace@,
            work_mode: self.work_mode@,
            workflow_phase: self.workflow_phase@,
        }
    }
}

impl DeepView for Session {
    type V = SessionView;

    open spec fn deep_view(&self) -> SessionView {
        self@
    }
}

impl Duplicate for Session {
    fn duplicate(&self) -> (r: Self) {
        Session {
            id: self.id.clone(),
            events: self.events.duplicate(),
            observed: self.observed,
            title: self.title.clone(),
            tasks: self.tasks.duplicate(),
            created_at: self.created_at,
            workspace: self.workspace.clone(),
            work_mode: self.work_mode.clone(),
            workflow_phase: self.workflow_phase.clone(),
        }
    }
}

/// Light metadata for listing sessions.
#[derive(Debug, Clone)]
pub struct SessionMeta {
    pub id: String,
    pub title: String,
    pub created_at: u64,
    pub event_count: usize,
    pub task_count: usize,
}

/// What session metadata stands for.
pub struct MetaView {
    pub id: Seq<char>,
    pub title: Seq<char>,
    pub created_at: u64,
    pub event_count: nat,
    pub task_count: nat,
}

impl View for SessionMeta {
    type V = MetaView;

    open spec fn view(&self) -> MetaView {
        MetaView {
            id: self.id@,
            title: self.title@,
            created_at: self.created_at,
            event_count: self.event_count as nat,
            task_count: self.task_count as nat,
        }
    }
}

impl DeepView for SessionMeta {
    type V = MetaView;

    open spec fn deep_view(&self) -> MetaView {
        self@
    }
}

/// The metadata of a session.
pub open spec fn meta_of(s: SessionView) -> MetaView {
    MetaView {
        id: s.id,
        title: s.title,
        created_at: s.created_at,
        event_count: s.log.len(),
        task_count: s.tasks.len(),
    }
}

/// The durable form of a session.
#[derive(Debug, Clone)]
pub struct SessionRecord {
    pub id: String,
    pub title: String,
    pub created_at: u64,
    pub events: Vec<SessionEvent>,
    pub tasks: Vec<TaskItem>,
    pub workspace: Option<String>,
    pub work_mode: String,
    pub workflow_phase: String,
}

/// What the durable form of a session stands for.
#[verifier::ext_equal]
pub struct RecordView {
    pub id: Seq<char>,
    pub title: Seq<char>,
    pub created_at: u64,
    pub events: Seq<EventView>,
    pub tasks: Seq<TaskView>,
    pub workspace: Option<Seq<char>>,
    pub work_mode: Seq<char>,
    pub workflow_phase: Seq<char>,
}

impl View for SessionRecord {
    type V = RecordView;

    open spec fn view(&self) -> RecordView {
        RecordView {
            id: self.id@,
            title: self.title@,
            created_at: self.created_at,
            events: self.events.deep_view(),
            tasks: self.tasks.deep_view(),
            workspace: self.workspace.deep_view(),
            work_mode: self.work_mode@,
            workflow_phase: self.workflow_phase@,
        }
    }
}

/// The durable form of a session: everything but whether it is observed.
pub open spec fn record_of(s: SessionView) -> RecordView {
    RecordView {
        id: s.id,
        title: s.title,
        created_at: s.created_at,
        events: s.log,
        tasks: s.tasks,
        workspace: Some(s.workspace),
        work_mode: s.work_mode,
        workflow_phase: s.workflow_phase,
    }
}

/// The session that a record stands for.
pub open spec fn session_of(r: RecordView, observed: bool, home: Seq<char>) -> SessionView {
    SessionView {
        id: r.id,
        log: r.events,
        observed,
        title: r.title,
        tasks: r.tasks,
        created_at: r.created_at,
        workspace: (match r.workspace {
            Some(w) => w,
            None => workspace_for(home, r.id),
        }),
        work_mode: r.work_mode,
        workflow_phase: r.workflow_phase,
    }
}

/// A session rebuilt from its record is the same session.
pub proof fn lemma_record_roundtrip(s: SessionView, home: Seq<char>)
    ensures
        session_of(record_of(s), s.observed, home) == s,
{
}

/// The workspace that a session has by default: a folder of its own under the home directory.
pub open spec fn workspace_for(home: Seq<char>, id: Seq<char>) -> Seq<char> {
    path::under(path::under(path::under(home, ".rh"@), "workspaces"@), id)
}

/// The workspace that a session has by default.
pub fn default_workspace(home: &str, id: &str) -> (r: String)
    ensures
        r@ == workspace_for(home@, id@),
{
    let a = path::join(home, ".rh");
    let b = path::join(a.as_str(), "workspaces");
    path::join(b.as_str(), id)
}

/// A new session.
pub open spec fn fresh(
    id: Seq<char>,
    title: Seq<char>,
    observed: bool,
    home: Seq<char>,
    now: u64,
) -> SessionView {
    SessionView {
        id,
        log: Seq::empty(),
        observed,
        title,
        tasks: Seq::empty(),
        created_at: now,
        workspace: workspace_for(home, id),
        work_mode: "direct"@,
        workflow_phase: ""@,
    }
}

/// A new session over the log of another, with a workspace of its own.
pub open spec fn forked(s: SessionView, id: Seq<char>, home: Seq<char>, now: u64) -> SessionView {
    SessionView { id, created_at: now, workspace: workspace_for(home, id), ..s }
}

/// An appended event on its way to the live subscribers and, where the session is observed, to
/// the observers of the context.
#[derive(Debug)]
pub struct Broadcast {
    pub event: SessionEvent,
    pub observed: bool,
}

/// What is new in a log for one who saw the first `seen` events.
pub open spec fn news(log: Seq<EventView>, seen: nat) -> Seq<EventView> {
    if seen < log.len() {
        log.skip(seen as int)
    } else {
        Seq::empty()
    }
}

/// A subscriber that asks for what is new, again and again while the log grows, is told every
/// event, once and in order.
pub proof fn lemma_nothing_is_missed(log: Seq<EventView>, more: Seq<EventView>, seen: nat)
    requires
        seen <= log.len(),
    ensures
        log.take(seen as int) + news(log, seen) == log,
        news(log, seen) + news(log + more, log.len()) == news(log + more, seen),
{
    assert(log.take(seen as int) + news(log, seen) =~= log);
    assert(news(log, seen) + news(log + more, log.len()) =~= news(log + more, seen));
}

/// The texts among content blocks.
pub open spec fn texts(content: Seq<BlockView>) -> Seq<Seq<char>>
    decreases content.len(),
{
    if content.len() == 0 {
        Seq::empty()
    } else {
        match content.last() {
            BlockView::Text { text } => texts(content.drop_last()).push(text),
            _ => texts(content.drop_last()),
        }
    }
}

/// The texts among content blocks, one to a line.
pub open spec fn text_lines(content: Seq<BlockView>) -> Seq<char> {
    joined(texts(content), "\n"@)
}

/// The texts among content blocks.
pub fn text_parts(content: &Vec<ContentBlock>) -> (parts: Vec<String>)
    ensures
        parts.deep_view() == texts(content.deep_view()),
{
    let mut parts: Vec<String> = Vec::new();
    let ghost all = content.deep_view();
    let mut i: usize = 0;
    assert(parts.deep_view() =~= texts(all.take(0)));
    while i < content.len()
        invariant
            i <= content@.len(),
            all == content.deep_view(),
            parts.deep_view() == texts(all.take(i as int)),
        decreases content@.len() - i,
    {
        let ghost before = parts.deep_view();
        proof {
            assert(all.take(i + 1).drop_last() =~= all.take(i as int));
            assert(all.take(i + 1).last() == content@[i as int]@);
        }
        match &content[i] {
            ContentBlock::Text { text } => {
                parts.push(text.clone());
                assert(parts.deep_view() =~= before.push(text@));
            },
            _ => {},
        }
        i = i + 1;
    }
    assert(all.take(i as int) =~= all);
    parts
}

/// The texts among content blocks, one to a line.
pub fn text_of(content: &Vec<ContentBlock>) -> (r: String)
    ensures
        r@ == text_lines(content.deep_view()),
{
    let parts = text_parts(content);
    join(&parts, "\n")
}

/// The Markdown of one event.
pub open spec fn event_markdown(e: EventView) -> Seq<char> {
    match e {
        EventView::UserMessage { content, .. } => if text_lines(content).len() > 0 {
            "**你**："@ + text_lines(content) + "\n\n"@
        } else {
            Seq::empty()
        },
        EventView::AssistantMessage { content, .. } => if text_lines(content).len() > 0 {
            "**助手**："@ + text_lines(content) + "\n\n"@
        } else {
            Seq::empty()
        },
        EventView::ToolCall { tool_name, arguments, .. } => "**工具调用** `"@ + tool_name
            + "`：`"@ + json_compact(arguments) + "`\n"@,
        EventView::ToolResult { output, is_error, .. } => "  "@ + (if is_error {
            "✗"@
        } else {
            "✓"@
        }) + " 结果：`"@ + json_compact(output) + "`\n\n"@,
        _ => Seq::empty(),
    }
}

/// The Markdown of a log.
pub open spec fn log_markdown(log: Seq<EventView>) -> Seq<char>
    decreases log.len(),
{
    if log.len() == 0 {
        Seq::empty()
    } else {
        log_markdown(log.drop_last()) + event_markdown(log.last())
    }
}

/// The Markdown of one task.
pub open spec fn task_markdown(t: TaskView) -> Seq<char> {
    "- "@ + (if t.done {
        "[x]"@
    } else {
        "[ ]"@
    }) + " "@ + t.title + "\n"@
}

/// The Markdown of a todo list.
pub open spec fn tasks_markdown(tasks: Seq<TaskView>) -> Seq<char>
    decreases tasks.len(),
{
    if tasks.len() == 0 {
        Seq::empty()
    } else {
        tasks_markdown(tasks.drop_last()) + task_markdown(tasks.last())
    }
}

/// The transcript of a session as Markdown.
pub open spec fn markdown(s: SessionView) -> Seq<char> {
    "# "@ + s.title + "\n\n"@ + log_markdown(s.log) + (if s.tasks.len() > 0 {
        "\n## 任务\n\n"@ + tasks_markdown(s.tasks)
    } else {
        Seq::empty()
    })
}

fn push_event_markdown(out: &mut String, event: &SessionEvent)
    ensures
        final(out)@ == old(out)@ + event_markdown(event@),
{
    let ghost before = out@;
    match event {
        SessionEvent::UserMessage { content, .. } => {
            let text = text_of(content);
            if !text.as_str().is_empty() {
                out.append("**你**：");
                out.append(text.as_str());
                out.append("\n\n");
            }
        },
        SessionEvent::AssistantMessage { content, .. } => {
            let text = text_of(content);
            if !text.as_str().is_empty() {
                out.append("**助手**：");
                out.append(text.as_str());
                out.append("\n\n");
            }
        },
        SessionEvent::ToolCall { tool_name, arguments, .. } => {
            out.append("**工具调用** `");
            out.append(tool_name.as_str());
            out.append("`：`");
            let text = arguments.to_text();
            out.append(text.as_str());
            out.append("`\n");
        },
        SessionEvent::ToolResult { output, is_error, .. } => {
            out.append("  ");
            out.append(if *is_error { "✗" } else { "✓" });
            out.append(" 结果：`");
            let text = output.to_text();
            out.append(text.as_str());
            out.append("`\n\n");
        },
        _ => {},
    }
    assert(out@ =~= before + event_markdown(event@));
}

fn push_task_markdown(out: &mut String, task: &TaskItem)
    ensures
        final(out)@ == old(out)@ + task_markdown(task@),
{
    let ghost before = out@;
    out.append("- ");
    out.append(if task.done { "[x]" } else { "[ ]" });
    out.append(" ");
    out.append(task.title.as_str());
    out.append("\n");
    assert(out@ =~= before + task_markdown(task@));
}

/// The identities of tasks.
pub open spec fn task_ids(tasks: Seq<TaskView>) -> Seq<Seq<char>> {
    Seq::new(tasks.len(), |i: int| tasks[i].id)
}

/// The todo list with the first task of the given identity marked.
pub open spec fn with_done(tasks: Seq<TaskView>, id: Seq<char>, done: bool) -> Seq<TaskView> {
    let i = span(task_ids(tasks), id) as int;
    if i < tasks.len() {
        tasks.update(
            i,
            TaskView {
                done,
                status: (if done {
                    TaskStatus::Completed
                } else {
                    TaskStatus::Pending
                }),
                ..tasks[i]
            },
        )
    } else {
        tasks
    }
}

/// A todo list made of titles and statuses, with identities from `n` on.
pub open spec fn task_list(items: Seq<(Seq<char>, TaskStatus)>, n: u64) -> Seq<TaskView> {
    Seq::new(
        items.len(),
        |i: int|
            TaskView {
                id: id_text(IdKind::Task, later(n, i as nat)),
                title: items[i].0,
                done: items[i].1 == TaskStatus::Completed,
                status: items[i].1,
            },
    )
}

/// Titles and statuses as they stand.
pub open spec fn item_views(items: Seq<(String, TaskStatus)>) -> Seq<(Seq<char>, TaskStatus)> {
    Seq::new(items.len(), |i: int| (items[i].0@, items[i].1))
}

impl Session {
    /// A new session with the default title.
    pub fn new(id: &str, observed: bool, home: &str, now: u64) -> (r: Session)
        ensures
            r@ == fresh(id@, "新会话"@, observed, home@, now),
    {
        Session::with_title(id, "新会话", observed, home, now)
    }

    /// A new session with the given title.
    pub fn with_title(id: &str, title: &str, observed: bool, home: &str, now: u64) -> (r: Session)
        ensures
            r@ == fresh(id@, title@, observed, home@, now),
    {
        let r = Session {
            id: id.to_owned(),
            events: Vec::new(),
            observed,
            title: title.to_owned(),
            tasks: Vec::new(),
            created_at: now,
            workspace: default_workspace(home, id),
            work_mode: "direct".to_owned(),
            workflow_phase: "".to_owned(),
        };
        assert(r@ =~= fresh(id@, title@, observed, home@, now));
        r
    }

    /// Rebuilds a session from its record.
    pub fn from_record(record: SessionRecord, observed: bool, home: &str) -> (r: Session)
        ensures
            r@ == session_of(record@, observed, home@),
    {
        let workspace = match record.workspace {
            Some(w) => w,
            None => default_workspace(home, record.id.as_str()),
        };
        Session {
            id: record.id,
            events: record.events,
            observed,
            title: record.title,
            tasks: record.tasks,
            created_at: record.created_at,
            workspace,
            work_mode: record.work_mode,
            workflow_phase: record.workflow_phase,
        }
    }

    pub fn id(&self) -> (r: &str)
        ensures
            r@ == self@.id,
    {
        self.id.as_str()
    }

    pub fn title(&self) -> (r: String)
        ensures
            r@ == self@.title,
    {
        self.title.clone()
    }

    pub fn set_title(&mut self, title: &str)
        ensures
            final(self)@ == (SessionView { title: title@, ..old(self)@ }),
    {
        self.title = title.to_owned();
    }

    pub fn created_at(&self) -> (r: u64)
        ensures
            r == self@.created_at,
    {
        self.created_at
    }

    pub fn tasks(&self) -> (r: Vec<TaskItem>)
        ensures
            r.deep_view() == self@.tasks,
    {
        self.tasks.duplicate()
    }

    /// Adds a task that is still to do and returns it.
    pub fn add_task(&mut self, ids: &mut Ids, title: &str) -> (r: TaskItem)
        ensures
            r@ == (TaskView {
                id: id_text(IdKind::Task, old(ids).at()),
                title: title@,
                done: false,
                status: TaskStatus::Pending,
            }),
            final(self)@ == (SessionView { tasks: old(self)@.tasks.push(r@), ..old(self)@ }),
            final(ids).at() == after(old(ids).at()),
    {
        let ghost before = self@;
        let item = TaskItem {
            id: next_id(ids, IdKind::Task),
            title: title.to_owned(),
            done: false,
            status: TaskStatus::Pending,
        };
        let copy = item.duplicate();
        self.tasks.push(item);
        assert(self.tasks.deep_view() =~= before.tasks.push(copy@));
        copy
    }

    /// Marks the task of the given identity; tells whether there is one.
    pub fn set_task_done(&mut self, id: &str, done: bool) -> (r: bool)
        ensures
            r == (span(task_ids(old(self)@.tasks), id@) < old(self)@.tasks.len()),
            final(self)@ == (SessionView {
                tasks: with_done(old(self)@.tasks, id@, done),
                ..old(self)@
            }),
    {
        let ghost before = self@;
        let ghost names = task_ids(before.tasks);
        let mut i: usize = 0;
        while i < self.tasks.len()
            invariant
                i <= self.tasks@.len(),
                self@ == before,
                before == old(self)@,
                names == task_ids(before.tasks),
                forall|j: int| 0 <= j < i ==> names[j] != id@,
            decreases self.tasks@.len() - i,
        {
            assert(names[i as int] == self.tasks@[i as int].id@);
            if same(self.tasks[i].id.as_str(), id) {
                proof {
                    lemma_span_is(names, id@, i as int);
                }
                let mut item = self.tasks[i].duplicate();
                item.done = done;
                item.status = if done { TaskStatus::Completed } else { TaskStatus::Pending };
                self.tasks.set(i, item);
                assert(self.tasks.deep_view() =~= with_done(before.tasks, id@, done));
                return true;
            }
            i = i + 1;
        }
        proof {
            lemma_span_is(names, id@, i as int);
        }
        false
    }

    /// Replaces the todo list.
    pub fn replace_tasks(&mut self, ids: &mut Ids, items: &Vec<(String, TaskStatus)>)
        ensures
            final(self)@ == (SessionView {
                tasks: task_list(item_views(items@), old(ids).at()),
                ..old(self)@
            }),
            final(ids).at() == later(old(ids).at(), items@.len()),
    {
        let ghost n = ids.at();
        let ghost wanted = task_list(item_views(items@), n);
        let mut tasks: Vec<TaskItem> = Vec::new();
        let mut i: usize = 0;
        while i < items.len()
            invariant
                i <= items@.len(),
                wanted == task_list(item_views(items@), n),
                ids.at() == later(n, i as nat),
                tasks.deep_view() == wanted.take(i as int),
            decreases items@.len() - i,
        {
            let ghost before = tasks.deep_view();
            let item = TaskItem {
                id: next_id(ids, IdKind::Task),
                title: items[i].0.clone(),
                done: items[i].1 == TaskStatus::Completed,
                status: items[i].1,
            };
            assert(item@ == wanted[i as int]);
            tasks.push(item);
            assert(tasks.deep_view() =~= before.push(wanted[i as int]));
            assert(wanted.take(i + 1) =~= wanted.take(i as int).push(wanted[i as int]));
            i = i + 1;
        }
        assert(wanted.take(i as int) =~= wanted);
        self.tasks = tasks;
    }

    /// The root of the session's workspace.
    pub fn workspace(&self) -> (r: String)
        ensures
            r@ == self@.workspace,
    {
        self.workspace.clone()
    }

    /// Points the session at another workspace folder.
    pub fn set_workspace(&mut self, root: &str) -> (r: String)
        ensures
            r@ == root@,
            final(self)@ == (SessionView { workspace: root@, ..old(self)@ }),
    {
        self.workspace = root.to_owned();
        self.workspace.clone()
    }

    /// The mode in which the session works.
    pub fn work_mode(&self) -> (r: String)
        ensures
            r@ == self@.work_mode,
    {
        self.work_mode.clone()
    }

    pub fn set_work_mode(&mut self, mode: &str)
        ensures
            final(self)@ == (SessionView { work_mode: mode@, ..old(self)@ }),
    {
        self.work_mode = mode.to_owned();
    }

    /// The phase of the workflow that the session has reached.
    pub fn workflow_phase(&self) -> (r: String)
        ensures
            r@ == self@.workflow_phase,
    {
        self.workflow_phase.clone()
    }

    pub fn set_workflow_phase(&mut self, phase: &str)
        ensures
            final(self)@ == (SessionView { workflow_phase: phase@, ..old(self)@ }),
    {
        self.workflow_phase = phase.to_owned();
    }

    /// Appends an event to the log and hands out what is to be broadcast: the very event.
    pub fn append(&mut self, event: SessionEvent) -> (r: Broadcast)
        ensures
            final(self)@ == (SessionView { log: old(self)@.log.push(event@), ..old(self)@ }),
            r.event@ == event@,
            r.observed == old(self)@.observed,
    {
        let ghost before = self@;
        let copy = event.duplicate();
        self.events.push(event);
        assert(self.events.deep_view() =~= before.log.push(event@));
        Broadcast { event: copy, observed: self.observed }
    }

    /// A snapshot of the log, oldest first.
    pub fn events(&self) -> (r: Vec<SessionEvent>)
        ensures
            r.deep_view() == self@.log,
    {
        self.events.duplicate()
    }

    /// The events from the given place in the log on: what a live subscriber that saw the ones
    /// before is still to be told.
    pub fn events_since(&self, seen: usize) -> (r: Vec<SessionEvent>)
        ensures
            r.deep_view() == news(self@.log, seen as nat),
    {
        let ghost log = self@.log;
        let mut out: Vec<SessionEvent> = Vec::new();
        let start: usize = if seen < self.events.len() {
            seen
        } else {
            self.events.len()
        };
        let mut i: usize = start;
        while i < self.events.len()
            invariant
                start <= i <= self.events@.len(),
                log == self.events.deep_view(),
                out.deep_view() == log.subrange(start as int, i as int),
            decreases self.events@.len() - i,
        {
            let ghost before = out.deep_view();
            out.push(self.events[i].duplicate());
            assert(out.deep_view() =~= before.push(log[i as int]));
            assert(log.subrange(start as int, i + 1) =~= before.push(log[i as int]));
            i = i + 1;
        }
        assert(out.deep_view() =~= news(log, seen as nat));
        out
    }

    /// The number of events in the log.
    pub fn len(&self) -> (r: usize)
        ensures
            r == self@.log.len(),
    {
        self.events.len()
    }

    pub fn is_empty(&self) -> (r: bool)
        ensures
            r == (self@.log.len() == 0),
    {
        self.events.len() == 0
    }

    pub fn meta(&self) -> (r: SessionMeta)
        ensures
            r@ == meta_of(self@),
    {
        SessionMeta {
            id: self.id.clone(),
            title: self.title.clone(),
            created_at: self.created_at,
            event_count: self.events.len(),
            task_count: self.tasks.len(),
        }
    }

    /// The durable form of the session.
    pub fn to_record(&self) -> (r: SessionRecord)
        ensures
            r@ == record_of(self@),
    {
        SessionRecord {
            id: self.id.clone(),
            title: self.title.clone(),
            created_at: self.created_at,
            events: self.events.duplicate(),
            tasks: self.tasks.duplicate(),
            workspace: Some(self.workspace.clone()),
            work_mode: self.work_mode.clone(),
            workflow_phase: self.workflow_phase.clone(),
        }
    }

    /// Renders the transcript as Markdown.
    pub fn to_markdown(&self) -> (out: String)
        ensures
            out@ == markdown(self@),
    {
        let mut out = String::new();
        out.append("# ");
        out.append(self.title.as_str());
        out.append("\n\n");
        let ghost head = "# "@ + self@.title + "\n\n"@;
        let ghost log = self@.log;
        assert(out@ =~= head);
        let mut i: usize = 0;
        assert(head + log_markdown(log.take(0)) =~= head);
        while i < self.events.len()
            invariant
                i <= self.events@.len(),
                log == self.events.deep_view(),
                out@ == head + log_markdown(log.take(i as int)),
            decreases self.events@.len() - i,
        {
            proof {
                assert(log.take(i + 1).drop_last() =~= log.take(i as int));
                assert(log.take(i + 1).last() == self.events@[i as int]@);
            }
            let ghost before = out@;
            push_event_markdown(&mut out, &self.events[i]);
            assert(out@ =~= head + log_markdown(log.take(i + 1)));
            i = i + 1;
        }
        assert(log.take(i as int) =~= log);
        let ghost body = head + log_markdown(log);
        if self.tasks.len() > 0 {
            out.append("\n## 任务\n\n");
            let ghost tasks = self@.tasks;
            let ghost heading = "\n## 任务\n\n"@;
            let mut k: usize = 0;
            assert(heading + tasks_markdown(tasks.take(0)) =~= heading);
            while k < self.tasks.len()
                invariant
                    k <= self.tasks@.len(),
                    tasks == self.tasks.deep_view(),
                    out@ == body + (heading + tasks_markdown(tasks.take(k as int))),
                decreases self.tasks@.len() - k,
            {
                proof {
                    assert(tasks.take(k + 1).drop_last() =~= tasks.take(k as int));
                    assert(tasks.take(k + 1).last() == self.tasks@[k as int]@);
                }
                push_task_markdown(&mut out, &self.tasks[k]);
                assert(out@ =~= body + (heading + tasks_markdown(tasks.take(k + 1))));
                k = k + 1;
            }
            assert(tasks.take(k as int) =~= tasks);
        } else {
            assert(body + Seq::<char>::empty() =~= body);
        }
        out
    }

    /// Projects the history that a model sees from the log. There is no other way from the log
    /// to a model.
    pub fn derive_messages(&self, system_prompt: Option<&str>) -> (out: Vec<Message>)
        ensures
            out.deep_view() == model_history(
                (match system_prompt {
                    Some(p) => Some(p@),
                    None => None,
                }),
                self@.log,
            ),
    {
        derived(system_prompt, &self.events)
    }

    /// A new session over a copy of the current log.
    pub fn fork(&self, new_id: &str, home: &str, now: u64) -> (r: Session)
        ensures
            r@ == (SessionView {
                id: new_id@,
                created_at: now,
                workspace: workspace_for(home@, new_id@),
                ..self@
            }),
            r@ == forked(self@, new_id@, home@, now),
    {
        Session {
            id: new_id.to_owned(),
            events: self.events.duplicate(),
            observed: self.observed,
            title: self.title.clone(),
            tasks: self.tasks.duplicate(),
            created_at: now,
            workspace: default_workspace(home, new_id),
            work_mode: self.work_mode.clone(),
            workflow_phase: self.workflow_phase.clone(),
        }
    }
}

} // verus!

//! Tasks that run on agents of their own: giving, reading, awaiting and cancelling them.
use vstd::prelude::*;
use vstd::string::*;

use crate::agent::turn::{AgentDefinition, plain_definition};
use crate::json::{Json, Tree, object};
use crate::session::event::{EventView, SessionEvent};
use crate::session::ids::{Ids, after};
use crate::session::log::{fresh, text_lines, text_of};
use crate::session::store::{
    FileWrite, SessionStore, StoreView, free_number, inserted, new_session_id, saved,
};
use crate::table::{
    Table, at, has, lemma_mapped, lemma_mapped_without, lemma_put_at, lemma_put_keeps,
    lemma_without_at, mapped, put, without,
};
use crate::text::{clip, clipped, concat2, concat3, decimal, decimal_text};
use crate::tool::call::{CallView, ToolCallContext};
use crate::tool::description::{DescriptionView, ToolDescription};
use crate::tool::error::{ErrorView, ToolError, failed, no_service};
use crate::tool::registry::Tool;
use crate::tool::stream::result_view;
use crate::tools::schema::{word_trees, word_views, words};

verus! {

/// How a task ended: with an output, or with an error.
pub open spec fn ended(r: Result<String, String>) -> Result<Seq<char>, Seq<char>> {
    match r {
        Ok(s) => Ok(s@),
        Err(e) => Err(e@),
    }
}

/// The state of a task as it stands: nothing while it runs.
pub open spec fn state_view(s: Option<Result<String, String>>) -> Option<
    Result<Seq<char>, Seq<char>>,
> {
    match s {
        Some(r) => Some(ended(r)),
        None => None,
    }
}

/// The tasks in flight, and those that ended.
#[derive(Debug)]
pub struct SubagentManager {
    tasks: Table<Option<Result<String, String>>>,
    next_id: u64,
}

/// What the tasks stand for.
#[verifier::ext_equal]
pub struct TasksView {
    pub tasks: Seq<(Seq<char>, Option<Result<Seq<char>, Seq<char>>>)>,
    pub next_id: u64,
}

/// How the state of a task is seen.
pub open spec fn seen_state() -> spec_fn(Option<Result<String, String>>) -> Option<
    Result<Seq<char>, Seq<char>>,
> {
    |s: Option<Result<String, String>>| state_view(s)
}

impl View for SubagentManager {
    type V = TasksView;

    closed spec fn view(&self) -> TasksView {
        TasksView { tasks: mapped(self.tasks@, seen_state()), next_id: self.next_id }
    }
}

/// The identity of the task with number `n`.
pub open spec fn task_id(n: u64) -> Seq<char> {
    "task-"@ + decimal(n as nat)
}

/// The tasks with one more, which runs.
pub open spec fn spawned(v: TasksView) -> TasksView {
    TasksView { tasks: put(v.tasks, task_id(v.next_id), None), next_id: after(v.next_id) }
}

/// The tasks after the end of one was taken into account, where it is known.
pub open spec fn settled(v: TasksView, id: Seq<char>, end: Result<Seq<char>, Seq<char>>) -> TasksView {
    if has(v.tasks, id) {
        TasksView { tasks: put(v.tasks, id, Some(end)), ..v }
    } else {
        v
    }
}

/// The tasks without one that was cancelled.
pub open spec fn cancelled(v: TasksView, id: Seq<char>) -> TasksView {
    TasksView { tasks: without(v.tasks, id), ..v }
}

impl SubagentManager {
    /// No tasks yet.
    pub fn new() -> (r: SubagentManager)
        ensures
            r@.tasks.len() == 0,
            r@.next_id == 0,
    {
        SubagentManager { tasks: Table::new(), next_id: 0 }
    }

    /// Takes a new task into account, and gives its identity.
    pub fn spawn(&mut self) -> (r: String)
        ensures
            r@ == task_id(old(self)@.next_id),
            final(self)@ == (TasksView {
                tasks: put(old(self)@.tasks, r@, None),
                next_id: after(old(self)@.next_id),
            }),
            final(self)@ == spawned(old(self)@),
    {
        let n = decimal_text(self.next_id);
        self.next_id = self.next_id.wrapping_add(1);
        let id = concat2("task-", n.as_str());
        proof {
            lemma_mapped(self.tasks@, seen_state(), id@, None);
        }
        self.tasks.put(id.as_str(), None);
        id
    }

    /// Takes the end of a task into account; a task that was cancelled is not known any more.
    pub fn settle(&mut self, id: &str, result: Result<String, String>)
        ensures
            final(self)@ == (if has(old(self)@.tasks, id@) {
                TasksView {
                    tasks: put(old(self)@.tasks, id@, Some(ended(result))),
                    ..old(self)@
                }
            } else {
                old(self)@
            }),
            final(self)@ == settled(old(self)@, id@, ended(result)),
    {
        proof {
            lemma_mapped(self.tasks@, seen_state(), id@, Some(result));
        }
        if self.tasks.contains(id) {
            self.tasks.put(id, Some(result));
        }
    }

    /// The state of a task, where it is known.
    pub fn output(&self, id: &str) -> (r: Option<&Option<Result<String, String>>>)
        ensures
            match r {
                Some(s) => at(self@.tasks, id@) == Some(state_view(*s)),
                None => at(self@.tasks, id@) is None,
            },
    {
        proof {
            lemma_mapped(self.tasks@, seen_state(), id@, None);
        }
        self.tasks.get(id)
    }

    /// Cancels a task, and tells whether it was known.
    pub fn cancel(&mut self, id: &str) -> (r: bool)
        ensures
            r == has(old(self)@.tasks, id@),
            final(self)@ == (TasksView { tasks: without(old(self)@.tasks, id@), ..old(self)@ }),
            final(self)@ == cancelled(old(self)@, id@),
    {
        proof {
            lemma_mapped(self.tasks@, seen_state(), id@, None);
            lemma_mapped_without(self.tasks@, seen_state(), id@);
        }
        self.tasks.remove(id)
    }
}

/// A task that ended is read as it ended, and a cancelled one is not known any more.
pub proof fn lemma_task_life(
    v: TasksView,
    id: Seq<char>,
    end: Result<Seq<char>, Seq<char>>,
    other: Seq<char>,
)
    ensures
        at(put(v.tasks, id, None), id) == Some(None::<Result<Seq<char>, Seq<char>>>),
        at(put(v.tasks, id, Some(end)), id) == Some(Some(end)),
        at(without(v.tasks, id), id) is None,
        other != id ==> at(put(v.tasks, id, Some(end)), other) == at(v.tasks, other),
        other != id ==> at(without(v.tasks, id), other) == at(v.tasks, other),
{
    lemma_put_at(v.tasks, id, None);
    lemma_put_at(v.tasks, id, Some(end));
    lemma_without_at(v.tasks, id, other);
    if other != id {
        lemma_put_keeps(v.tasks, id, Some(end), other);
    }
}

// ---------- the agent of a task ----------

/// The definition of an agent that does a task.
pub fn subagent_definition() -> (r: AgentDefinition)
    ensures
        r@ == plain_definition(
            "subagent"@,
            "subagent"@,
            "You are a focused subagent. Complete the assigned task using the available tools, then report the result concisely."@,
        ),
{
    AgentDefinition::plain(
        "subagent",
        "subagent",
        "You are a focused subagent. Complete the assigned task using the available tools, then report the result concisely.",
    )
}

/// What a run reports: the text of the last message of the assistant that has one.
pub open spec fn reported(log: Seq<EventView>) -> Seq<char>
    decreases log.len(),
{
    if log.len() == 0 {
        "(no output)"@
    } else {
        match log.last() {
            EventView::AssistantMessage { content, .. } => if text_lines(content).len() > 0 {
                text_lines(content)
            } else {
                reported(log.drop_last())
            },
            _ => reported(log.drop_last()),
        }
    }
}

/// What a run reports.
pub fn report_text(events: &Vec<SessionEvent>) -> (r: String)
    ensures
        r@ == reported(events.deep_view()),
{
    let ghost all = events.deep_view();
    let mut n: usize = events.len();
    assert(all.take(n as int) =~= all);
    while n > 0
        invariant
            n <= events@.len(),
            all == events.deep_view(),
            reported(all.take(n as int)) == reported(all),
        decreases n,
    {
        proof {
            assert(all.take(n as int).drop_last() =~= all.take(n - 1));
            assert(all.take(n as int).last() == events@[n - 1]@);
        }
        match &events[n - 1] {
            SessionEvent::AssistantMessage { content, .. } => {
                let text = text_of(content);
                if !text.as_str().is_empty() {
                    return text;
                }
            },
            _ => {},
        }
        n = n - 1;
    }
    "(no output)".to_owned()
}

// ---------- giving a task ----------

/// Gives a task to a subagent.
#[derive(Debug, Clone, Copy, PartialEq, Eq, Structural)]
pub struct TaskTool;

impl Tool for TaskTool {
    open spec fn named(&self) -> Seq<char> {
        "task"@
    }

    open spec fn described(&self) -> DescriptionView {
        DescriptionView {
            name: "task"@,
            description: "Spawn a subagent to complete a task autonomously on its own session. Returns a task_id; use task_output/task_wait to collect results."@,
            parameters: object().with("type"@, Tree::Text("object"@)).with(
                "properties"@,
                object().with(
                    "prompt"@,
                    object().with("type"@, Tree::Text("string"@)).with(
                        "description"@,
                        Tree::Text("the task for the subagent"@),
                    ),
                ).with(
                    "description"@,
                    object().with("type"@, Tree::Text("string"@)).with(
                        "description"@,
                        Tree::Text("short label"@),
                    ),
                ).with(
                    "run_in_background"@,
                    object().with("type"@, Tree::Text("boolean"@)).with(
                        "description"@,
                        Tree::Text("return immediately instead of blocking (default false)"@),
                    ),
                ),
            ).with("required"@, Tree::Array(word_trees(seq!["prompt"@]))),
        }
    }

    open spec fn listed(&self, ctx: CallView) -> bool {
        true
    }

    fn id(&self) -> (r: String) {
        "task".to_owned()
    }

    fn description(&self) -> (r: ToolDescription) {
        let list1: Vec<&'static str> = vec!["prompt"];
        assert(word_views(list1@) =~= seq!["prompt"@]);
        let parameters = Json::object().with("type", Json::text("object")).with(
            "properties",
            Json::object().with(
                "prompt",
                Json::object().with("type", Json::text("string")).with(
                    "description",
                    Json::text("the task for the subagent"),
                ),
            ).with(
                "description",
                Json::object().with("type", Json::text("string")).with(
                    "description",
                    Json::text("short label"),
                ),
            ).with(
                "run_in_background",
                Json::object().with("type", Json::text("boolean")).with(
                    "description",
                    Json::text("return immediately instead of blocking (default false)"),
                ),
            ),
        ).with("required", words(list1));
        ToolDescription::new(
            "task",
            "Spawn a subagent to complete a task autonomously on its own session. Returns a task_id; use task_output/task_wait to collect results.",
            parameters,
        )
    }

    fn should_list(&self, ctx: &ToolCallContext) -> (r: bool) {
        true
    }
}

/// A task that was given.
#[derive(Debug)]
pub struct TaskOrder {
    /// The identity of the task.
    pub task_id: String,
    /// The session that it runs on.
    pub session_id: String,
    pub prompt: String,
    /// Whether the caller goes on without waiting.
    pub background: bool,
    /// The file in which its session is to be kept.
    pub save: Option<FileWrite>,
}

/// The label of a task: the first thirty characters of its description, or of its prompt.
pub open spec fn task_label(prompt: Seq<char>, description: Option<Seq<char>>) -> Seq<char> {
    match description {
        Some(d) => if d.len() > 0 {
            clipped(d, 30)
        } else {
            clipped(prompt, 30)
        },
        None => clipped(prompt, 30),
    }
}

/// The title of the session of a task.
pub open spec fn task_title(args: Tree, prompt: Seq<char>) -> Seq<char> {
    "子任务: "@ + task_label(prompt, args.text_at("description"@))
}

/// What the tool gives for a task that runs.
pub open spec fn running_tree(id: Seq<char>) -> Tree {
    object().with("task_id"@, Tree::Text(id)).with("status"@, Tree::Text("running"@))
}

/// What is given for a task that ended well.
pub open spec fn completed_tree(id: Seq<char>, output: Seq<char>) -> Tree {
    object().with("task_id"@, Tree::Text(id)).with("status"@, Tree::Text("completed"@)).with(
        "output"@,
        Tree::Text(output),
    )
}

/// What is given for a task that failed.
pub open spec fn failed_tree(id: Seq<char>, error: Seq<char>) -> Tree {
    object().with("task_id"@, Tree::Text(id)).with("status"@, Tree::Text("failed"@)).with(
        "error"@,
        Tree::Text(error),
    )
}

fn running_json(id: &str) -> (r: Json)
    ensures
        r@ == running_tree(id@),
{
    Json::object().with("task_id", Json::text(id)).with("status", Json::text("running"))
}

fn completed_json(id: &str, output: &str) -> (r: Json)
    ensures
        r@ == completed_tree(id@, output@),
{
    Json::object().with("task_id", Json::text(id)).with("status", Json::text("completed")).with(
        "output",
        Json::text(output),
    )
}

fn failed_json(id: &str, error: &str) -> (r: Json)
    ensures
        r@ == failed_tree(id@, error@),
{
    Json::object().with("task_id", Json::text(id)).with("status", Json::text("failed")).with(
        "error",
        Json::text(error),
    )
}

impl TaskTool {
    /// Gives a task: it gets an identity and a session of its own.
    pub fn start(
        &self,
        manager: Option<&mut SubagentManager>,
        store: Option<&mut SessionStore>,
        ids: &mut Ids,
        args: &Json,
        now: u64,
    ) -> (r: Result<TaskOrder, ToolError>)
        ensures
            match args@.text_at("prompt"@) {
                None => {
                    &&& r matches Err(e)
                    &&& e@ == failed("缺少 prompt"@)
                    &&& manager matches Some(m) ==> (*final(m))@ == (*m)@
                    &&& store matches Some(s) ==> (*final(s))@ == (*s)@
                    &&& final(ids).at() == old(ids).at()
                },
                Some(prompt) => match (manager, store) {
                    (None, _) => {
                        &&& r matches Err(e)
                        &&& e@ == no_service("SubagentManager"@)
                        &&& store matches Some(s) ==> (*final(s))@ == (*s)@
                        &&& final(ids).at() == old(ids).at()
                    },
                    (Some(m), None) => {
                        &&& r matches Err(e)
                        &&& e@ == no_service("SessionStore"@)
                        &&& (*final(m))@ == (*m)@
                        &&& final(ids).at() == old(ids).at()
                    },
                    (Some(m), Some(s)) => {
                        let session = fresh(
                            new_session_id((*s)@.sessions, old(ids).at()),
                            task_title(args@, prompt),
                            (*s)@.observed,
                            (*s)@.home,
                            now,
                        );
                        &&& r matches Ok(o)
                        &&& o.task_id@ == task_id((*m)@.next_id)
                        &&& o.session_id@ == session.id
                        &&& o.prompt@ == prompt
                        &&& o.background == (args@.truth_at("run_in_background"@) == Some(true))
                        &&& o.save.deep_view() == saved((*s)@.dir, session)
                        &&& (*final(m))@ == (TasksView {
                            tasks: put((*m)@.tasks, o.task_id@, None),
                            next_id: after((*m)@.next_id),
                        })
                        &&& (*final(m))@ == spawned((*m)@)
                        &&& (*final(s))@ == (StoreView {
                            sessions: inserted((*s)@.sessions, session),
                            ..(*s)@
                        })
                        &&& final(ids).at() == after(free_number((*s)@.sessions, old(ids).at()))
                    },
                },
            },
    {
        let prompt = match args.str_at("prompt") {
            Some(p) => p,
            None => return Err(ToolError::execution("缺少 prompt")),
        };
        let background = match args.bool_at("run_in_background") {
            Some(b) => b,
            None => false,
        };
        let manager = match manager {
            Some(m) => m,
            None => return Err(ToolError::missing_service("SubagentManager")),
        };
        let store = match store {
            Some(s) => s,
            None => return Err(ToolError::missing_service("SessionStore")),
        };
        let label = match args.str_at("description") {
            Some(d) => if d.is_empty() {
                clip(prompt, 30)
            } else {
                clip(d, 30)
            },
            None => clip(prompt, 30),
        };
        let title = concat2("子任务: ", label.as_str());
        let created = store.create(ids, title.as_str(), now);
        let task_id = manager.spawn();
        Ok(
            TaskOrder {
                task_id,
                session_id: created.id,
                prompt: prompt.to_owned(),
                background,
                save: created.save,
            },
        )
    }

    /// What the tool gives at once for a task in the background.
    pub fn started(&self, order: &TaskOrder) -> (r: Json)
        ensures
            r@ == running_tree(order.task_id@),
    {
        running_json(order.task_id.as_str())
    }

    /// What the tool gives in the end for a task that was waited for.
    pub fn finish(&self, id: &str, end: &Result<String, String>) -> (r: Result<Json, ToolError>)
        ensures
            match ended(*end) {
                Ok(text) => r matches Ok(j) && j@ == completed_tree(id@, text),
                Err(e) => r matches Err(x) && x@ == failed("子任务失败："@ + e),
            },
    {
        match end {
            Ok(text) => Ok(completed_json(id, text.as_str())),
            Err(e) => {
                let message = concat2("子任务失败：", e.as_str());
                Err(ToolError::execution(message.as_str()))
            },
        }
    }
}

/// The end of a task that is waited for, once there is one: how it ended, or that the time is up.
/// A task that is not known any more never ends by itself.
pub open spec fn awaited(
    state: Option<Option<Result<Seq<char>, Seq<char>>>>,
    expired: bool,
) -> Option<Result<Seq<char>, Seq<char>>> {
    match state {
        Some(Some(end)) => Some(end),
        _ => if expired {
            Some(Err("timeout"@))
        } else {
            None
        },
    }
}

/// The end of a task that is waited for, once there is one.
pub fn wait_foreground(manager: &SubagentManager, id: &str, expired: bool) -> (r: Option<
    Result<String, String>,
>)
    ensures
        state_view(r) == awaited(at(manager@.tasks, id@), expired),
{
    match manager.output(id) {
        Some(Some(Ok(o))) => Some(Ok(o.clone())),
        Some(Some(Err(e))) => Some(Err(e.clone())),
        _ => if expired {
            Some(Err("timeout".to_owned()))
        } else {
            None
        },
    }
}

// ---------- reading, awaiting and cancelling ----------

/// Reads the output of a subagent.
#[derive(Debug, Clone, Copy, PartialEq, Eq, Structural)]
pub struct TaskOutputTool;

impl Tool for TaskOutputTool {
    open spec fn named(&self) -> Seq<char> {
        "task_output"@
    }

    open spec fn described(&self) -> DescriptionView {
        DescriptionView {
            name: "task_output"@,
            description: "Read a subagent's output by task_id (returns 'running' if still in flight)."@,
            parameters: object().with("type"@, Tree::Text("object"@)).with(
                "properties"@,
                object().with("task_id"@, object().with("type"@, Tree::Text("string"@))),
            ).with("required"@, Tree::Array(word_trees(seq!["task_id"@]))),
        }
    }

    open spec fn listed(&self, ctx: CallView) -> bool {
        true
    }

    fn id(&self) -> (r: String) {
        "task_output".to_owned()
    }

    fn description(&self) -> (r: ToolDescription) {
        let list1: Vec<&'static str> = vec!["task_id"];
        assert(word_views(list1@) =~= seq!["task_id"@]);
        let parameters = Json::object().with("type", Json::text("object")).with(
            "properties",
            Json::object().with("task_id", Json::object().with("type", Json::text("string"))),
        ).with("required", words(list1));
        ToolDescription::new(
            "task_output",
            "Read a subagent's output by task_id (returns 'running' if still in flight).",
            parameters,
        )
    }

    fn should_list(&self, ctx: &ToolCallContext) -> (r: bool) {
        true
    }
}

/// What is told of a task that is known.
pub open spec fn state_tree(id: Seq<char>, state: Option<Result<Seq<char>, Seq<char>>>) -> Tree {
    match state {
        Some(Ok(output)) => completed_tree(id, output),
        Some(Err(error)) => failed_tree(id, error),
        None => running_tree(id),
    }
}

fn state_json(id: &str, state: &Option<Result<String, String>>) -> (r: Json)
    ensures
        r@ == state_tree(id@, state_view(*state)),
{
    match state {
        Some(Ok(output)) => completed_json(id, output.as_str()),
        Some(Err(error)) => failed_json(id, error.as_str()),
        None => running_json(id),
    }
}

/// What the tool gives.
pub open spec fn output_result(tasks: Option<TasksView>, args: Tree) -> Result<Tree, ErrorView> {
    match args.text_at("task_id"@) {
        None => Err(failed("缺少 task_id"@)),
        Some(id) => match tasks {
            None => Err(no_service("SubagentManager"@)),
            Some(v) => match at(v.tasks, id) {
                Some(state) => Ok(state_tree(id, state)),
                None => Err(failed("任务 "@ + id + " 不存在"@)),
            },
        },
    }
}

/// Tasks as they stand.
pub open spec fn tasks_view(manager: Option<&SubagentManager>) -> Option<TasksView> {
    match manager {
        Some(m) => Some(m@),
        None => None,
    }
}

impl TaskOutputTool {
    /// Reads the state of a task.
    pub fn run(&self, manager: Option<&SubagentManager>, args: &Json) -> (r: Result<
        Json,
        ToolError,
    >)
        ensures
            result_view(r) == output_result(tasks_view(manager), args@),
    {
        let id = match args.str_at("task_id") {
            Some(t) => t,
            None => return Err(ToolError::execution("缺少 task_id")),
        };
        let manager = match manager {
            Some(m) => m,
            None => return Err(ToolError::missing_service("SubagentManager")),
        };
        match manager.output(id) {
            Some(state) => Ok(state_json(id, state)),
            None => {
                let message = concat3("任务 ", id, " 不存在");
                Err(ToolError::execution(message.as_str()))
            },
        }
    }
}

/// Waits for subagents.
#[derive(Debug, Clone, Copy, PartialEq, Eq, Structural)]
pub struct TaskWaitTool;

impl Tool for TaskWaitTool {
    open spec fn named(&self) -> Seq<char> {
        "task_wait"@
    }

    open spec fn described(&self) -> DescriptionView {
        DescriptionView {
            name: "task_wait"@,
            description: "Wait for one or more subagents to finish and return their outputs."@,
            parameters: object().with("type"@, Tree::Text("object"@)).with(
                "properties"@,
                object().with(
                    "task_ids"@,
                    object().with("type"@, Tree::Text("array"@)).with(
                        "items"@,
                        object().with("type"@, Tree::Text("string"@)),
                    ),
                ).with("timeout_ms"@, object().with("type"@, Tree::Text("integer"@))),
            ).with("required"@, Tree::Array(word_trees(seq!["task_ids"@]))),
        }
    }

    open spec fn listed(&self, ctx: CallView) -> bool {
        true
    }

    fn id(&self) -> (r: String) {
        "task_wait".to_owned()
    }

    fn description(&self) -> (r: ToolDescription) {
        let list1: Vec<&'static str> = vec!["task_ids"];
        assert(word_views(list1@) =~= seq!["task_ids"@]);
        let parameters = Json::object().with("type", Json::text("object")).with(
            "properties",
            Json::object().with(
                "task_ids",
                Json::object().with("type", Json::text("array")).with(
                    "items",
                    Json::object().with("type", Json::text("string")),
                ),
            ).with("timeout_ms", Json::object().with("type", Json::text("integer"))),
        ).with("required", words(list1));
        ToolDescription::new(
            "task_wait",
            "Wait for one or more subagents to finish and return their outputs.",
            parameters,
        )
    }

    fn should_list(&self, ctx: &ToolCallContext) -> (r: bool) {
        true
    }
}

/// The identities in a list; what is no text is left out.
pub open spec fn ids_in(items: Seq<Tree>) -> Seq<Seq<char>>
    decreases items.len(),
{
    if items.len() == 0 {
        Seq::empty()
    } else {
        match items.last().text() {
            Some(s) => ids_in(items.drop_last()).push(s),
            None => ids_in(items.drop_last()),
        }
    }
}

/// What is told of a task that is awaited: one that is not known counts as running.
pub open spec fn awaited_tree(v: TasksView, id: Seq<char>) -> Tree {
    match at(v.tasks, id) {
        Some(state) => state_tree(id, state),
        None => running_tree(id),
    }
}

/// Whether a task has ended.
pub open spec fn has_ended(v: TasksView, id: Seq<char>) -> bool {
    at(v.tasks, id) matches Some(Some(_))
}

/// What is told of tasks that are awaited.
pub open spec fn all_tree(v: TasksView, ids: Seq<Seq<char>>) -> Tree {
    object().with(
        "tasks"@,
        Tree::Array(Seq::new(ids.len(), |i: int| awaited_tree(v, ids[i]))),
    )
}

/// Whether waiting for tasks is over: the time is up, or all have ended.
pub open spec fn wait_is_over(v: TasksView, ids: Seq<Seq<char>>, expired: bool) -> bool {
    expired || forall|i: int| 0 <= i < ids.len() ==> has_ended(v, #[trigger] ids[i])
}

/// What is awaited: the tasks, and for how many milliseconds at most.
#[derive(Debug)]
pub struct WaitOrder {
    pub task_ids: Vec<String>,
    pub timeout_ms: u64,
}

impl TaskWaitTool {
    /// Decides what is awaited.
    pub fn plan(&self, args: &Json, has_manager: bool) -> (r: Result<WaitOrder, ToolError>)
        ensures
            match args@.list_at("task_ids"@) {
                None => r matches Err(e) && e@ == failed("缺少 task_ids"@),
                Some(items) => if has_manager {
                    &&& r matches Ok(o)
                    &&& o.task_ids.deep_view() == ids_in(items)
                    &&& o.timeout_ms == (match args@.number_at("timeout_ms"@) {
                        Some(n) => n,
                        None => 300_000,
                    })
                } else {
                    r matches Err(e) && e@ == no_service("SubagentManager"@)
                },
            },
    {
        let items = match args.array_at("task_ids") {
            Some(v) => v,
            None => return Err(ToolError::execution("缺少 task_ids")),
        };
        if !has_manager {
            return Err(ToolError::missing_service("SubagentManager"));
        }
        let ghost all = items.deep_view();
        let mut task_ids: Vec<String> = Vec::new();
        let mut i: usize = 0;
        assert(task_ids.deep_view() =~= ids_in(all.take(0)));
        while i < items.len()
            invariant
                i <= items@.len(),
                all == items.deep_view(),
                task_ids.deep_view() == ids_in(all.take(i as int)),
            decreases items@.len() - i,
        {
            proof {
                assert(all.take(i + 1).drop_last() =~= all.take(i as int));
                assert(all.take(i + 1).last() == items@[i as int]@);
            }
            let ghost before = task_ids.deep_view();
            match items[i].as_str() {
                Some(s) => {
                    task_ids.push(s.to_owned());
                    assert(task_ids.deep_view() =~= before.push(s@));
                },
                None => {},
            }
            i = i + 1;
        }
        assert(all.take(i as int) =~= all);
        let timeout_ms: u64 = match args.u64_at("timeout_ms") {
            Some(n) => n,
            None => 300_000,
        };
        Ok(WaitOrder { task_ids, timeout_ms })
    }

    /// What the tool gives, once all tasks have ended or the time is up.
    pub fn poll(&self, manager: &SubagentManager, task_ids: &Vec<String>, expired: bool) -> (r: Option<
        Json,
    >)
        ensures
            ({
                let ids = task_ids.deep_view();
                let over = expired || forall|i: int|
                    0 <= i < ids.len() ==> has_ended(manager@, #[trigger] ids[i]);
                match r {
                    Some(j) => over && j@ == all_tree(manager@, ids),
                    None => !over,
                }
            }),
            r is Some <==> wait_is_over(manager@, task_ids.deep_view(), expired),
    {
        let ghost ids = task_ids.deep_view();
        let mut out: Vec<Json> = Vec::new();
        let mut all_done = true;
        let mut i: usize = 0;
        while i < task_ids.len()
            invariant
                i <= task_ids@.len(),
                ids == task_ids.deep_view(),
                out@.len() == i,
                forall|k: int| 0 <= k < i ==> (#[trigger] out@[k])@ == awaited_tree(
                    manager@,
                    ids[k],
                ),
                all_done == forall|k: int|
                    0 <= k < i ==> has_ended(manager@, #[trigger] ids[k]),
            decreases task_ids@.len() - i,
        {
            let id = task_ids[i].as_str();
            assert(ids[i as int] == id@);
            match manager.output(id) {
                Some(state) => {
                    if state.is_none() {
                        all_done = false;
                    }
                    out.push(state_json(id, state));
                },
                None => {
                    all_done = false;
                    out.push(running_json(id));
                },
            }
            i = i + 1;
        }
        if all_done || expired {
            assert(out.deep_view() =~= Seq::new(
                ids.len(),
                |i: int| awaited_tree(manager@, ids[i]),
            ));
            Some(Json::object().with("tasks", Json::array(out)))
        } else {
            None
        }
    }
}

/// Cancels a subagent.
#[derive(Debug, Clone, Copy, PartialEq, Eq, Structural)]
pub struct TaskKillTool;

impl Tool for TaskKillTool {
    open spec fn named(&self) -> Seq<char> {
        "task_kill"@
    }

    open spec fn described(&self) -> DescriptionView {
        DescriptionView {
            name: "task_kill"@,
            description: "Cancel a running subagent by task_id."@,
            parameters: object().with("type"@, Tree::Text("object"@)).with(
                "properties"@,
                object().with("task_id"@, object().with("type"@, Tree::Text("string"@))),
            ).with("required"@, Tree::Array(word_trees(seq!["task_id"@]))),
        }
    }

    open spec fn listed(&self, ctx: CallView) -> bool {
        true
    }

    fn id(&self) -> (r: String) {
        "task_kill".to_owned()
    }

    fn description(&self) -> (r: ToolDescription) {
        let list1: Vec<&'static str> = vec!["task_id"];
        assert(word_views(list1@) =~= seq!["task_id"@]);
        let parameters = Json::object().with("type", Json::text("object")).with(
            "properties",
            Json::object().with("task_id", Json::object().with("type", Json::text("string"))),
        ).with("required", words(list1));
        ToolDescription::new("task_kill", "Cancel a running subagent by task_id.", parameters)
    }

    fn should_list(&self, ctx: &ToolCallContext) -> (r: bool) {
        true
    }
}

impl TaskKillTool {
    /// Cancels a task.
    pub fn run(&self, manager: Option<&mut SubagentManager>, args: &Json) -> (r: Result<
        Json,
        ToolError,
    >)
        ensures
            match args@.text_at("task_id"@) {
                None => {
                    &&& r matches Err(e)
                    &&& e@ == failed("缺少 task_id"@)
                    &&& manager matches Some(m) ==> (*final(m))@ == (*m)@
                },
                Some(id) => match manager {
                    None => r matches Err(e) && e@ == no_service("SubagentManager"@),
                    Some(m) => {
                        &&& r matches Ok(j)
                        &&& j@ == object().with("task_id"@, Tree::Text(id)).with(
                            "cancelled"@,
                            Tree::Bool(has((*m)@.tasks, id)),
                        )
                        &&& (*final(m))@ == (TasksView {
                            tasks: without((*m)@.tasks, id),
                            ..(*m)@
                        })
                        &&& (*final(m))@ == cancelled((*m)@, id)
                    },
                },
            },
    {
        let id = match args.str_at("task_id") {
            Some(t) => t,
            None => return Err(ToolError::execution("缺少 task_id")),
        };
        let manager = match manager {
            Some(m) => m,
            None => return Err(ToolError::missing_service("SubagentManager")),
        };
        let cancelled = manager.cancel(id);
        Ok(
            Json::object().with("task_id", Json::text(id)).with(
                "cancelled",
                Json::Bool(cancelled),
            ),
        )
    }
}

} // verus!

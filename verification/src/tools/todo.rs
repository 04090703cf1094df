//! The todo list and the workflow phase as tools: what the agent reports of its own progress.
use vstd::prelude::*;
use vstd::string::*;

use crate::codec::{Codec, trees};
use crate::json::{Json, Tree, object};
use crate::session::event::{EventView, SessionEvent};
use crate::session::ids::{IdKind, Ids, after, id_text, later};
use crate::session::log::{SessionView, item_views, task_list};
use crate::session::store::{FileWrite, SessionStore, StoreView, position, saved, session_at};
use crate::session::task::{TaskItem, TaskStatus, TaskView, parse_status, status_named};
use crate::tool::call::{CallView, ToolCallContext};
use crate::tool::description::{DescriptionView, ToolDescription};
use crate::tool::error::{ToolError, failed, no_service};
use crate::tool::registry::Tool;
use crate::tools::schema::{word_trees, word_views, words};

verus! {

/// What a tool gives, and the file in which the session is to be kept.
#[derive(Debug)]
pub struct Reported {
    pub output: Json,
    pub save: Option<FileWrite>,
}

/// Sets the todo list of the session.
#[derive(Debug, Clone, Copy, PartialEq, Eq, Structural)]
pub struct TodoWriteTool;

impl Tool for TodoWriteTool {
    open spec fn named(&self) -> Seq<char> {
        "todo_write"@
    }

    open spec fn described(&self) -> DescriptionView {
        DescriptionView {
            name: "todo_write"@,
            description: "Set the session's todo list. Pass the full list of todos with their status (pending / in_progress / completed / cancelled)."@,
            parameters: object().with("type"@, Tree::Text("object"@)).with(
                "properties"@,
                object().with(
                    "todos"@,
                    object().with("type"@, Tree::Text("array"@)).with(
                        "items"@,
                        object().with("type"@, Tree::Text("object"@)).with(
                            "properties"@,
                            object().with(
                                "content"@,
                                object().with("type"@, Tree::Text("string"@)),
                            ).with(
                                "status"@,
                                object().with("type"@, Tree::Text("string"@)).with(
                                    "enum"@,
                                    Tree::Array(
                                        word_trees(
                                            seq![
                                                "pending"@,
                                                "in_progress"@,
                                                "completed"@,
                                                "cancelled"@,
                                            ],
                                        ),
                                    ),
                                ),
                            ),
                        ).with("required"@, Tree::Array(word_trees(seq!["content"@, "status"@]))),
                    ),
                ),
            ).with("required"@, Tree::Array(word_trees(seq!["todos"@]))),
        }
    }

    open spec fn listed(&self, ctx: CallView) -> bool {
        true
    }

    fn id(&self) -> (r: String) {
        "todo_write".to_owned()
    }

    fn description(&self) -> (r: ToolDescription) {
        let list1: Vec<&'static str> = vec!["pending", "in_progress", "completed", "cancelled"];
        assert(word_views(list1@) =~= seq!["pending"@, "in_progress"@, "completed"@, "cancelled"@]);
        let list2: Vec<&'static str> = vec!["content", "status"];
        assert(word_views(list2@) =~= seq!["content"@, "status"@]);
        let list3: Vec<&'static str> = vec!["todos"];
        assert(word_views(list3@) =~= seq!["todos"@]);
        let parameters = Json::object().with("type", Json::text("object")).with(
            "properties",
            Json::object().with(
                "todos",
                Json::object().with("type", Json::text("array")).with(
                    "items",
                    Json::object().with("type", Json::text("object")).with(
                        "properties",
                        Json::object().with(
                            "content",
                            Json::object().with("type", Json::text("string")),
                        ).with(
                            "status",
                            Json::object().with("type", Json::text("string")).with(
                                "enum",
                                words(list1),
                            ),
                        ),
                    ).with("required", words(list2)),
                ),
            ),
        ).with("required", words(list3));
        ToolDescription::new(
            "todo_write",
            "Set the session's todo list. Pass the full list of todos with their status (pending / in_progress / completed / cancelled).",
            parameters,
        )
    }

    fn should_list(&self, ctx: &ToolCallContext) -> (r: bool) {
        true
    }
}

/// The todos in a list: those that have a content. Where nothing is said of the status, it is
/// pending.
pub open spec fn todos_in(items: Seq<Tree>) -> Seq<(Seq<char>, TaskStatus)>
    decreases items.len(),
{
    if items.len() == 0 {
        Seq::empty()
    } else {
        match items.last().text_at("content"@) {
            Some(content) => todos_in(items.drop_last()).push(
                (
                    content,
                    status_named(
                        (match items.last().text_at("status"@) {
                            Some(s) => s,
                            None => "pending"@,
                        }),
                    ),
                ),
            ),
            None => todos_in(items.drop_last()),
        }
    }
}

/// The session after its todo list was set, and the number of the next identity. A list replaces
/// the one before, a single title is added; without either nothing can be done.
pub open spec fn with_todos(s: SessionView, args: Tree, ids: u64) -> Option<(SessionView, u64)> {
    match args.list_at("todos"@) {
        Some(items) => Some(
            (
                SessionView { tasks: task_list(todos_in(items), ids), ..s },
                later(ids, todos_in(items).len()),
            ),
        ),
        None => match args.text_at("title"@) {
            Some(title) => Some(
                (
                    SessionView {
                        tasks: s.tasks.push(
                            TaskView {
                                id: id_text(IdKind::Task, ids),
                                title,
                                done: false,
                                status: TaskStatus::Pending,
                            },
                        ),
                        ..s
                    },
                    after(ids),
                ),
            ),
            None => None,
        },
    }
}

/// What the tool gives: the todo list.
pub open spec fn todos_tree(tasks: Seq<TaskView>) -> Tree {
    object().with("todos"@, Tree::Array(trees::<TaskItem>(tasks)))
}

/// The store with a session changed.
pub open spec fn with_session(store: StoreView, id: Seq<char>, s: SessionView) -> StoreView {
    StoreView { sessions: store.sessions.update(position(store.sessions, id), s), ..store }
}

fn read_todos(items: &Vec<Json>) -> (out: Vec<(String, TaskStatus)>)
    ensures
        item_views(out@) == todos_in(items.deep_view()),
{
    let ghost all = items.deep_view();
    let mut out: Vec<(String, TaskStatus)> = Vec::new();
    let mut i: usize = 0;
    assert(item_views(out@) =~= todos_in(all.take(0)));
    while i < items.len()
        invariant
            i <= items@.len(),
            all == items.deep_view(),
            item_views(out@) == todos_in(all.take(i as int)),
        decreases items@.len() - i,
    {
        proof {
            assert(all.take(i + 1).drop_last() =~= all.take(i as int));
            assert(all.take(i + 1).last() == items@[i as int]@);
        }
        let ghost before = item_views(out@);
        match items[i].str_at("content") {
            Some(content) => {
                let word = match items[i].str_at("status") {
                    Some(s) => s,
                    None => "pending",
                };
                let status = parse_status(word);
                out.push((content.to_owned(), status));
                assert(item_views(out@) =~= before.push((content@, status)));
            },
            None => {},
        }
        i = i + 1;
    }
    assert(all.take(i as int) =~= all);
    out
}

impl TodoWriteTool {
    /// Sets the todo list of the session of the call.
    pub fn run(
        &self,
        ctx: &ToolCallContext,
        store: Option<&mut SessionStore>,
        ids: &mut Ids,
        args: &Json,
    ) -> (r: Result<Reported, ToolError>)
        ensures
            match store {
                None => {
                    &&& r matches Err(e)
                    &&& e@ == no_service("SessionStore"@)
                    &&& final(ids).at() == old(ids).at()
                },
                Some(st) => match session_at((*st)@.sessions, ctx@.session_id) {
                    None => {
                        &&& r matches Err(e)
                        &&& e@ == failed("session not found"@)
                        &&& (*final(st))@ == (*st)@
                        &&& final(ids).at() == old(ids).at()
                    },
                    Some(s) => match with_todos(s, args@, old(ids).at()) {
                        None => {
                            &&& r matches Err(e)
                            &&& e@ == failed("缺少 todos 或 title"@)
                            &&& (*final(st))@ == (*st)@
                            &&& final(ids).at() == old(ids).at()
                        },
                        Some((t, next)) => {
                            &&& r matches Ok(x)
                            &&& x.output@ == todos_tree(t.tasks)
                            &&& x.save.deep_view() == saved((*st)@.dir, t)
                            &&& (*final(st))@ == with_session((*st)@, ctx@.session_id, t)
                            &&& final(ids).at() == next
                        },
                    },
                },
            },
    {
        let store = match store {
            Some(s) => s,
            None => return Err(ToolError::missing_service("SessionStore")),
        };
        let ghost before = store@;
        let ghost sid = ctx@.session_id;
        match store.get_mut(ctx.session_id.as_str()) {
            None => {
                return Err(ToolError::execution("session not found"));
            },
            Some(session) => {
                match args.array_at("todos") {
                    Some(items) => {
                        let todos = read_todos(items);
                        assert(item_views(todos@).len() == todos@.len());
                        session.replace_tasks(ids, &todos);
                    },
                    None => match args.str_at("title") {
                        Some(title) => {
                            let _ = session.add_task(ids, title);
                        },
                        None => {
                            proof {
                                lemma_update_same(before, sid);
                            }
                            return Err(ToolError::execution("缺少 todos 或 title"));
                        },
                    },
                }
            },
        }
        proof {
            lemma_still_there(before, store@, sid);
        }
        match store.get(ctx.session_id.as_str()) {
            Some(session) => {
                let save = store.save(session);
                let tasks = session.tasks();
                Ok(Reported { output: Json::object().with("todos", tasks.to_json()), save })
            },
            None => Err(ToolError::execution("session not found")),
        }
    }
}

/// Putting a session back unchanged changes nothing.
pub proof fn lemma_update_same(store: StoreView, id: Seq<char>)
    requires
        session_at(store.sessions, id) is Some,
    ensures
        with_session(store, id, session_at(store.sessions, id)->0) == store,
{
    let n = position(store.sessions, id);
    assert(store.sessions.update(n, store.sessions[n]) =~= store.sessions);
}

/// A session that was changed in its place is still found there, as long as it kept its identity.
pub proof fn lemma_still_there(before: StoreView, after_store: StoreView, id: Seq<char>)
    requires
        session_at(before.sessions, id) is Some,
        after_store.sessions.len() == before.sessions.len(),
        forall|i: int|
            0 <= i < before.sessions.len() ==> (#[trigger] after_store.sessions[i]).id
                == before.sessions[i].id,
    ensures
        position(after_store.sessions, id) == position(before.sessions, id),
        session_at(after_store.sessions, id) == Some(
            after_store.sessions[position(before.sessions, id)],
        ),
{
    assert(crate::session::store::session_ids(after_store.sessions)
        =~= crate::session::store::session_ids(before.sessions));
}

/// Reports the phase of the workflow.
#[derive(Debug, Clone, Copy, PartialEq, Eq, Structural)]
pub struct WorkflowStepTool;

impl Tool for WorkflowStepTool {
    open spec fn named(&self) -> Seq<char> {
        "workflow_step"@
    }

    open spec fn described(&self) -> DescriptionView {
        DescriptionView {
            name: "workflow_step"@,
            description: "Report the current Trellis workflow phase so progress is visible."@,
            parameters: object().with("type"@, Tree::Text("object"@)).with(
                "properties"@,
                object().with(
                    "step"@,
                    object().with("type"@, Tree::Text("string"@)).with(
                        "enum"@,
                        Tree::Array(
                            word_trees(
                                seq![
                                    "brainstorm"@,
                                    "research"@,
                                    "plan"@,
                                    "implement"@,
                                    "review"@,
                                    "done"@,
                                ],
                            ),
                        ),
                    ),
                ),
            ).with("required"@, Tree::Array(word_trees(seq!["step"@]))),
        }
    }

    open spec fn listed(&self, ctx: CallView) -> bool {
        true
    }

    fn id(&self) -> (r: String) {
        "workflow_step".to_owned()
    }

    fn description(&self) -> (r: ToolDescription) {
        let list1: Vec<&'static str> = vec![
            "brainstorm",
            "research",
            "plan",
            "implement",
            "review",
            "done",
        ];
        assert(word_views(list1@) =~= seq![
            "brainstorm"@,
            "research"@,
            "plan"@,
            "implement"@,
            "review"@,
            "done"@,
        ]);
        let list2: Vec<&'static str> = vec!["step"];
        assert(word_views(list2@) =~= seq!["step"@]);
        let parameters = Json::object().with("type", Json::text("object")).with(
            "properties",
            Json::object().with(
                "step",
                Json::object().with("type", Json::text("string")).with("enum", words(list1)),
            ),
        ).with("required", words(list2));
        ToolDescription::new(
            "workflow_step",
            "Report the current Trellis workflow phase so progress is visible.",
            parameters,
        )
    }

    fn should_list(&self, ctx: &ToolCallContext) -> (r: bool) {
        true
    }
}

/// The session after it reported a phase: the phase is kept, and logged with the mode.
pub open spec fn with_phase(s: SessionView, step: Seq<char>) -> SessionView {
    SessionView {
        workflow_phase: step,
        log: s.log.push(EventView::WorkflowStep { mode: s.work_mode, step }),
        ..s
    }
}

impl WorkflowStepTool {
    /// Reports a phase for the session of the call.
    pub fn run(&self, ctx: &ToolCallContext, store: Option<&mut SessionStore>, args: &Json) -> (r:
        Result<Reported, ToolError>)
        ensures
            match args@.text_at("step"@) {
                None => {
                    &&& r matches Err(e)
                    &&& e@ == failed("缺少 step"@)
                    &&& store matches Some(st) ==> (*final(st))@ == (*st)@
                },
                Some(step) => match store {
                    None => r matches Err(e) && e@ == no_service("SessionStore"@),
                    Some(st) => match session_at((*st)@.sessions, ctx@.session_id) {
                        None => {
                            &&& r matches Err(e)
                            &&& e@ == failed("session not found"@)
                            &&& (*final(st))@ == (*st)@
                        },
                        Some(s) => {
                            &&& r matches Ok(x)
                            &&& x.output@ == object().with("phase"@, Tree::Text(step))
                            &&& x.save.deep_view() == saved((*st)@.dir, with_phase(s, step))
                            &&& (*final(st))@ == with_session(
                                (*st)@,
                                ctx@.session_id,
                                with_phase(s, step),
                            )
                        },
                    },
                },
            },
    {
        let step = match args.str_at("step") {
            Some(s) => s,
            None => return Err(ToolError::execution("缺少 step")),
        };
        let store = match store {
            Some(s) => s,
            None => return Err(ToolError::missing_service("SessionStore")),
        };
        let ghost before = store@;
        let ghost sid = ctx@.session_id;
        match store.get_mut(ctx.session_id.as_str()) {
            None => {
                return Err(ToolError::execution("session not found"));
            },
            Some(session) => {
                session.set_workflow_phase(step);
                let mode = session.work_mode();
                let _ = session.append(SessionEvent::WorkflowStep { mode, step: step.to_owned() });
            },
        }
        proof {
            lemma_still_there(before, store@, sid);
        }
        match store.get(ctx.session_id.as_str()) {
            Some(session) => {
                let save = store.save(session);
                Ok(Reported { output: Json::object().with("phase", Json::text(step)), save })
            },
            None => Err(ToolError::execution("session not found")),
        }
    }
}

} // verus!

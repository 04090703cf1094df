//! What a transcript, a todo list, a workspace listing and a stored session hold of a session.
use vstd::prelude::*;
use vstd::string::*;

use crate::codec::Codec;
use crate::json::{Tree, json_compact, json_pretty};
use crate::order::{Ranked, in_order, lemma_sorted, sorted};
use crate::session::event::{BlockView, EventView};
use crate::session::ids::{IdKind, later, lemma_ids_distinct};
use crate::session::log::{
    RecordView, SessionMeta, SessionRecord, SessionView, event_markdown, forked, fresh, log_markdown,
    markdown, meta_of, record_of, session_of, task_ids, task_list, task_markdown, tasks_markdown,
    text_lines, with_done,
};
use crate::session::projection::model_history;
use crate::session::record::{
    block_tree, event_tree, meta_tree, record_in, record_tree, task_tree,
};
use crate::session::store::{
    lemma_filter_push, lemma_insert_get, metas, saved, session_at, session_ids, with_entry, without,
};
use crate::session::task::{TaskStatus, TaskView, status_word};
use crate::session::workspace::{entry_line, entry_lines, shown_entries, workspace_text};
use crate::text::{holds, joined, lemma_span, lemma_span_is, span};
use crate::text_laws::{lemma_held_behind, lemma_held_in_front, lemma_part_is_held};
use crate::path::under;
use crate::path_laws::lemma_endings;

verus! {

// ---------- transcripts ----------

/// The transcript of a log is that of its first events, then that of the others; so is the
/// transcript of a todo list.
pub proof fn lemma_transcript_in_parts(
    a: Seq<EventView>,
    b: Seq<EventView>,
    x: Seq<TaskView>,
    y: Seq<TaskView>,
    e: EventView,
    t: TaskView,
)
    ensures
        log_markdown(a + b) == log_markdown(a) + log_markdown(b),
        tasks_markdown(x + y) == tasks_markdown(x) + tasks_markdown(y),
        log_markdown(seq![e]) == event_markdown(e),
        tasks_markdown(seq![t]) == task_markdown(t),
    decreases b.len() + y.len(),
{
    assert(seq![e].drop_last() =~= Seq::empty());
    assert(log_markdown(Seq::empty()) =~= Seq::empty());
    assert(log_markdown(seq![e]) =~= event_markdown(e));
    assert(seq![t].drop_last() =~= Seq::empty());
    assert(tasks_markdown(Seq::empty()) =~= Seq::empty());
    assert(tasks_markdown(seq![t]) =~= task_markdown(t));
    if b.len() == 0 {
        assert(a + b =~= a);
        assert(log_markdown(a) + log_markdown(b) =~= log_markdown(a));
    } else {
        lemma_transcript_in_parts(a, b.drop_last(), x, y, e, t);
        assert((a + b).drop_last() =~= a + b.drop_last());
        assert((a + b).last() == b.last());
        assert(log_markdown(a + b) =~= log_markdown(a) + log_markdown(b));
    }
    if y.len() == 0 {
        assert(x + y =~= x);
        assert(tasks_markdown(x) + tasks_markdown(y) =~= tasks_markdown(x));
    } else {
        lemma_transcript_in_parts(a, b, x, y.drop_last(), e, t);
        assert((x + y).drop_last() =~= x + y.drop_last());
        assert((x + y).last() == y.last());
        assert(tasks_markdown(x + y) =~= tasks_markdown(x) + tasks_markdown(y));
    }
}

/// Whether the transcript of one event tells what the event says: who spoke and what, which tool was
/// called and with what, what it gave and whether it failed; of the others it tells nothing.
pub open spec fn told_of(e: EventView) -> bool {
    let m = event_markdown(e);
    match e {
        EventView::UserMessage { content, .. } => if text_lines(content).len() > 0 {
            holds(m, text_lines(content)) && holds(m, "你"@)
        } else {
            m.len() == 0
        },
        EventView::AssistantMessage { content, .. } => if text_lines(content).len() > 0 {
            holds(m, text_lines(content)) && holds(m, "助手"@)
        } else {
            m.len() == 0
        },
        EventView::ToolCall { tool_name, arguments, .. } => holds(m, tool_name) && holds(
            m,
            json_compact(arguments),
        ),
        EventView::ToolResult { output, is_error, .. } => holds(m, json_compact(output)) && holds(
            m,
            (if is_error {
                "✗"@
            } else {
                "✓"@
            }),
        ),
        _ => m.len() == 0,
    }
}

/// The transcript tells of every kind of event what it says.
pub proof fn lemma_events_are_told(e: EventView)
    ensures
        told_of(e),
{
    let m = event_markdown(e);
    match e {
        EventView::UserMessage { content, .. } => {
            let s = text_lines(content);
            if s.len() > 0 {
                lemma_part_is_held("**你**："@, s, "\n\n"@);
                reveal_strlit("**你**：");
                reveal_strlit("你");
                let rest = m.skip(3);
                assert(m =~= seq!['*', '*'] + "你"@ + rest);
                lemma_part_is_held(seq!['*', '*'], "你"@, rest);
            }
        },
        EventView::AssistantMessage { content, .. } => {
            let s = text_lines(content);
            if s.len() > 0 {
                lemma_part_is_held("**助手**："@, s, "\n\n"@);
                reveal_strlit("**助手**：");
                reveal_strlit("助手");
                let rest = m.skip(4);
                assert(m =~= seq!['*', '*'] + "助手"@ + rest);
                lemma_part_is_held(seq!['*', '*'], "助手"@, rest);
            }
        },
        EventView::ToolCall { tool_name, arguments, .. } => {
            let head = "**工具调用** `"@;
            let rest = "`：`"@ + json_compact(arguments) + "`\n"@;
            assert(m =~= head + tool_name + rest);
            lemma_part_is_held(head, tool_name, rest);
            lemma_part_is_held(head + tool_name + "`：`"@, json_compact(arguments), "`\n"@);
        },
        EventView::ToolResult { output, is_error, .. } => {
            let mark = if is_error {
                "✗"@
            } else {
                "✓"@
            };
            let rest = " 结果：`"@ + json_compact(output) + "`\n\n"@;
            assert(m =~= "  "@ + mark + rest);
            lemma_part_is_held("  "@, mark, rest);
            lemma_part_is_held("  "@ + mark + " 结果：`"@, json_compact(output), "`\n\n"@);
        },
        _ => {},
    }
}

/// The transcript of a session holds its title.
pub proof fn lemma_title_is_in_the_transcript(s: SessionView)
    ensures
        holds(markdown(s), s.title),
{
    let head = "# "@ + s.title + "\n\n"@;
    let body = log_markdown(s.log);
    lemma_part_is_held("# "@, s.title, "\n\n"@);
    lemma_held_in_front(head, body, s.title);
    if s.tasks.len() > 0 {
        lemma_held_in_front(head + body, "\n## 任务\n\n"@ + tasks_markdown(s.tasks), s.title);
    } else {
        lemma_held_in_front(head + body, Seq::empty(), s.title);
    }
}

/// Whatever one event of the log says is in the transcript of the session.
pub proof fn lemma_event_is_in_the_transcript(s: SessionView, i: int)
    requires
        0 <= i < s.log.len(),
    ensures
        holds(markdown(s), event_markdown(s.log[i])),
{
    let none: Seq<TaskView> = Seq::empty();
    let head = "# "@ + s.title + "\n\n"@;
    let body = log_markdown(s.log);
    let e = s.log[i];
    let a = s.log.take(i);
    let b = s.log.skip(i + 1);
    let m = event_markdown(e);
    assert(s.log =~= a + seq![e] + b);
    lemma_transcript_in_parts(a, seq![e], none, none, e, s.tasks[0]);
    lemma_transcript_in_parts(a + seq![e], b, none, none, e, s.tasks[0]);
    assert(body == log_markdown(a) + m + log_markdown(b));
    lemma_part_is_held(log_markdown(a), m, log_markdown(b));
    lemma_held_behind(head, body, m);
    if s.tasks.len() > 0 {
        lemma_held_in_front(head + body, "\n## 任务\n\n"@ + tasks_markdown(s.tasks), m);
    } else {
        lemma_held_in_front(head + body, Seq::empty(), m);
    }
}

/// Whatever one task of the list says is in the transcript of the session.
pub proof fn lemma_task_is_in_the_transcript(s: SessionView, k: int)
    requires
        0 <= k < s.tasks.len(),
    ensures
        holds(markdown(s), task_markdown(s.tasks[k])),
{
    let nothing: Seq<EventView> = Seq::empty();
    let t = s.tasks[k];
    let a = s.tasks.take(k);
    let b = s.tasks.skip(k + 1);
    let m = task_markdown(t);
    assert(s.tasks =~= a + seq![t] + b);
    lemma_transcript_in_parts(nothing, nothing, a, seq![t], s.log[0], t);
    lemma_transcript_in_parts(nothing, nothing, a + seq![t], b, s.log[0], t);
    assert(tasks_markdown(s.tasks) == tasks_markdown(a) + m + tasks_markdown(b));
    lemma_part_is_held(tasks_markdown(a), m, tasks_markdown(b));
    lemma_held_behind("\n## 任务\n\n"@, tasks_markdown(s.tasks), m);
    let head = "# "@ + s.title + "\n\n"@;
    lemma_held_behind(
        head + log_markdown(s.log),
        "\n## 任务\n\n"@ + tasks_markdown(s.tasks),
        m,
    );
}

/// The line of a task holds its title, and a mark that tells whether it is done.
pub proof fn lemma_task_line(t: TaskView)
    ensures
        holds(task_markdown(t), t.title),
        t.done ==> task_markdown(t).take(5) == "- [x]"@,
        !t.done ==> task_markdown(t).take(5) == "- [ ]"@,
        task_markdown(t).last() == '\n',
{
    reveal_strlit("- ");
    reveal_strlit("[x]");
    reveal_strlit("[ ]");
    reveal_strlit("- [x]");
    reveal_strlit("- [ ]");
    reveal_strlit("\n");
    reveal_strlit(" ");
    let mark = if t.done {
        "[x]"@
    } else {
        "[ ]"@
    };
    lemma_part_is_held("- "@ + mark + " "@, t.title, "\n"@);
    assert(t.done ==> task_markdown(t).take(5) =~= "- [x]"@);
    assert(!t.done ==> task_markdown(t).take(5) =~= "- [ ]"@);
}

// ---------- todo lists ----------

/// Marking a task marks the first one of its identity and no other: its title and its identity stay,
/// and its status says what its mark says. Where there is none, nothing is marked.
pub proof fn lemma_one_task_is_marked(tasks: Seq<TaskView>, id: Seq<char>, done: bool, k: int)
    requires
        0 <= k < tasks.len(),
        tasks[k].id == id,
        forall|j: int| 0 <= j < k ==> (#[trigger] tasks[j]).id != id,
    ensures
        ({
            let after_all = with_done(tasks, id, done);
            &&& after_all.len() == tasks.len()
            &&& after_all[k].id == id
            &&& after_all[k].title == tasks[k].title
            &&& after_all[k].done == done
            &&& done ==> after_all[k].status == TaskStatus::Completed
            &&& !done ==> after_all[k].status == TaskStatus::Pending
            &&& forall|j: int| 0 <= j < tasks.len() && j != k ==> #[trigger] after_all[j] == tasks[j]
        }),
{
    let names = task_ids(tasks);
    assert forall|j: int| 0 <= j < k implies names[j] != id by {
        assert(names[j] == tasks[j].id);
    }
    assert(names[k] == id);
    lemma_span_is(names, id, k);
}

/// A task that is not in the list cannot be marked.
pub proof fn lemma_no_task_is_marked(tasks: Seq<TaskView>, id: Seq<char>, done: bool)
    requires
        forall|j: int| 0 <= j < tasks.len() ==> (#[trigger] tasks[j]).id != id,
    ensures
        with_done(tasks, id, done) == tasks,
        span(task_ids(tasks), id) == tasks.len(),
{
    let names = task_ids(tasks);
    assert forall|j: int| 0 <= j < names.len() implies names[j] != id by {
        assert(names[j] == tasks[j].id);
    }
    lemma_span_is(names, id, names.len() as int);
}

/// A new todo list has every item, in order, with its title and its status, and is done exactly
/// where the status says so; it takes as many identities as it has items.
pub proof fn lemma_new_list(items: Seq<(Seq<char>, TaskStatus)>, n: u64)
    ensures
        task_list(items, n).len() == items.len(),
        forall|i: int|
            0 <= i < items.len() ==> {
                let t = #[trigger] task_list(items, n)[i];
                &&& t.title == items[i].0
                &&& t.status == items[i].1
                &&& t.done <==> items[i].1 == TaskStatus::Completed
            },
        n + items.len() <= u64::MAX ==> forall|i: int, j: int|
            0 <= i < j < items.len() ==> (#[trigger] task_list(items, n)[i]).id != (
            #[trigger] task_list(items, n)[j]).id,
{
    if n + items.len() <= u64::MAX {
        let list = task_list(items, n);
        assert forall|i: int, j: int| 0 <= i < j < items.len() implies (#[trigger] list[i]).id != (
        #[trigger] list[j]).id by {
            lemma_later(n, i as nat);
            lemma_later(n, j as nat);
            if list[i].id == list[j].id {
                lemma_ids_distinct(
                    IdKind::Task,
                    later(n, i as nat),
                    IdKind::Task,
                    later(n, j as nat),
                );
            }
        }
    }
}

proof fn lemma_later(n: u64, k: nat)
    requires
        n + k <= u64::MAX,
    ensures
        later(n, k) == n + k,
    decreases k,
{
    if k > 0 {
        lemma_later(n, (k - 1) as nat);
    }
}

// ---------- sessions ----------

/// The listing of a session counts its events and its tasks.
pub proof fn lemma_listing_counts(s: SessionView)
    ensures
        meta_of(s).id == s.id,
        meta_of(s).title == s.title,
        meta_of(s).created_at == s.created_at,
        meta_of(s).event_count == s.log.len(),
        meta_of(s).task_count == s.tasks.len(),
        meta_tree(meta_of(s)).text_at("id"@) == Some(s.id),
        meta_tree(meta_of(s)).text_at("title"@) == Some(s.title),
        meta_tree(meta_of(s)).number_at("created_at"@) == Some(s.created_at),
        s.log.len() <= u64::MAX ==> meta_tree(meta_of(s)).number_at("event_count"@) == Some(
            s.log.len() as u64,
        ),
        s.tasks.len() <= u64::MAX ==> meta_tree(meta_of(s)).number_at("task_count"@) == Some(
            s.tasks.len() as u64,
        ),
{
    reveal_strlit("id");
    reveal_strlit("title");
    reveal_strlit("created_at");
    reveal_strlit("event_count");
    reveal_strlit("task_count");
    assert("id"@.len() == 2 && "title"@.len() == 5 && "created_at"@.len() == 10
        && "event_count"@.len() == 11 && "task_count"@.len() == 10);
    assert("created_at"@[0] != "task_count"@[0]);
}

/// A new session has nothing in its log and no tasks; sessions of different names have different
/// workspaces, each of which ends with the name of its session.
pub proof fn lemma_new_session(
    id: Seq<char>,
    other: Seq<char>,
    title: Seq<char>,
    observed: bool,
    home: Seq<char>,
    now: u64,
)
    ensures
        fresh(id, title, observed, home, now).log.len() == 0,
        fresh(id, title, observed, home, now).tasks.len() == 0,
        fresh(id, title, observed, home, now).title == title,
        fresh(id, title, observed, home, now).created_at == now,
        fresh(id, title, observed, home, now).work_mode == "direct"@,
        fresh(id, title, observed, home, now).workflow_phase.len() == 0,
        ({
            let w = fresh(id, title, observed, home, now).workspace;
            id.len() > 0 && id[0] != '/' ==> w.len() > id.len() && w.skip(w.len() - id.len()) == id
        }),
        id.len() > 0 && id[0] != '/' && other.len() > 0 && other[0] != '/' && id != other ==> fresh(
            id,
            title,
            observed,
            home,
            now,
        ).workspace != fresh(other, title, observed, home, now).workspace,
{
    reveal_strlit("");
    reveal_strlit("/");
    reveal_strlit(".rh");
    reveal_strlit("workspaces");
    let base = under(under(home, ".rh"@), "workspaces"@);
    let a = fresh(id, title, observed, home, now).workspace;
    let b = fresh(other, title, observed, home, now).workspace;
    assert(base.last() == 's');
    if id.len() > 0 && id[0] != '/' {
        assert(a.skip(a.len() - id.len()) =~= id);
        if other.len() > 0 && other[0] != '/' && a == b {
            assert(a.skip(base.len() as int + 1) =~= id);
            assert(b.skip(base.len() as int + 1) =~= other);
        }
    }
}

/// A fork has all of the log and the tasks, so that a model sees the same history; its identity, its
/// age and its workspace are its own, as those of a new session.
pub proof fn lemma_forks(
    s: SessionView,
    id: Seq<char>,
    home: Seq<char>,
    now: u64,
    prompt: Option<Seq<char>>,
)
    ensures
        forked(s, id, home, now).log == s.log,
        model_history(prompt, forked(s, id, home, now).log) == model_history(prompt, s.log),
        forked(s, id, home, now).tasks == s.tasks,
        forked(s, id, home, now).title == s.title,
        forked(s, id, home, now).work_mode == s.work_mode,
        forked(s, id, home, now).id == id,
        forked(s, id, home, now).created_at == now,
        forked(s, id, home, now).workspace == fresh(id, s.title, s.observed, home, now).workspace,
{
}

// ---------- the form in which a session is stored ----------

proof fn lemma_record_words()
    ensures
        "id"@.len() == 2,
        "title"@.len() == 5 && "title"@[1] == 'i',
        "created_at"@.len() == 10,
        "events"@.len() == 6,
        "tasks"@.len() == 5 && "tasks"@[1] == 'a',
        "workspace"@.len() == 9 && "workspace"@[4] == 's',
        "work_mode"@.len() == 9 && "work_mode"@[4] == '_',
        "workflow_phase"@.len() == 14,
        "done"@.len() == 4,
        "status"@.len() == 6,
        "kind"@.len() == 4 && "kind"@[0] == 'k',
        "text"@.len() == 4 && "text"@[0] == 't' && "text"@[1] == 'e',
        "name"@.len() == 4 && "name"@[0] == 'n',
        "type"@.len() == 4 && "type"@[0] == 't' && "type"@[1] == 'y',
        "mode"@.len() == 4 && "mode"@[0] == 'm',
        "step"@.len() == 4 && "step"@[0] == 's',
        "arguments"@.len() == 9 && "arguments"@[0] == 'a',
        "output"@.len() == 6,
        "is_error"@.len() == 8,
        "message_id"@.len() == 10,
        "content"@.len() == 7 && "content"@[0] == 'c',
        "tool_call_id"@.len() == 12,
        "tool_name"@.len() == 9 && "tool_name"@[0] == 't',
        "turn_id"@.len() == 7 && "turn_id"@[0] == 't',
        "step_id"@.len() == 7 && "step_id"@[0] == 's',
{
    reveal_strlit("id");
    reveal_strlit("title");
    reveal_strlit("created_at");
    reveal_strlit("events");
    reveal_strlit("tasks");
    reveal_strlit("workspace");
    reveal_strlit("work_mode");
    reveal_strlit("workflow_phase");
    reveal_strlit("done");
    reveal_strlit("status");
    reveal_strlit("kind");
    reveal_strlit("text");
    reveal_strlit("name");
    reveal_strlit("type");
    reveal_strlit("mode");
    reveal_strlit("step");
    reveal_strlit("arguments");
    reveal_strlit("output");
    reveal_strlit("is_error");
    reveal_strlit("message_id");
    reveal_strlit("content");
    reveal_strlit("tool_call_id");
    reveal_strlit("tool_name");
    reveal_strlit("turn_id");
    reveal_strlit("step_id");
}

/// A stored session has a member for everything that it is made of, and its events and tasks are
/// stored one by one and in order.
pub proof fn lemma_record_members(r: RecordView)
    ensures
        ({
            let t = record_tree(r);
            &&& t.text_at("id"@) == Some(r.id)
            &&& t.text_at("title"@) == Some(r.title)
            &&& t.number_at("created_at"@) == Some(r.created_at)
            &&& t.text_at("work_mode"@) == Some(r.work_mode)
            &&& t.text_at("workflow_phase"@) == Some(r.workflow_phase)
            &&& r.workspace matches Some(w) ==> t.text_at("workspace"@) == Some(w)
            &&& r.workspace is None ==> t.at("workspace"@) == Some(Tree::Null)
            &&& t.list_at("events"@) matches Some(list) && list.len() == r.events.len() && (forall|
                i: int,
            |
                0 <= i < list.len() ==> #[trigger] list[i] == event_tree(r.events[i]))
            &&& t.list_at("tasks"@) matches Some(list) && list.len() == r.tasks.len() && (forall|
                i: int,
            |
                0 <= i < list.len() ==> #[trigger] list[i] == task_tree(r.tasks[i]))
        }),
{
    lemma_record_words();
}

/// A stored task has its identity, its title, its mark and the word for its status.
pub proof fn lemma_task_members(t: TaskView)
    ensures
        task_tree(t).text_at("id"@) == Some(t.id),
        task_tree(t).text_at("title"@) == Some(t.title),
        task_tree(t).truth_at("done"@) == Some(t.done),
        task_tree(t).text_at("status"@) == Some(status_word(t.status)),
{
    lemma_record_words();
}

/// A session that was stored before it had a workspace, a mode and a phase is read with none, the
/// direct mode and no phase.
pub proof fn lemma_early_record(t: Tree, r: RecordView)
    requires
        t is Object,
        SessionRecord::read(t) == Some(r),
    ensures
        t.at("workspace"@) is None ==> r.workspace is None,
        t.at("work_mode"@) is None ==> r.work_mode == "direct"@,
        t.at("workflow_phase"@) is None ==> r.workflow_phase.len() == 0,
        t.text_at("id"@) == Some(r.id),
        t.text_at("title"@) == Some(r.title),
        t.number_at("created_at"@) == Some(r.created_at),
{
    reveal_strlit("");
}

/// A stored block tells its kind and has a member for everything that it is made of.
pub proof fn lemma_block_members(b: BlockView)
    ensures
        ({
            let t = block_tree(b);
            match b {
                BlockView::Text { text } => t.text_at("kind"@) == Some("text"@) && t.text_at(
                    "text"@,
                ) == Some(text),
                BlockView::ToolCall { id, name, arguments } => t.text_at("kind"@) == Some(
                    "tool_call"@,
                ) && t.text_at("id"@) == Some(id) && t.text_at("name"@) == Some(name) && t.at(
                    "arguments"@,
                ) == Some(arguments),
                BlockView::ToolResult { id, output, is_error } => t.text_at("kind"@) == Some(
                    "tool_result"@,
                ) && t.text_at("id"@) == Some(id) && t.at("output"@) == Some(output) && t.truth_at(
                    "is_error"@,
                ) == Some(is_error),
            }
        }),
{
    lemma_record_words();
}

/// A stored event tells its kind and has a member for everything that it is made of; the blocks of a
/// message are stored one by one and in order.
pub proof fn lemma_event_members(e: EventView)
    ensures
        ({
            let t = event_tree(e);
            match e {
                EventView::UserMessage { message_id, content } => t.text_at("type"@) == Some(
                    "user_message"@,
                ) && t.text_at("message_id"@) == Some(message_id) && holds_blocks(t, content),
                EventView::AssistantMessage { message_id, content } => t.text_at("type"@) == Some(
                    "assistant_message"@,
                ) && t.text_at("message_id"@) == Some(message_id) && holds_blocks(t, content),
                EventView::AssistantChunk { message_id, text } => t.text_at("type"@) == Some(
                    "assistant_chunk"@,
                ) && t.text_at("message_id"@) == Some(message_id) && t.text_at("text"@) == Some(
                    text,
                ),
                EventView::ReasoningChunk { message_id, text } => t.text_at("type"@) == Some(
                    "reasoning_chunk"@,
                ) && t.text_at("message_id"@) == Some(message_id) && t.text_at("text"@) == Some(
                    text,
                ),
                EventView::ToolCall { tool_call_id, tool_name, arguments } => t.text_at("type"@)
                    == Some("tool_call"@) && t.text_at("tool_call_id"@) == Some(tool_call_id)
                    && t.text_at("tool_name"@) == Some(tool_name) && t.at("arguments"@) == Some(
                    arguments,
                ),
                EventView::ToolResult { tool_call_id, output, is_error } => t.text_at("type"@)
                    == Some("tool_result"@) && t.text_at("tool_call_id"@) == Some(tool_call_id)
                    && t.at("output"@) == Some(output) && t.truth_at("is_error"@) == Some(is_error),
                EventView::TurnStart { turn_id } => t.text_at("type"@) == Some("turn_start"@)
                    && t.text_at("turn_id"@) == Some(turn_id),
                EventView::StepStart { step_id } => t.text_at("type"@) == Some("step_start"@)
                    && t.text_at("step_id"@) == Some(step_id),
                EventView::StepEnd { step_id } => t.text_at("type"@) == Some("step_end"@)
                    && t.text_at("step_id"@) == Some(step_id),
                EventView::TurnEnd { turn_id } => t.text_at("type"@) == Some("turn_end"@)
                    && t.text_at("turn_id"@) == Some(turn_id),
                EventView::WorkflowStep { mode, step } => t.text_at("type"@) == Some(
                    "workflow_step"@,
                ) && t.text_at("mode"@) == Some(mode) && t.text_at("step"@) == Some(step),
            }
        }),
{
    lemma_record_words();
}

/// Whether the content of a stored message is the given blocks.
pub open spec fn holds_blocks(t: Tree, content: Seq<BlockView>) -> bool {
    &&& t.list_at("content"@) matches Some(list)
    &&& list.len() == content.len()
    &&& forall|i: int| 0 <= i < list.len() ==> #[trigger] list[i] == block_tree(content[i])
}

// ---------- stores ----------

/// Sessions are listed oldest first.
pub proof fn lemma_oldest_first(s: Seq<SessionView>, i: int, j: int)
    requires
        0 <= i < j < s.len(),
    ensures
        ({
            let list = sorted::<SessionMeta>(metas(s));
            list.len() == s.len() && list[i].created_at <= list[j].created_at
        }),
{
    lemma_sorted::<SessionMeta>(metas(s));
    let list = sorted::<SessionMeta>(metas(s));
    assert(SessionMeta::before(list[i], list[j]));
}

/// Deleting a session leaves every other one where it is found, as it was.
pub proof fn lemma_others_stay(s: Seq<SessionView>, id: Seq<char>, other: Seq<char>)
    requires
        other != id,
    ensures
        session_at(without(s, id), other) == session_at(s, other),
    decreases s.len(),
{
    let f = |x: SessionView| x.id != id;
    if s.len() == 0 {
        lemma_filter_nothing(s, f);
    } else {
        let front = s.drop_last();
        let last = s.last();
        assert(s =~= front.push(last));
        lemma_filter_push(front, last, f);
        lemma_others_stay(front, id, other);
        lemma_found_in_push(front, last, other);
        lemma_found_in_push(without(front, id), last, other);
    }
}

proof fn lemma_filter_nothing(s: Seq<SessionView>, f: spec_fn(SessionView) -> bool)
    requires
        s.len() == 0,
    ensures
        s.filter(f) == s,
{
    reveal(Seq::filter);
    assert(s.filter(f) =~= s);
}

proof fn lemma_found_in_push(s: Seq<SessionView>, x: SessionView, id: Seq<char>)
    ensures
        session_at(s, id) is Some ==> session_at(s.push(x), id) == session_at(s, id),
        session_at(s, id) is None ==> session_at(s.push(x), id) == (if x.id == id {
            Some(x)
        } else {
            None
        }),
{
    let a = session_ids(s);
    let b = session_ids(s.push(x));
    assert(b =~= a.push(x.id));
    lemma_span(a, id);
    let n = span(a, id) as int;
    assert forall|j: int| 0 <= j < n implies b[j] != id by {
        assert(b[j] == a[j]);
    }
    if n < a.len() {
        assert(b[n] == a[n]);
        lemma_span_is(b, id, n);
    } else if x.id == id {
        lemma_span_is(b, id, n);
    } else {
        lemma_span_is(b, id, n + 1);
    }
}

/// A file of the store counts where it is named as one and holds a session: that session is found
/// then. Any other entry of the directory changes nothing.
pub proof fn lemma_stored_files(
    s: Seq<SessionView>,
    name: Seq<char>,
    ending: Seq<char>,
    text: Seq<char>,
    r: RecordView,
    observed: bool,
    home: Seq<char>,
)
    requires
        name.len() > 0,
        ending.len() > 0,
        !ending.contains('.'),
        record_in(text) == Some(r),
    ensures
        ending == "json"@ ==> session_at(
            with_entry(s, name + "."@ + ending, Some(text), observed, home),
            r.id,
        ) == Some(session_of(r, observed, home)),
        ending != "json"@ ==> with_entry(s, name + "."@ + ending, Some(text), observed, home) == s,
        with_entry(s, name + "."@ + ending, None, observed, home) == s,
        session_of(r, observed, home).log == r.events,
        session_of(r, observed, home).tasks == r.tasks,
        session_of(r, observed, home).title == r.title,
        session_of(r, observed, home).observed == observed,
        r.workspace matches Some(w) ==> session_of(r, observed, home).workspace == w,
{
    lemma_endings(name, ending);
    lemma_insert_get(s, session_of(r, observed, home));
}

/// A store in memory writes nothing; one with a directory keeps a session in a file of its own there,
/// as indented JSON.
pub proof fn lemma_files_of_sessions(dir: Seq<char>, s: SessionView)
    ensures
        saved(None, s) is None,
        saved(Some(dir), s) matches Some(w) && w.text == json_pretty(record_tree(record_of(s)))
            && (s.id.len() > 0 && s.id[0] != '/' && dir.len() > 0 && dir.last() != '/' ==> w.path
            == dir + seq!['/'] + s.id + ".json"@),
{
    reveal_strlit("/");
    let p = s.id + ".json"@;
    if s.id.len() > 0 && s.id[0] != '/' && dir.len() > 0 && dir.last() != '/' {
        assert(p[0] == s.id[0]);
        assert("/"@ =~= seq!['/']);
        assert(dir + seq!['/'] + s.id + ".json"@ =~= dir + "/"@ + p);
    }
}

// ---------- workspaces ----------

/// The lines for a folder are in order, one for each entry and at most fifty: the first ones. A
/// folder is marked otherwise than a file.
pub proof fn lemma_workspace_lines(entries: Seq<(Seq<char>, bool)>, name: Seq<char>)
    ensures
        ({
            let all = sorted::<String>(entry_lines(entries));
            &&& in_order::<String>(all)
            &&& all.len() == entries.len()
            &&& all.to_multiset() == entry_lines(entries).to_multiset()
            &&& entries.len() <= 50 ==> shown_entries(entries) == joined(all, "\n"@)
            &&& entries.len() > 50 ==> shown_entries(entries) == joined(all.take(50), "\n"@)
        }),
        entry_line(name, true) != entry_line(name, false),
        holds(entry_line(name, true), name),
        holds(entry_line(name, false), name),
{
    reveal_strlit("📁");
    reveal_strlit("📄");
    reveal_strlit(" ");
    lemma_sorted::<String>(entry_lines(entries));
    assert(entry_line(name, true)[0] == '📁');
    assert(entry_line(name, false)[0] == '📄');
    let none: Seq<char> = Seq::empty();
    lemma_part_is_held("📁"@ + " "@, name, none);
    lemma_part_is_held("📄"@ + " "@, name, none);
    assert("📁"@ + " "@ + name + none =~= entry_line(name, true));
    assert("📄"@ + " "@ + name + none =~= entry_line(name, false));
}

/// What a prompt is told of a workspace holds its root and what is in it, says that an empty folder
/// is empty and that one cannot be read, and whether it is a repository.
pub proof fn lemma_workspace_is_told(
    root: Seq<char>,
    listing: Option<Seq<(Seq<char>, bool)>>,
    is_git: bool,
)
    ensures
        ({
            let s = workspace_text(root, listing, is_git);
            &&& holds(s, root)
            &&& is_git ==> holds(s, "Git 仓库：是"@)
            &&& !is_git ==> holds(s, "Git 仓库：否"@)
            &&& listing is None ==> holds(s, "(不可读)"@)
            &&& listing matches Some(entries) ==> shown_entries(entries).len() == 0 ==> holds(
                s,
                "(空)"@,
            )
            &&& listing matches Some(entries) ==> holds(s, shown_entries(entries))
        }),
{
    let s = workspace_text(root, listing, is_git);
    let middle = crate::session::workspace::listing_text(listing);
    let word = if is_git {
        "是"@
    } else {
        "否"@
    };
    let tail = "Git 仓库："@ + word + "\n"@;
    lemma_part_is_held("工作区目录："@, root, "\n"@ + middle + tail);
    assert(s =~= "工作区目录："@ + root + ("\n"@ + middle + tail));
    let front = "工作区目录："@ + root + "\n"@;
    assert(s =~= front + middle + tail);
    reveal_strlit("Git 仓库：");
    reveal_strlit("是");
    reveal_strlit("否");
    reveal_strlit("Git 仓库：是");
    reveal_strlit("Git 仓库：否");
    assert("Git 仓库：是"@ =~= "Git 仓库："@ + "是"@);
    assert("Git 仓库：否"@ =~= "Git 仓库："@ + "否"@);
    let said = "Git 仓库："@ + word;
    assert(s =~= (front + middle) + said + "\n"@);
    lemma_part_is_held(front + middle, said, "\n"@);
    match listing {
        None => {
            reveal_strlit("目录内容：(不可读)\n");
            reveal_strlit("(不可读)");
            let a = middle.take(5);
            let b = middle.skip(10);
            assert(middle =~= a + "(不可读)"@ + b);
            lemma_part_is_held(a, "(不可读)"@, b);
            lemma_held_behind(front, middle, "(不可读)"@);
            lemma_held_in_front(front + middle, tail, "(不可读)"@);
        },
        Some(entries) => {
            let lines = shown_entries(entries);
            let shown = if lines.len() == 0 {
                "(空)"@
            } else {
                lines
            };
            lemma_part_is_held("目录内容：\n"@, shown, "\n"@);
            lemma_held_behind(front, middle, shown);
            lemma_held_in_front(front + middle, tail, shown);
            if lines.len() == 0 {
                assert(lines =~= Seq::empty());
                lemma_part_is_held(s, lines, Seq::empty());
                assert(s + lines + Seq::<char>::empty() =~= s);
            }
        },
    }
}

} // verus!

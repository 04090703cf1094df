//! What the tools tell of tasks, read in the members of their answers.
use vstd::prelude::*;
use vstd::string::*;

use crate::json::Tree;
use crate::session::event::EventView;
use crate::session::log::text_lines;
use crate::table::{at, has, lemma_put_at, lemma_put_keeps, lemma_without_at};
use crate::text::{clipped, decimal, lemma_decimal_injective};
use crate::text_laws::lemma_cut_texts;
use crate::tools::subagent::{
    TasksView, all_tree, awaited, awaited_tree, cancelled, has_ended, ids_in, output_result,
    reported, settled, spawned, state_tree, task_id, task_title, wait_is_over,
};

verus! {

/// The answer for a task that ended well.
pub open spec fn says_completed(t: Tree, id: Seq<char>, text: Seq<char>) -> bool {
    &&& t.text_at("task_id"@) == Some(id)
    &&& t.text_at("status"@) == Some("completed"@)
    &&& t.text_at("output"@) == Some(text)
    &&& t.at("error"@) is None
}

/// The answer for a task that failed.
pub open spec fn says_failed(t: Tree, id: Seq<char>, error: Seq<char>) -> bool {
    &&& t.text_at("task_id"@) == Some(id)
    &&& t.text_at("status"@) == Some("failed"@)
    &&& t.text_at("error"@) == Some(error)
    &&& t.at("output"@) is None
}

/// The answer for a task that runs.
pub open spec fn says_running(t: Tree, id: Seq<char>) -> bool {
    &&& t.text_at("task_id"@) == Some(id)
    &&& t.text_at("status"@) == Some("running"@)
    &&& t.at("output"@) is None
    &&& t.at("error"@) is None
}

proof fn lemma_words_differ()
    ensures
        "task_id"@ != "status"@,
        "task_id"@ != "output"@,
        "task_id"@ != "error"@,
        "status"@ != "output"@,
        "status"@ != "error"@,
        "output"@ != "error"@,
        "running"@ != "completed"@,
        "running"@ != "failed"@,
        "completed"@ != "failed"@,
{
    reveal_strlit("task_id");
    reveal_strlit("status");
    reveal_strlit("output");
    reveal_strlit("error");
    reveal_strlit("running");
    reveal_strlit("completed");
    reveal_strlit("failed");
    assert("task_id"@.len() != "status"@.len());
    assert("task_id"@.len() != "output"@.len());
    assert("task_id"@.len() != "error"@.len());
    assert("status"@[0] != "output"@[0]);
    assert("status"@.len() != "error"@.len());
    assert("output"@.len() != "error"@.len());
    assert("running"@.len() != "completed"@.len());
    assert("running"@.len() != "failed"@.len());
    assert("completed"@.len() != "failed"@.len());
}

proof fn lemma_state_is_told(id: Seq<char>, state: Option<Result<Seq<char>, Seq<char>>>)
    ensures
        match state {
            Some(Ok(text)) => says_completed(state_tree(id, state), id, text),
            Some(Err(error)) => says_failed(state_tree(id, state), id, error),
            None => says_running(state_tree(id, state), id),
        },
{
    lemma_words_differ();
}

/// What `task_output` gives for a task.
pub open spec fn output_of(v: TasksView, id: Seq<char>, args: Tree) -> Option<Tree> {
    if args.text_at("task_id"@) == Some(id) {
        match output_result(Some(v), args) {
            Ok(t) => Some(t),
            Err(_) => None,
        }
    } else {
        None
    }
}

/// What `task_wait` gives for the task at position `i` of those that are awaited.
pub open spec fn waited_for(v: TasksView, ids: Seq<Seq<char>>, i: int) -> Tree {
    all_tree(v, ids).list_at("tasks"@)->0[i]
}

/// Once a known task has ended well, reading it and waiting for it give its output under the word
/// `completed`; once it has failed, its error under the word `failed`.
pub proof fn lemma_end_is_told(
    v: TasksView,
    id: Seq<char>,
    text: Seq<char>,
    args: Tree,
    ids: Seq<Seq<char>>,
    i: int,
)
    requires
        has(v.tasks, id),
        args.text_at("task_id"@) == Some(id),
        0 <= i < ids.len(),
        ids[i] == id,
    ensures
        output_of(settled(v, id, Ok(text)), id, args) matches Some(t) && says_completed(
            t,
            id,
            text,
        ),
        output_of(settled(v, id, Err(text)), id, args) matches Some(t) && says_failed(
            t,
            id,
            text,
        ),
        says_completed(waited_for(settled(v, id, Ok(text)), ids, i), id, text),
        says_failed(waited_for(settled(v, id, Err(text)), ids, i), id, text),
        has_ended(settled(v, id, Ok(text)), id),
        has_ended(settled(v, id, Err(text)), id),
{
    lemma_put_at(v.tasks, id, Some(Ok::<Seq<char>, Seq<char>>(text)));
    lemma_put_at(v.tasks, id, Some(Err::<Seq<char>, Seq<char>>(text)));
    lemma_state_is_told(id, Some(Ok(text)));
    lemma_state_is_told(id, Some(Err(text)));
    lemma_words_differ();
}

/// A task is told to be running exactly while it has not ended: one that is read must be known, and
/// one that is waited for need not be. The answer to a wait tells of every task, in order.
pub proof fn lemma_running_is_told(v: TasksView, id: Seq<char>, args: Tree, ids: Seq<Seq<char>>)
    requires
        args.text_at("task_id"@) == Some(id),
    ensures
        output_of(v, id, args) is Some <==> has(v.tasks, id),
        output_of(v, id, args) matches Some(t) ==> {
            &&& t.text_at("task_id"@) == Some(id)
            &&& t.text_at("status"@) == Some("running"@) <==> at(v.tasks, id) == Some(
                None::<Result<Seq<char>, Seq<char>>>,
            )
        },
        all_tree(v, ids).list_at("tasks"@) matches Some(list) && list.len() == ids.len(),
        forall|i: int|
            0 <= i < ids.len() ==> {
                let t = #[trigger] waited_for(v, ids, i);
                &&& t.text_at("task_id"@) == Some(ids[i])
                &&& t.text_at("status"@) == Some("running"@) <==> !(at(
                    v.tasks,
                    ids[i],
                ) matches Some(Some(_)))
            },
        forall|i: int|
            0 <= i < ids.len() && has(v.tasks, ids[i]) ==> #[trigger] waited_for(v, ids, i)
                == state_tree(ids[i], at(v.tasks, ids[i])->0),
{
    lemma_words_differ();
    if has(v.tasks, id) {
        lemma_state_is_told(id, at(v.tasks, id)->0);
    }
    assert forall|i: int| 0 <= i < ids.len() implies {
        let t = #[trigger] waited_for(v, ids, i);
        &&& t.text_at("task_id"@) == Some(ids[i])
        &&& t.text_at("status"@) == Some("running"@) <==> !(at(v.tasks, ids[i]) matches Some(
            Some(_),
        ))
    } by {
        assert(waited_for(v, ids, i) == awaited_tree(v, ids[i]));
        if has(v.tasks, ids[i]) {
            lemma_state_is_told(ids[i], at(v.tasks, ids[i])->0);
        } else {
            lemma_state_is_told(ids[i], None);
        }
    }
}

/// Reading a task and waiting for it tell the same of one that is known; a cancelled task cannot be
/// read any more, and what is told of any other stays as it was, whatever becomes of this one.
pub proof fn lemma_tasks_do_not_mix(
    v: TasksView,
    id: Seq<char>,
    end: Result<Seq<char>, Seq<char>>,
    other: Seq<char>,
    args: Tree,
)
    requires
        args.text_at("task_id"@) == Some(other),
    ensures
        has(v.tasks, other) ==> output_of(v, other, args) == Some(
            waited_for(v, seq![other], 0),
        ),
        other != id ==> output_of(settled(v, id, end), other, args) == output_of(v, other, args),
        other != id ==> output_of(
            cancelled(v, id),
            other,
            args,
        ) == output_of(v, other, args),
        other == id ==> output_of(cancelled(v, id), other, args)
            is None,
{
    lemma_words_differ();
    lemma_without_at(v.tasks, id, other);
    if other != id {
        lemma_put_keeps(v.tasks, id, Some(end), other);
    }
    assert(waited_for(v, seq![other], 0) == awaited_tree(v, seq![other][0]));
}

/// A new task is told to be running, and what is told of the others stays; the end of a task that was
/// cancelled, or was never given, changes nothing.
pub proof fn lemma_new_task_runs(
    v: TasksView,
    args: Tree,
    other: Seq<char>,
    other_args: Tree,
    end: Result<Seq<char>, Seq<char>>,
)
    requires
        args.text_at("task_id"@) == Some(task_id(v.next_id)),
        other_args.text_at("task_id"@) == Some(other),
        other != task_id(v.next_id),
    ensures
        output_of(spawned(v), task_id(v.next_id), args) matches Some(t) && says_running(
            t,
            task_id(v.next_id),
        ),
        output_of(spawned(v), other, other_args) == output_of(v, other, other_args),
        v.next_id < u64::MAX ==> spawned(v).next_id == v.next_id + 1,
        at(v.tasks, other) is None ==> settled(v, other, end) == v,
        settled(cancelled(v, other), other, end) == cancelled(v, other),
{
    let id = task_id(v.next_id);
    lemma_put_at(v.tasks, id, None);
    lemma_put_keeps(v.tasks, id, None, other);
    lemma_state_is_told(id, None);
    lemma_without_at(v.tasks, other, other);
}

/// Waiting goes on while the time is not up and one of the tasks has not ended, and no longer.
pub proof fn lemma_waiting_ends(v: TasksView, ids: Seq<Seq<char>>, k: int)
    requires
        0 <= k < ids.len(),
    ensures
        wait_is_over(v, ids, true),
        !(at(v.tasks, ids[k]) matches Some(Some(_))) ==> !wait_is_over(v, ids, false),
        (forall|i: int| 0 <= i < ids.len() ==> at(v.tasks, #[trigger] ids[i]) matches Some(Some(_)))
            ==> wait_is_over(v, ids, false),
{
    if forall|i: int| 0 <= i < ids.len() ==> at(v.tasks, #[trigger] ids[i]) matches Some(Some(_)) {
        assert forall|i: int| 0 <= i < ids.len() implies has_ended(v, #[trigger] ids[i]) by {
            assert(at(v.tasks, ids[i]) matches Some(Some(_)));
        }
    }
}

/// A task that is waited for in the foreground gives how it ended as soon as it has, whether or not
/// the time is up; until then it gives nothing, and when the time is up that it was too long.
pub proof fn lemma_foreground_waits_for_the_end(
    v: TasksView,
    id: Seq<char>,
    end: Result<Seq<char>, Seq<char>>,
    expired: bool,
)
    ensures
        has(v.tasks, id) ==> awaited(at(settled(v, id, end).tasks, id), expired) == Some(end),
        !has_ended(v, id) ==> awaited(at(v.tasks, id), false) is None,
        !has_ended(v, id) ==> awaited(at(v.tasks, id), true) == Some(
            Err::<Seq<char>, Seq<char>>("timeout"@),
        ),
{
    lemma_put_at(v.tasks, id, Some(end));
}

/// Tasks with different numbers have different identities.
pub proof fn lemma_task_ids_differ(a: u64, b: u64)
    requires
        a != b,
    ensures
        task_id(a) != task_id(b),
{
    if task_id(a) == task_id(b) {
        let n = "task-"@.len() as int;
        assert(decimal(a as nat) =~= task_id(a).skip(n));
        assert(decimal(b as nat) =~= task_id(b).skip(n));
        lemma_decimal_injective(a as nat, b as nat);
    }
}

/// The session of a task is named after its description, and after what is asked where there is none
/// or it is empty: the first characters of it.
pub proof fn lemma_task_titles(args: Tree, prompt: Seq<char>)
    ensures
        ({
            let title = task_title(args, prompt);
            let front = "子任务: "@.len() as int;
            let label = title.skip(front);
            &&& title.take(front) == "子任务: "@
            &&& label.len() <= 30
            &&& args.text_at("description"@) matches Some(d) ==> d.len() > 0 ==> label.is_prefix_of(d)
                && (d.len() <= 30 ==> label == d)
            &&& (args.text_at("description"@) is None || args.text_at("description"@) == Some(
                Seq::<char>::empty(),
            )) ==> label.is_prefix_of(prompt) && (prompt.len() <= 30 ==> label == prompt)
        }),
{
    let title = task_title(args, prompt);
    let front = "子任务: "@.len() as int;
    assert(title.take(front) =~= "子任务: "@);
    match args.text_at("description"@) {
        Some(d) => {
            lemma_cut_texts(d, 30);
            if d.len() > 0 {
                assert(title.skip(front) =~= clipped(d, 30));
                assert(clipped(d, 30) =~= d.subrange(0, clipped(d, 30).len() as int));
            }
        },
        None => {},
    }
    lemma_cut_texts(prompt, 30);
    if !(args.text_at("description"@) matches Some(d) && d.len() > 0) {
        assert(title.skip(front) =~= clipped(prompt, 30));
        assert(clipped(prompt, 30) =~= prompt.subrange(0, clipped(prompt, 30).len() as int));
    }
}

/// The tasks to wait for are the texts in a list, all of them and in order.
pub proof fn lemma_awaited_ids(a: Seq<Tree>, b: Seq<Tree>, one: Tree)
    ensures
        ids_in(a + b) == ids_in(a) + ids_in(b),
        one matches Tree::Text(s) ==> ids_in(seq![one]) == seq![s],
        !(one is Text) ==> ids_in(seq![one]).len() == 0,
    decreases b.len(),
{
    assert(seq![one].drop_last() =~= Seq::empty());
    assert(ids_in(Seq::empty()) =~= Seq::empty());
    if b.len() == 0 {
        assert(a + b =~= a);
        assert(ids_in(a) + ids_in(b) =~= ids_in(a));
    } else {
        lemma_awaited_ids(a, b.drop_last(), one);
        assert((a + b).drop_last() =~= a + b.drop_last());
        assert((a + b).last() == b.last());
        assert(ids_in(a + b) =~= ids_in(a) + ids_in(b));
    }
}

/// Whether an event is a message of the assistant with a text.
pub open spec fn speaks(e: EventView) -> bool {
    e matches EventView::AssistantMessage { content, .. } && text_lines(content).len() > 0
}

/// What a run reports is the text of the last message of the assistant that has one, wherever in
/// the log it stands; without any there is no output.
pub proof fn lemma_report_is_the_last_text(front: Seq<EventView>, e: EventView, behind: Seq<EventView>)
    requires
        forall|i: int| 0 <= i < behind.len() ==> !speaks(#[trigger] behind[i]),
    ensures
        e matches EventView::AssistantMessage { content, .. } ==> speaks(e) ==> reported(
            front.push(e) + behind,
        ) == text_lines(content),
        reported(behind) == "(no output)"@,
    decreases behind.len(),
{
    if behind.len() == 0 {
        assert(front.push(e) + behind =~= front.push(e));
    } else {
        let rest = behind.drop_last();
        assert forall|i: int| 0 <= i < rest.len() implies !speaks(#[trigger] rest[i]) by {
            assert(rest[i] == behind[i]);
        }
        lemma_report_is_the_last_text(front, e, rest);
        let all = front.push(e) + behind;
        assert(all.drop_last() =~= front.push(e) + rest);
        assert(all.last() == behind.last());
        assert(behind.last() == behind[behind.len() - 1]);
        assert(!speaks(behind.last()));
    }
}

} // verus!

//! What the built-in tools do with their arguments, told on what they give and leave behind.
use vstd::prelude::*;
use vstd::string::*;
use vstd::utf8::encode_utf8;

use crate::codec::Codec;
use crate::json::Tree;
use crate::keyed::{Keyed, found, names};
use crate::path;
use crate::path_laws::lemma_endings;
use crate::session::event::EventView;
use crate::session::laws::{lemma_new_list, lemma_task_members};
use crate::session::log::{SessionView, task_list};
use crate::session::store::{StoreView, session_at};
use crate::session::task::{TaskItem, TaskStatus, TaskView};
use crate::text::{begins, lemma_span, lemma_span_is, line_seq, without_leading};
use crate::text_laws::{blank_text, lemma_ends_are_bare, lemma_trimmed_is_the_core, tight};
use crate::tool::error::{ErrorView, ToolError, ToolErrorKind, error_text};
use crate::tools::files::{
    CommandOutput, bash_plan, bash_result, decoded_output, read_plan, read_result, shell_program, write_plan,
    write_result,
};
use crate::tools::skills::{
    Skill, SkillView, builtin, heading, skill_result, skills_in, skills_tree,
};
use crate::tools::todo::{todos_in, todos_tree, with_phase, with_session, with_todos};

verus! {

// ---------- todos ----------

/// The todos in a list are those of its first items, then those of the others. An item with a
/// content is one todo of that title; its status is the one that it names, and pending where it
/// names none. One without a content is none.
pub proof fn lemma_todos_in_parts(a: Seq<Tree>, b: Seq<Tree>, one: Tree)
    ensures
        todos_in(a + b) == todos_in(a) + todos_in(b),
        !(one.at("content"@) matches Some(Tree::Text(_))) ==> todos_in(seq![one]).len() == 0,
        one.at("content"@) matches Some(Tree::Text(title)) ==> {
            let todos = todos_in(seq![one]);
            &&& todos.len() == 1
            &&& todos[0].0 == title
            &&& one.at("status"@) == Some(Tree::Text("completed"@)) <==> todos[0].1
                == TaskStatus::Completed
            &&& one.at("status"@) == Some(Tree::Text("in_progress"@)) <==> todos[0].1
                == TaskStatus::InProgress
            &&& one.at("status"@) == Some(Tree::Text("cancelled"@)) <==> todos[0].1
                == TaskStatus::Cancelled
        },
    decreases b.len(),
{
    reveal_strlit("completed");
    reveal_strlit("in_progress");
    reveal_strlit("cancelled");
    reveal_strlit("pending");
    assert("completed"@.len() == 9 && "in_progress"@.len() == 11 && "cancelled"@.len() == 9
        && "pending"@.len() == 7);
    assert("completed"@[1] != "cancelled"@[1]);
    assert(seq![one].drop_last() =~= Seq::empty());
    assert(seq![one].last() == one);
    assert(todos_in(Seq::empty()) =~= Seq::empty());
    if b.len() == 0 {
        assert(a + b =~= a);
        assert(todos_in(a) + todos_in(b) =~= todos_in(a));
    } else {
        lemma_todos_in_parts(a, b.drop_last(), one);
        assert((a + b).drop_last() =~= a + b.drop_last());
        assert((a + b).last() == b.last());
        assert(todos_in(a + b) =~= todos_in(a) + todos_in(b));
    }
}

/// A list of todos takes the place of the one before, item by item; a single title is added behind
/// it and is still to do; without either nothing is done. Nothing else of the session changes.
pub proof fn lemma_todos_are_set(s: SessionView, args: Tree, ids: u64)
    ensures
        args.at("todos"@) matches Some(Tree::Array(items)) ==> {
            &&& with_todos(s, args, ids) matches Some((t, _))
            &&& t.tasks.len() == todos_in(items).len()
            &&& forall|i: int|
                0 <= i < t.tasks.len() ==> (#[trigger] t.tasks[i]).title == todos_in(items)[i].0
                    && t.tasks[i].status == todos_in(items)[i].1 && (t.tasks[i].done
                    <==> todos_in(items)[i].1 == TaskStatus::Completed)
        },
        !(args.at("todos"@) matches Some(Tree::Array(_))) ==> (args.at(
            "title"@,
        ) matches Some(Tree::Text(title)) ==> {
            &&& with_todos(s, args, ids) matches Some((t, _))
            &&& t.tasks.len() == s.tasks.len() + 1
            &&& t.tasks.drop_last() == s.tasks
            &&& t.tasks.last().title == title
            &&& !t.tasks.last().done
            &&& t.tasks.last().status == TaskStatus::Pending
        }),
        with_todos(s, args, ids) is None <==> !(args.at("todos"@) matches Some(Tree::Array(_)))
            && !(args.at("title"@) matches Some(Tree::Text(_))),
        with_todos(s, args, ids) matches Some((t, _)) ==> t == (SessionView {
            tasks: t.tasks,
            ..s
        }),
{
    match args.at("todos"@) {
        Some(Tree::Array(items)) => {
            lemma_new_list(todos_in(items), ids);
            let list = task_list(todos_in(items), ids);
            assert forall|i: int| 0 <= i < list.len() implies (#[trigger] list[i]).title
                == todos_in(items)[i].0 && list[i].status == todos_in(items)[i].1 && (list[i].done
                <==> todos_in(items)[i].1 == TaskStatus::Completed) by {}
        },
        _ => match args.at("title"@) {
            Some(Tree::Text(title)) => {
                let t = (with_todos(s, args, ids)->0).0;
                assert(t.tasks.drop_last() =~= s.tasks);
            },
            _ => {},
        },
    }
}

/// What the tool gives tells of every task, in order.
pub proof fn lemma_todos_are_told(tasks: Seq<TaskView>)
    ensures
        todos_tree(tasks).list_at("todos"@) matches Some(list) && list.len() == tasks.len() && (
        forall|i: int|
            0 <= i < list.len() ==> (#[trigger] list[i]).text_at("title"@) == Some(tasks[i].title)
                && list[i].text_at("id"@) == Some(tasks[i].id) && list[i].truth_at("done"@) == Some(
                tasks[i].done,
            )),
{
    let list = todos_tree(tasks).list_at("todos"@)->0;
    assert forall|i: int| 0 <= i < list.len() implies (#[trigger] list[i]).text_at("title"@)
        == Some(tasks[i].title) && list[i].text_at("id"@) == Some(tasks[i].id) && list[i].truth_at(
        "done"@,
    ) == Some(tasks[i].done) by {
        assert(list[i] == TaskItem::tree(tasks[i]));
        lemma_task_members(tasks[i]);
    }
}

/// Changing a session changes that one: it is found as it was left, and every other stays.
pub proof fn lemma_one_session_changes(
    store: StoreView,
    id: Seq<char>,
    s: SessionView,
    other: Seq<char>,
)
    requires
        session_at(store.sessions, id) is Some,
        s.id == id,
    ensures
        session_at(with_session(store, id, s).sessions, id) == Some(s),
        other != id ==> session_at(with_session(store, id, s).sessions, other) == session_at(
            store.sessions,
            other,
        ),
        with_session(store, id, s).sessions.len() == store.sessions.len(),
{
    let a = crate::session::store::session_ids(store.sessions);
    let b = crate::session::store::session_ids(with_session(store, id, s).sessions);
    lemma_span(a, id);
    lemma_span(a, other);
    assert(a =~= b);
}

/// A phase that is reported is kept as the phase of the session and logged once, with the mode that
/// the session is in, behind what was logged before; nothing else changes.
pub proof fn lemma_phase_is_kept_and_logged(s: SessionView, step: Seq<char>)
    ensures
        with_phase(s, step).workflow_phase == step,
        with_phase(s, step).log.len() == s.log.len() + 1,
        with_phase(s, step).log.drop_last() == s.log,
        with_phase(s, step).log.last() == (EventView::WorkflowStep { mode: s.work_mode, step }),
        with_phase(s, step).tasks == s.tasks,
        with_phase(s, step).work_mode == s.work_mode,
        with_phase(s, step).title == s.title,
        with_phase(s, step).id == s.id,
        with_phase(s, step).workspace == s.workspace,
{
    assert(with_phase(s, step).log.drop_last() =~= s.log);
}

// ---------- skills ----------

/// The first value of a name is the one that is found, and without any nothing is.
pub proof fn lemma_first_of_a_name<T: Keyed>(s: Seq<T::V>, key: Seq<char>, k: int)
    requires
        forall|j: int| 0 <= j < k && j < s.len() ==> T::key_of(#[trigger] s[j]) != key,
        0 <= k <= s.len(),
        k < s.len() ==> T::key_of(s[k]) == key,
    ensures
        k < s.len() ==> found::<T>(s, key) == Some(s[k]),
        k == s.len() ==> found::<T>(s, key) is None,
{
    let a = names::<T>(s);
    assert forall|j: int| 0 <= j < k implies a[j] != key by {
        assert(a[j] == T::key_of(s[j]));
    }
    lemma_span_is(a, key, k);
}

/// The skills in a directory are those of its first entries, then those of the others: a Markdown
/// file that can be read is one skill, named after the file, with all that the file holds; any other
/// entry is none.
pub proof fn lemma_skills_in_parts(
    a: Seq<(Seq<char>, Option<Seq<char>>)>,
    b: Seq<(Seq<char>, Option<Seq<char>>)>,
    name: Seq<char>,
    ending: Seq<char>,
    content: Seq<char>,
)
    requires
        name.len() > 0,
        ending.len() > 0,
        !ending.contains('.'),
    ensures
        skills_in(a + b) == skills_in(a) + skills_in(b),
        ending == "md"@ ==> {
            let skills = skills_in(seq![(name + "."@ + ending, Some(content))]);
            &&& skills.len() == 1
            &&& skills[0].name == name
            &&& skills[0].content == content
            &&& skills[0].description == heading(line_seq(content))
        },
        ending != "md"@ ==> skills_in(seq![(name + "."@ + ending, Some(content))]).len() == 0,
        skills_in(seq![(name + "."@ + ending, None::<Seq<char>>)]).len() == 0,
    decreases b.len(),
{
    lemma_endings(name, ending);
    let file = name + "."@ + ending;
    let one = (file, Some(content));
    let none = (file, None::<Seq<char>>);
    assert(seq![one].drop_last() =~= Seq::empty());
    assert(seq![one].last() == one);
    assert(seq![none].drop_last() =~= Seq::empty());
    assert(seq![none].last() == none);
    assert(skills_in(Seq::empty()) =~= Seq::empty());
    if b.len() == 0 {
        assert(a + b =~= a);
        assert(skills_in(a) + skills_in(b) =~= skills_in(a));
    } else {
        lemma_skills_in_parts(a, b.drop_last(), name, ending, content);
        assert((a + b).drop_last() =~= a + b.drop_last());
        assert((a + b).last() == b.last());
        assert(skills_in(a + b) =~= skills_in(a) + skills_in(b));
    }
}

/// The description of a skill is its first line that is not blank, without the marks of a heading.
pub proof fn lemma_heading(
    before: Seq<Seq<char>>,
    marks: nat,
    pad: Seq<char>,
    title: Seq<char>,
    rest: Seq<Seq<char>>,
)
    requires
        forall|i: int| 0 <= i < before.len() ==> blank_text(#[trigger] before[i]),
        blank_text(pad),
        pad.len() > 0 && pad[0] != '#',
        tight(title),
        title.len() > 0,
    ensures
        heading(before + seq![Seq::new(marks, |i: int| '#') + pad + title] + rest) == title,
        heading(before).len() == 0,
    decreases before.len(),
{
    reveal_strlit("");
    let line = Seq::new(marks, |i: int| '#') + pad + title;
    let all = before + seq![line] + rest;
    if before.len() == 0 {
        assert(all[0] == line);
        lemma_marks(marks, pad + title);
        assert(line =~= Seq::new(marks, |i: int| '#') + (pad + title));
        assert((pad + title)[0] == pad[0]);
        lemma_ends_are_bare(pad + title, '#');
        lemma_trimmed_is_the_core(pad, title, Seq::empty());
        assert(pad + title + Seq::<char>::empty() =~= pad + title);
        assert(!blank_text(line)) by {
            assert(line[line.len() - 1] == title.last());
        }
        crate::text_laws::lemma_trimmed_blank(line);
    } else {
        let front = before.drop_first();
        assert forall|i: int| 0 <= i < front.len() implies blank_text(#[trigger] front[i]) by {
            assert(front[i] == before[i + 1]);
        }
        lemma_heading(front, marks, pad, title, rest);
        assert(all.drop_first() =~= front + seq![line] + rest);
        assert(all[0] == before[0]);
        lemma_trimmed_is_the_core(before[0], Seq::empty(), Seq::empty());
        assert(before[0] + Seq::<char>::empty() + Seq::<char>::empty() =~= before[0]);
    }
}

proof fn lemma_marks(n: nat, s: Seq<char>)
    ensures
        without_leading(Seq::new(n, |i: int| '#') + s, '#') == without_leading(s, '#'),
    decreases n,
{
    let marks = Seq::new(n, |i: int| '#');
    if n == 0 {
        assert(marks + s =~= s);
    } else {
        let fewer = Seq::new((n - 1) as nat, |i: int| '#');
        lemma_marks((n - 1) as nat, s);
        assert((marks + s).drop_first() =~= fewer + s);
    }
}

/// Asking for a skill gives the content of the first one of its name, and fails where there is none;
/// the list tells the name and the description of each, in order.
pub proof fn lemma_skills_are_given(skills: Seq<SkillView>, args: Tree, name: Seq<char>, k: int)
    requires
        args.at("name"@) == Some(Tree::Text(name)),
        0 <= k <= skills.len(),
        forall|j: int| 0 <= j < k && j < skills.len() ==> (#[trigger] skills[j]).name != name,
        k < skills.len() ==> skills[k].name == name,
    ensures
        k < skills.len() ==> (skill_result(Some(skills), args) matches Ok(t) && t.text_at("content"@)
            == Some(skills[k].content) && t.text_at("name"@) == Some(name)),
        k == skills.len() ==> skill_result(Some(skills), args) is Err,
        skills_tree(skills).list_at("skills"@) matches Some(list) && list.len() == skills.len() && (
        forall|i: int|
            0 <= i < list.len() ==> (#[trigger] list[i]).text_at("name"@) == Some(skills[i].name)
                && list[i].text_at("description"@) == Some(skills[i].description)),
{
    reveal_strlit("name");
    reveal_strlit("content");
    reveal_strlit("description");
    assert("name"@.len() != "content"@.len() && "name"@.len() != "description"@.len());
    lemma_first_of_a_name::<Skill>(skills, name, k);
}

/// The skills that are always there.
pub proof fn lemma_builtin_skills()
    ensures
        builtin().len() == 4,
        builtin()[0].name == "code-review"@,
        builtin()[1].name == "write-tests"@,
        builtin()[2].name == "debugging"@,
        builtin()[3].name == "commit-message"@,
        found::<Skill>(builtin(), "code-review"@) == Some(builtin()[0]),
        found::<Skill>(builtin(), "write-tests"@) == Some(builtin()[1]),
        found::<Skill>(builtin(), "debugging"@) == Some(builtin()[2]),
        found::<Skill>(builtin(), "commit-message"@) == Some(builtin()[3]),
{
    reveal_strlit("code-review");
    reveal_strlit("write-tests");
    reveal_strlit("debugging");
    reveal_strlit("commit-message");
    assert("code-review"@[0] == 'c' && "code-review"@.len() == 11);
    assert("write-tests"@[0] == 'w' && "debugging"@[0] == 'd' && "commit-message"@.len() == 14);
    lemma_first_of_a_name::<Skill>(builtin(), "code-review"@, 0);
    lemma_first_of_a_name::<Skill>(builtin(), "write-tests"@, 1);
    lemma_first_of_a_name::<Skill>(builtin(), "debugging"@, 2);
    lemma_first_of_a_name::<Skill>(builtin(), "commit-message"@, 3);
}

// ---------- files ----------

/// A command runs as it was given, unless the session plans; a file is read and written at its path
/// seen from the working directory, with the content as it was given.
pub proof fn lemma_arguments_are_kept(
    cwd: Seq<char>,
    args: Tree,
    command: Seq<char>,
    p: Seq<char>,
    content: Seq<char>,
)
    ensures
        bash_plan(true, args, true) is Err,
        args.at("command"@) == Some(Tree::Text(command)) ==> bash_plan(false, args, true) == Ok::<
            Seq<char>,
            ErrorView,
        >(command),
        !(args.at("command"@) matches Some(Tree::Text(_))) ==> bash_plan(false, args, true) is Err,
        args.at("path"@) == Some(Tree::Text(p)) ==> (read_plan(cwd, args, true) matches Ok(q)
            && q == path::under(cwd, p)),
        !(args.at("path"@) matches Some(Tree::Text(_))) ==> read_plan(cwd, args, true) is Err,
        write_plan(true, cwd, args, true) is Err,
        args.at("path"@) == Some(Tree::Text(p)) && args.at("content"@) == Some(Tree::Text(content))
            ==> (write_plan(false, cwd, args, true) matches Ok(w) && w.0 == path::under(cwd, p)
            && w.1 == content),
        !(args.at("path"@) matches Some(Tree::Text(_))) || !(args.at(
            "content"@,
        ) matches Some(Tree::Text(_))) ==> write_plan(false, cwd, args, true) is Err,
{
}

/// What a command wrote is given as it is, with its code; what was read is given as it is, with its
/// path; of what was written the number of bytes is given.
pub proof fn lemma_outputs_are_told(
    o: CommandOutput,
    p: Seq<char>,
    read: String,
    content: Seq<char>,
    e: ToolError,
)
    ensures
        bash_result(Ok(o)) matches Ok(t) && t.text_at("stdout"@) == Some(o@.stdout) && t.text_at(
            "stderr"@,
        ) == Some(o@.stderr) && (o@.exit_code is None ==> t.at("exit_code"@) == Some(Tree::Null))
            && (o@.exit_code matches Some(n) ==> n >= 0 ==> t.number_at("exit_code"@) == Some(
            n as u64,
        )) && (o@.exit_code matches Some(n) ==> n < 0 ==> t.at("exit_code"@) == Some(
            Tree::Negative(n as i64),
        )),
        bash_result(Err(e)) == Err::<Tree, ErrorView>(e@),
        read_result(p, Ok(read)) matches Ok(t) && t.text_at("path"@) == Some(p) && t.text_at(
            "content"@,
        ) == Some(read@),
        read_result(p, Err(e)) == Err::<Tree, ErrorView>(e@),
        write_result(p, content, Ok(())) matches Ok(t) && t.text_at("path"@) == Some(p) && (
        encode_utf8(content).len() <= u64::MAX ==> t.number_at("written"@) == Some(
            encode_utf8(content).len() as u64,
        )),
        write_result(p, content, Err(e)) == Err::<Tree, ErrorView>(e@),
{
    reveal_strlit("stdout");
    reveal_strlit("stderr");
    reveal_strlit("exit_code");
    reveal_strlit("path");
    reveal_strlit("content");
    reveal_strlit("written");
    assert("stdout"@[3] != "stderr"@[3]);
    assert("stdout"@.len() != "exit_code"@.len() && "stderr"@.len() != "exit_code"@.len());
    assert("path"@.len() != "content"@.len() && "path"@.len() != "written"@.len());
}

/// What a command wrote to its two outputs is kept apart and read in the same way.
pub proof fn lemma_outputs_are_kept_apart(
    a: Seq<u8>,
    b: Seq<u8>,
    x: Seq<u8>,
    code: Option<i32>,
    other: Option<i32>,
)
    ensures
        decoded_output(a, b, code).stdout == decoded_output(a, x, other).stdout,
        decoded_output(a, b, code).stderr == decoded_output(b, x, other).stdout,
        decoded_output(a, b, code).exit_code == code,
{
}

/// A command is run by a shell that is there; where none is known it is looked for at its usual place.
pub proof fn lemma_shell_is_there(has_bash: bool)
    ensures
        shell_program(true, has_bash) == "sh"@,
        shell_program(false, true) == "bash"@,
        shell_program(false, false) == "/bin/sh"@,
{
}

/// An error is shown with the words for its kind and with its message, and each kind has words of its
/// own.
pub proof fn lemma_errors_are_shown(e: ErrorView)
    ensures
        error_text(e).len() >= e.message.len(),
        error_text(e).skip(error_text(e).len() - e.message.len()) == e.message,
        e.kind == ToolErrorKind::Execution ==> begins(error_text(e), "execution failed"@),
        e.kind == ToolErrorKind::NotFound ==> begins(error_text(e), "not found"@),
        e.kind == ToolErrorKind::MissingService ==> begins(error_text(e), "missing service"@),
        e.kind == ToolErrorKind::NotImplemented ==> begins(error_text(e), "not implemented"@),
{
    let s = error_text(e);
    assert(s.skip(s.len() - e.message.len()) =~= e.message);
    let words = crate::tool::error::kind_words(e.kind);
    assert(s.take(words.len() as int) =~= words);
}

} // verus!

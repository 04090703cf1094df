//! The todo list of a session.
use vstd::prelude::*;

use crate::duplicate::Duplicate;
use crate::text::same;

verus! {

/// How far a task has come.
#[derive(Debug, Clone, Copy, PartialEq, Eq, Structural)]
pub enum TaskStatus {
    Pending,
    InProgress,
    Completed,
    Cancelled,
}

/// The status that a word names; an unknown word names a pending task.
pub open spec fn status_named(s: Seq<char>) -> TaskStatus {
    if s == "in_progress"@ {
        TaskStatus::InProgress
    } else if s == "completed"@ {
        TaskStatus::Completed
    } else if s == "cancelled"@ {
        TaskStatus::Cancelled
    } else {
        TaskStatus::Pending
    }
}

/// The word for a status.
pub open spec fn status_word(s: TaskStatus) -> Seq<char> {
    match s {
        TaskStatus::Pending => "pending"@,
        TaskStatus::InProgress => "in_progress"@,
        TaskStatus::Completed => "completed"@,
        TaskStatus::Cancelled => "cancelled"@,
    }
}

/// Reads a status; an unknown word names a pending task.
pub fn parse_status(s: &str) -> (r: TaskStatus)
    ensures
        r == status_named(s@),
{
    if same(s, "in_progress") {
        TaskStatus::InProgress
    } else if same(s, "completed") {
        TaskStatus::Completed
    } else if same(s, "cancelled") {
        TaskStatus::Cancelled
    } else {
        TaskStatus::Pending
    }
}

/// The word for a status.
pub fn status_text(s: TaskStatus) -> (r: &'static str)
    ensures
        r@ == status_word(s),
{
    match s {
        TaskStatus::Pending => "pending",
        TaskStatus::InProgress => "in_progress",
        TaskStatus::Completed => "completed",
        TaskStatus::Cancelled => "cancelled",
    }
}

/// Reading the word for a status gives the status.
pub proof fn lemma_status_roundtrip(s: TaskStatus)
    ensures
        status_named(status_word(s)) == s,
{
    reveal_strlit("pending");
    reveal_strlit("in_progress");
    reveal_strlit("completed");
    reveal_strlit("cancelled");
    assert("pending"@[0] == 'p' && "in_progress"@[0] == 'i');
    assert("completed"@[1] == 'o' && "cancelled"@[1] == 'a');
}

/// A task that the user or the agent set.
#[derive(Debug, Clone)]
pub struct TaskItem {
    pub id: String,
    pub title: String,
    pub done: bool,
    pub status: TaskStatus,
}

/// What a task stands for.
#[verifier::ext_equal]
pub struct TaskView {
    pub id: Seq<char>,
    pub title: Seq<char>,
    pub done: bool,
    pub status: TaskStatus,
}

impl View for TaskItem {
    type V = TaskView;

    open spec fn view(&self) -> TaskView {
        TaskView { id: self.id@, title: self.title@, done: self.done, status: self.status }
    }
}

impl DeepView for TaskItem {
    type V = TaskView;

    open spec fn deep_view(&self) -> TaskView {
        self@
    }
}

impl Duplicate for TaskItem {
    fn duplicate(&self) -> (r: Self) {
        TaskItem {
            id: self.id.clone(),
            title: self.title.clone(),
            done: self.done,
            status: self.status,
        }
    }
}

} // verus!

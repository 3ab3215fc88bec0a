//! A task, with its state in its type: a `Task<Pending>` can be completed,
//! a `Task<Completed>` cannot.

use crate::tasks::text::decimal;
use crate::tasks::text::pad_right;
use crate::tasks::text::push_decimal;
use crate::tasks::text::push_padding;
use core::marker::PhantomData;
use vstd::prelude::*;
use vstd::string::StrSliceExecFns;
use vstd::string::StringExecFns;

verus! {

/// The state of a task that is still to do.
#[derive(Debug, Clone, Copy)]
pub struct Pending;

/// The state of a task that is done.
#[derive(Debug, Clone, Copy)]
pub struct Completed;

/// A task in the state `State`.
#[derive(Debug)]
pub struct Task<State> {
    id: u32,
    description: String,
    _phantom: PhantomData<State>,
}

/// What a task holds, whatever its state.
pub struct TaskView {
    pub id: u32,
    pub description: Seq<char>,
}

impl<State> View for Task<State> {
    type V = TaskView;

    closed spec fn view(&self) -> TaskView {
        TaskView { id: self.id, description: self.description@ }
    }
}

impl<State> Clone for Task<State> {
    fn clone(&self) -> (copy: Self)
        ensures
            copy@ == self@,
    {
        Task { id: self.id, description: self.description.clone(), _phantom: PhantomData }
    }
}

impl<State> Task<State> {
    /// The number of the task.
    pub fn id(&self) -> (id: u32)
        ensures
            id == self@.id,
    {
        self.id
    }

    /// What is to do.
    pub fn description(&self) -> (description: &str)
        ensures
            description@ == self@.description,
    {
        self.description.as_str()
    }
}

impl Task<Pending> {
    /// A task to do, numbered `id`.
    pub fn new(id: u32, description: String) -> (task: Self)
        ensures
            task@ == (TaskView { id, description: description@ }),
    {
        Task { id, description, _phantom: PhantomData }
    }

    /// The same task, done.
    pub fn complete(self) -> (done: Task<Completed>)
        ensures
            done@ == self@,
    {
        Task { id: self.id, description: self.description, _phantom: PhantomData }
    }
}

/// A task in either state.
#[derive(Debug)]
pub enum AnyTask {
    Pending(Task<Pending>),
    Completed(Task<Completed>),
}

/// What a task in either state holds.
pub struct AnyTaskView {
    pub completed: bool,
    pub id: u32,
    pub description: Seq<char>,
}

impl View for AnyTask {
    type V = AnyTaskView;

    open spec fn view(&self) -> AnyTaskView {
        match self {
            AnyTask::Pending(t) => AnyTaskView {
                completed: false,
                id: t@.id,
                description: t@.description,
            },
            AnyTask::Completed(t) => AnyTaskView {
                completed: true,
                id: t@.id,
                description: t@.description,
            },
        }
    }
}

impl Clone for AnyTask {
    fn clone(&self) -> (copy: Self)
        ensures
            copy@ == self@,
    {
        match self {
            AnyTask::Pending(t) => AnyTask::Pending(t.clone()),
            AnyTask::Completed(t) => AnyTask::Completed(t.clone()),
        }
    }
}

/// The line that shows a task: a box, ticked when the task is done, the
/// number left-aligned in four columns, and the description.
pub open spec fn task_line(task: AnyTaskView) -> Seq<char> {
    (if task.completed {
        "[x] "@
    } else {
        "[ ] "@
    }) + pad_right(decimal(task.id as nat), 4) + " "@ + task.description
}

impl AnyTask {
    /// The number of the task.
    pub fn id(&self) -> (id: u32)
        ensures
            id == self@.id,
    {
        match self {
            AnyTask::Pending(t) => t.id(),
            AnyTask::Completed(t) => t.id(),
        }
    }

    /// What is to do, or was.
    pub fn description(&self) -> (description: &str)
        ensures
            description@ == self@.description,
    {
        match self {
            AnyTask::Pending(t) => t.description(),
            AnyTask::Completed(t) => t.description(),
        }
    }

    /// Whether the task is still to do.
    pub fn is_pending(&self) -> (pending: bool)
        ensures
            pending == !self@.completed,
    {
        match self {
            AnyTask::Pending(_) => true,
            AnyTask::Completed(_) => false,
        }
    }

    /// The line that shows the task.
    pub fn render(&self) -> (line: String)
        ensures
            line@ == task_line(self@),
    {
        let mut line = String::new();
        if self.is_pending() {
            line.append("[ ] ");
        } else {
            line.append("[x] ");
        }
        let mut number = String::new();
        push_decimal(&mut number, self.id());
        let width = number.as_str().unicode_len();
        line.append(number.as_str());
        push_padding(&mut line, width, 4);
        line.append(" ");
        line.append(self.description());
        assert(line@ =~= task_line(self@));
        line
    }
}

} // verus!

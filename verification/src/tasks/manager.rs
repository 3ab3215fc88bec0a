//! The task list: adding, completing and showing tasks.

use crate::tasks::task::task_line;
use crate::tasks::task::AnyTask;
use crate::tasks::task::AnyTaskView;
use crate::tasks::task::Task;
use crate::tasks::text::decimal;
use crate::tasks::text::push_decimal;
use vstd::prelude::*;
use vstd::string::StringExecFns;

verus! {

/// The tasks in the order in which they are shown, and the number that the
/// next new task gets.
#[derive(Debug)]
pub struct TaskManager {
    tasks: Vec<AnyTask>,
    next_id: u32,
}

/// What a `TaskManager` holds.
pub struct ManagerView {
    pub tasks: Seq<AnyTaskView>,
    pub next_id: u32,
}

impl View for TaskManager {
    type V = ManagerView;

    closed spec fn view(&self) -> ManagerView {
        ManagerView { tasks: self.tasks@.map_values(|t: AnyTask| t@), next_id: self.next_id }
    }
}

/// Whether `task` is the pending task numbered `id`.
pub open spec fn is_pending_with(task: AnyTaskView, id: u32) -> bool {
    task.id == id && !task.completed
}

/// The index of the first pending task numbered `id`, if there is one.
pub open spec fn first_pending(tasks: Seq<AnyTaskView>, id: u32) -> Option<int>
    decreases tasks.len(),
{
    if tasks.len() == 0 {
        None
    } else if is_pending_with(tasks.first(), id) {
        Some(0)
    } else {
        match first_pending(tasks.drop_first(), id) {
            Some(at) => Some(at + 1),
            None => None,
        }
    }
}

/// `task`, done.
pub open spec fn completed(task: AnyTaskView) -> AnyTaskView {
    AnyTaskView { completed: true, id: task.id, description: task.description }
}

/// The list after a new pending task took the next number.
pub open spec fn after_add(list: ManagerView, description: Seq<char>) -> ManagerView {
    ManagerView {
        tasks: list.tasks.push(
            AnyTaskView { completed: false, id: list.next_id, description },
        ),
        next_id: (list.next_id + 1) as u32,
    }
}

/// The list after the first pending task numbered `id` left its place and
/// went, done, to the end. Without such a task the list is as it was.
pub open spec fn after_complete(list: ManagerView, id: u32) -> ManagerView {
    match first_pending(list.tasks, id) {
        Some(at) => ManagerView {
            tasks: list.tasks.remove(at).push(completed(list.tasks[at])),
            next_id: list.next_id,
        },
        None => list,
    }
}

/// What is shown of the tasks: one line where there are none, else a line
/// for each between a header and a footer.
pub open spec fn listing(tasks: Seq<AnyTaskView>) -> Seq<Seq<char>> {
    if tasks.len() == 0 {
        seq!["No tasks yet. Add one with 'add <description>'."@]
    } else {
        seq!["---------------- TASKS ----------------"@] + tasks.map_values(
            |t: AnyTaskView| task_line(t),
        ) + seq!["---------------------------------------"@]
    }
}

/// What is said when the task numbered `id` was added.
pub open spec fn added_notice(id: u32) -> Seq<char> {
    "Added task "@ + decimal(id as nat) + "."@
}

/// What is said after an attempt to complete the task numbered `id`.
pub open spec fn completed_notice(id: u32, done: bool) -> Seq<char> {
    if done {
        "Completed task "@ + decimal(id as nat) + "."@
    } else {
        "Error: Task "@ + decimal(id as nat) + " not found or is already completed."@
    }
}

/// Where the first pending task numbered `id` is: at `at`, if none stands
/// before it.
pub proof fn lemma_first_pending_at(tasks: Seq<AnyTaskView>, id: u32, at: int)
    requires
        0 <= at <= tasks.len(),
        forall|k: int| 0 <= k < at ==> !is_pending_with(#[trigger] tasks[k], id),
        at < tasks.len() ==> is_pending_with(tasks[at], id),
    ensures
        first_pending(tasks, id) == (if at < tasks.len() {
            Some(at)
        } else {
            None
        }),
    decreases at,
{
    if at > 0 {
        let rest = tasks.drop_first();
        assert forall|k: int| 0 <= k < at - 1 implies !is_pending_with(#[trigger] rest[k], id) by {
            assert(rest[k] == tasks[k + 1]);
        }
        assert(at < tasks.len() ==> rest[at - 1] == tasks[at]);
        lemma_first_pending_at(rest, id, at - 1);
    }
}

impl Default for TaskManager {
    /// An empty list whose first task will get the number 0.
    fn default() -> (list: Self)
        ensures
            list@.tasks.len() == 0,
            list@.next_id == 0,
    {
        TaskManager { tasks: Vec::new(), next_id: 0 }
    }
}

impl TaskManager {
    /// An empty list whose first task will get the number 1.
    pub fn new() -> (list: Self)
        ensures
            list@.tasks.len() == 0,
            list@.next_id == 1,
    {
        TaskManager { tasks: Vec::new(), next_id: 1 }
    }

    /// A list of these tasks, in this order, with this next number.
    pub fn from_parts(tasks: Vec<AnyTask>, next_id: u32) -> (list: Self)
        ensures
            list@.tasks == tasks@.map_values(|t: AnyTask| t@),
            list@.next_id == next_id,
    {
        TaskManager { tasks, next_id }
    }

    /// The tasks, in the order in which they are shown.
    pub fn tasks(&self) -> (tasks: &Vec<AnyTask>)
        ensures
            tasks@.map_values(|t: AnyTask| t@) == self@.tasks,
    {
        &self.tasks
    }

    /// The number that the next new task gets.
    pub fn next_id(&self) -> (id: u32)
        ensures
            id == self@.next_id,
    {
        self.next_id
    }

    /// Adds a pending task at the end of the list and returns its number.
    pub fn add_task(&mut self, description: String) -> (id: u32)
        requires
            old(self)@.next_id < u32::MAX,
        ensures
            id == old(self)@.next_id,
            final(self)@ == after_add(old(self)@, description@),
    {
        let id = self.next_id;
        self.tasks.push(AnyTask::Pending(Task::new(id, description)));
        self.next_id = id + 1;
        assert(final(self)@.tasks =~= after_add(old(self)@, description@).tasks);
        id
    }

    /// Completes the first pending task numbered `id`: it leaves its place and
    /// goes, done, to the end of the list. Says whether there was such a task.
    pub fn complete_task(&mut self, id: u32) -> (done: bool)
        ensures
            done == first_pending(old(self)@.tasks, id).is_some(),
            final(self)@ == after_complete(old(self)@, id),
    {
        let mut at: usize = 0;
        while at < self.tasks.len() && !(self.tasks[at].id() == id && self.tasks[at].is_pending())
            invariant
                at <= self.tasks@.len(),
                *self == *old(self),
                forall|k: int| 0 <= k < at ==> !is_pending_with(#[trigger] self@.tasks[k], id),
            decreases self.tasks.len() - at,
        {
            at = at + 1;
        }
        proof {
            lemma_first_pending_at(self@.tasks, id, at as int);
        }
        if at < self.tasks.len() {
            let found = self.tasks.remove(at);
            assert(found is Pending);
            if let AnyTask::Pending(task) = found {
                self.tasks.push(AnyTask::Completed(task.complete()));
            }
            assert(final(self)@.tasks =~= after_complete(old(self)@, id).tasks);
            true
        } else {
            false
        }
    }

    /// The lines that show the list.
    pub fn list_tasks(&self) -> (lines: Vec<String>)
        ensures
            lines.deep_view() == listing(self@.tasks),
    {
        let mut lines: Vec<String> = Vec::new();
        if self.tasks.len() == 0 {
            lines.push(String::from_str("No tasks yet. Add one with 'add <description>'."));
            assert(lines.deep_view() =~= listing(self@.tasks));
            return lines;
        }
        lines.push(String::from_str("---------------- TASKS ----------------"));
        let mut i: usize = 0;
        while i < self.tasks.len()
            invariant
                i <= self.tasks@.len(),
                lines@.len() == i + 1,
                lines@[0]@ == "---------------- TASKS ----------------"@,
                forall|k: int|
                    0 <= k < i ==> (#[trigger] lines@[k + 1])@ == task_line(self@.tasks[k]),
            decreases self.tasks.len() - i,
        {
            lines.push(self.tasks[i].render());
            i = i + 1;
        }
        lines.push(String::from_str("---------------------------------------"));
        proof {
            let shown = lines.deep_view();
            let wanted = listing(self@.tasks);
            assert(shown.len() == wanted.len());
            assert forall|k: int| 0 <= k < shown.len() implies shown[k] == wanted[k] by {
                assert(shown[k] == lines@[k]@);
                if 1 <= k <= i {
                    assert(lines@[(k - 1) + 1]@ == task_line(self@.tasks[k - 1]));
                }
            }
            assert(shown =~= wanted);
        }
        lines
    }
}

/// The notice that the task numbered `id` was added.
pub fn added_message(id: u32) -> (text: String)
    ensures
        text@ == added_notice(id),
{
    let mut text = String::from_str("Added task ");
    push_decimal(&mut text, id);
    text.append(".");
    text
}

/// The notice after an attempt to complete the task numbered `id`.
pub fn completed_message(id: u32, done: bool) -> (text: String)
    ensures
        text@ == completed_notice(id, done),
{
    if done {
        let mut text = String::from_str("Completed task ");
        push_decimal(&mut text, id);
        text.append(".");
        text
    } else {
        let mut text = String::from_str("Error: Task ");
        push_decimal(&mut text, id);
        text.append(" not found or is already completed.");
        text
    }
}

} // verus!

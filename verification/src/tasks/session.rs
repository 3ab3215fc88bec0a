//! One turn of the dialogue: what a line asks for, and what the list does
//! and says in return.

use crate::tasks::command::parse_command;
use crate::tasks::command::Command;
use crate::tasks::command::CommandError;
use crate::tasks::command::CommandErrorView;
use crate::tasks::command::CommandView;
use crate::tasks::manager::added_message;
use crate::tasks::manager::added_notice;
use crate::tasks::manager::after_add;
use crate::tasks::manager::after_complete;
use crate::tasks::manager::completed_message;
use crate::tasks::manager::completed_notice;
use crate::tasks::manager::first_pending;
use crate::tasks::manager::listing;
use crate::tasks::manager::ManagerView;
use crate::tasks::manager::TaskManager;
use crate::tasks::text::chars_of;
use crate::tasks::text::is_word;
use crate::tasks::text::matches_word;
use crate::tasks::text::trim_bounds;
use crate::tasks::text::trimmed;
use vstd::prelude::*;
use vstd::string::StringExecFns;

verus! {

/// What a line of input asks for.
pub enum Request {
    /// End the dialogue.
    Quit,
    /// Carry out this command.
    Run(Command),
    /// Nothing that can be done: the line is no command.
    Reject(CommandError),
}

/// A `Request` by its characters.
pub enum RequestView {
    Quit,
    Run(CommandView),
    Reject(CommandErrorView),
}

impl View for Request {
    type V = RequestView;

    open spec fn view(&self) -> RequestView {
        match self {
            Request::Quit => RequestView::Quit,
            Request::Run(command) => RequestView::Run(command@),
            Request::Reject(error) => RequestView::Reject(error@),
        }
    }
}

/// Whether the trimmed line is `exit` or `quit`, in any mix of ASCII capitals
/// and small letters.
pub open spec fn asks_to_quit(input: Seq<char>) -> bool {
    matches_word(trimmed(input), "exit"@) || matches_word(trimmed(input), "quit"@)
}

/// What `input` asks for: to quit, or else what it parses to.
pub open spec fn request_of(input: Seq<char>) -> RequestView {
    if asks_to_quit(input) {
        RequestView::Quit
    } else {
        match parse_command(input) {
            Ok(command) => RequestView::Run(command),
            Err(error) => RequestView::Reject(error),
        }
    }
}

/// The list after `command`.
pub open spec fn state_after(list: ManagerView, command: CommandView) -> ManagerView {
    match command {
        CommandView::Add(description) => after_add(list, description),
        CommandView::Complete(id) => after_complete(list, id),
        CommandView::List => list,
        CommandView::Help => list,
    }
}

/// The lines that tell the commands.
pub open spec fn help_text() -> Seq<Seq<char>> {
    seq![
        "\nAvailable Commands:"@,
        "  add <description>    - Add a new task"@,
        "  complete <id>        - Mark a task as complete"@,
        "  list                 - Show all tasks"@,
        "  help                 - Show this help message"@,
        "  exit / quit          - Exit the application\n"@,
    ]
}

/// The lines shown in answer to `command`, given on the list `list`.
pub open spec fn answer_to(list: ManagerView, command: CommandView) -> Seq<Seq<char>> {
    match command {
        CommandView::Add(_) => seq![added_notice(list.next_id)],
        CommandView::Complete(id) => seq![
            completed_notice(id, first_pending(list.tasks, id).is_some()),
        ],
        CommandView::List => listing(list.tasks),
        CommandView::Help => help_text(),
    }
}

/// Whether `input`, trimmed, asks to end the dialogue.
pub fn is_quit(input: &str) -> (quit: bool)
    ensures
        quit == asks_to_quit(input@),
{
    let chars = chars_of(input);
    let (start, end) = trim_bounds(&chars);
    is_word(&chars, start, end, "exit") || is_word(&chars, start, end, "quit")
}

/// Reads a line of input.
pub fn interpret(input: &str) -> (request: Request)
    ensures
        request@ == request_of(input@),
{
    if is_quit(input) {
        Request::Quit
    } else {
        match Command::parse(input) {
            Ok(command) => Request::Run(command),
            Err(error) => Request::Reject(error),
        }
    }
}

/// The lines that tell the commands.
pub fn help_lines() -> (lines: Vec<String>)
    ensures
        lines.deep_view() == help_text(),
{
    let mut lines: Vec<String> = Vec::new();
    lines.push(String::from_str("\nAvailable Commands:"));
    lines.push(String::from_str("  add <description>    - Add a new task"));
    lines.push(String::from_str("  complete <id>        - Mark a task as complete"));
    lines.push(String::from_str("  list                 - Show all tasks"));
    lines.push(String::from_str("  help                 - Show this help message"));
    lines.push(String::from_str("  exit / quit          - Exit the application\n"));
    assert(lines.deep_view() =~= help_text());
    lines
}

/// Carries out `command` on `list` and returns the lines to show.
pub fn execute(list: &mut TaskManager, command: Command) -> (lines: Vec<String>)
    requires
        command is Add ==> old(list)@.next_id < u32::MAX,
    ensures
        final(list)@ == state_after(old(list)@, command@),
        lines.deep_view() == answer_to(old(list)@, command@),
{
    match command {
        Command::Add(description) => {
            let id = list.add_task(description);
            let mut lines: Vec<String> = Vec::new();
            lines.push(added_message(id));
            assert(lines.deep_view() =~= answer_to(old(list)@, command@));
            lines
        },
        Command::Complete(id) => {
            let done = list.complete_task(id);
            let mut lines: Vec<String> = Vec::new();
            lines.push(completed_message(id, done));
            assert(lines.deep_view() =~= answer_to(old(list)@, command@));
            lines
        },
        Command::List => list.list_tasks(),
        Command::Help => help_lines(),
    }
}

} // verus!

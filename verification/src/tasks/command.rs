//! Commands, and how a line of input spells one.

use crate::tasks::text::after_head;
use crate::tasks::text::chars_of;
use crate::tasks::text::find_space;
use crate::tasks::text::head_word;
use crate::tasks::text::is_word;
use crate::tasks::text::matches_word;
use crate::tasks::text::number_of;
use crate::tasks::text::parse_number;
use crate::tasks::text::trim_bounds;
use crate::tasks::text::trimmed;
use vstd::prelude::*;
use vstd::string::StrSliceExecFns;
use vstd::string::StringExecFns;

verus! {

/// Why a line of input is no command.
#[derive(Debug)]
pub enum CommandError {
    /// The first word names no command.
    InvalidCommand,
    /// The named command needs an argument and got none.
    MissingArgument(String),
    /// The argument is not what the command takes.
    InvalidArgument(String),
}

/// A `CommandError` by its characters.
pub enum CommandErrorView {
    InvalidCommand,
    MissingArgument(Seq<char>),
    InvalidArgument(Seq<char>),
}

impl View for CommandError {
    type V = CommandErrorView;

    open spec fn view(&self) -> CommandErrorView {
        match self {
            CommandError::InvalidCommand => CommandErrorView::InvalidCommand,
            CommandError::MissingArgument(name) => CommandErrorView::MissingArgument(name@),
            CommandError::InvalidArgument(value) => CommandErrorView::InvalidArgument(value@),
        }
    }
}

/// What the user is told of an error.
pub open spec fn error_message(error: CommandErrorView) -> Seq<char> {
    match error {
        CommandErrorView::InvalidCommand => "Invalid command. Try 'help'."@,
        CommandErrorView::MissingArgument(name) => "Missing argument for '"@ + name + "'"@,
        CommandErrorView::InvalidArgument(value) => "Invalid argument: '"@ + value + "'"@,
    }
}

impl CommandError {
    /// What the user is told of the error.
    pub fn message(&self) -> (text: String)
        ensures
            text@ == error_message(self@),
    {
        match self {
            CommandError::InvalidCommand => String::from_str("Invalid command. Try 'help'."),
            CommandError::MissingArgument(name) => {
                let mut text = String::from_str("Missing argument for '");
                text.append(name.as_str());
                text.append("'");
                text
            },
            CommandError::InvalidArgument(value) => {
                let mut text = String::from_str("Invalid argument: '");
                text.append(value.as_str());
                text.append("'");
                text
            },
        }
    }
}

/// What the user can ask for.
pub enum Command {
    /// Add a task with this description.
    Add(String),
    /// Mark the task with this number as done.
    Complete(u32),
    /// Show the tasks.
    List,
    /// Show the commands.
    Help,
}

/// A `Command` by its characters.
pub enum CommandView {
    Add(Seq<char>),
    Complete(u32),
    List,
    Help,
}

impl View for Command {
    type V = CommandView;

    open spec fn view(&self) -> CommandView {
        match self {
            Command::Add(description) => CommandView::Add(description@),
            Command::Complete(id) => CommandView::Complete(*id),
            Command::List => CommandView::List,
            Command::Help => CommandView::Help,
        }
    }
}

/// The command that `input` spells.
///
/// The line is trimmed. Its first word, up to the first space, names the
/// command, in any mix of ASCII capitals and small letters; what follows that
/// space, untrimmed, is the argument. `add` takes the argument as the
/// description and `complete` takes it as a number; both fail without one.
/// `list` and `help` pay no heed to an argument.
pub open spec fn parse_command(input: Seq<char>) -> Result<CommandView, CommandErrorView> {
    let line = trimmed(input);
    let name = head_word(line);
    let argument = after_head(line);
    if matches_word(name, "add"@) {
        match argument {
            Some(description) => Ok(CommandView::Add(description)),
            None => Err(CommandErrorView::MissingArgument("add"@)),
        }
    } else if matches_word(name, "complete"@) {
        match argument {
            Some(value) => match number_of(value) {
                Some(id) => Ok(CommandView::Complete(id)),
                None => Err(CommandErrorView::InvalidArgument(value)),
            },
            None => Err(CommandErrorView::MissingArgument("complete"@)),
        }
    } else if matches_word(name, "list"@) {
        Ok(CommandView::List)
    } else if matches_word(name, "help"@) {
        Ok(CommandView::Help)
    } else {
        Err(CommandErrorView::InvalidCommand)
    }
}

/// The view of a parsed command, or of the error in its place.
pub open spec fn parsed_view(parsed: Result<Command, CommandError>) -> Result<
    CommandView,
    CommandErrorView,
> {
    match parsed {
        Ok(command) => Ok(command@),
        Err(error) => Err(error@),
    }
}

impl Command {
    /// Reads a command from a line of input.
    pub fn parse(input: &str) -> (parsed: Result<Command, CommandError>)
        ensures
            parsed_view(parsed) == parse_command(input@),
    {
        let chars = chars_of(input);
        let (start, end) = trim_bounds(&chars);
        let space = find_space(&chars, start, end);
        let ghost line = trimmed(input@);
        proof {
            assert(chars@.subrange(start as int, space as int) =~= head_word(line));
            if space < end {
                assert(chars@.subrange(space + 1, end as int) =~= line.skip(space - start + 1));
            }
        }
        if is_word(&chars, start, space, "add") {
            if space < end {
                let description = input.substring_char(space + 1, end);
                Ok(Command::Add(String::from_str(description)))
            } else {
                Err(CommandError::MissingArgument(String::from_str("add")))
            }
        } else if is_word(&chars, start, space, "complete") {
            if space < end {
                match parse_number(&chars, space + 1, end) {
                    Some(id) => Ok(Command::Complete(id)),
                    None => {
                        let value = input.substring_char(space + 1, end);
                        Err(CommandError::InvalidArgument(String::from_str(value)))
                    },
                }
            } else {
                Err(CommandError::MissingArgument(String::from_str("complete")))
            }
        } else if is_word(&chars, start, space, "list") {
            Ok(Command::List)
        } else if is_word(&chars, start, space, "help") {
            Ok(Command::Help)
        } else {
            Err(CommandError::InvalidCommand)
        }
    }
}

impl TryFrom<String> for Command {
    type Error = CommandError;

    /// Reads a command from a line of input, as `parse` does.
    fn try_from(value: String) -> (parsed: Result<Self, Self::Error>)
        ensures
            parsed_view(parsed) == parse_command(value@),
    {
        Command::parse(value.as_str())
    }
}

impl vstd::std_specs::convert::TryFromSpecImpl<String> for Command {
    /// Two strings of the same characters need not be one value, so the
    /// result is stated by its view, on `try_from` itself.
    open spec fn obeys_try_from_spec() -> bool {
        false
    }

    open spec fn try_from_spec(value: String) -> Result<Self, CommandError> {
        choose|parsed: Result<Command, CommandError>| parsed_view(parsed) == parse_command(value@)
    }
}

} // verus!

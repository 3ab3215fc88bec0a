use parallel_snowflakes::tasks::command::Command;
use parallel_snowflakes::tasks::command::CommandError;
use parallel_snowflakes::tasks::session::interpret;
use parallel_snowflakes::tasks::session::is_quit;
use parallel_snowflakes::tasks::session::Request;

fn describe(parsed: Result<Command, CommandError>) -> String {
    match parsed {
        Ok(Command::Add(description)) => format!("add:{}", description),
        Ok(Command::Complete(id)) => format!("complete:{}", id),
        Ok(Command::List) => "list".to_string(),
        Ok(Command::Help) => "help".to_string(),
        Err(CommandError::InvalidCommand) => "invalid".to_string(),
        Err(CommandError::MissingArgument(name)) => format!("missing:{}", name),
        Err(CommandError::InvalidArgument(value)) => format!("bad:{}", value),
    }
}

fn parse(input: &str) -> String {
    describe(Command::parse(input))
}

#[test]
fn add_takes_the_rest_of_the_line() {
    assert_eq!(parse("add buy milk"), "add:buy milk");
    assert_eq!(parse("  add buy milk  "), "add:buy milk");
    assert_eq!(parse("add  two spaces"), "add: two spaces");
    assert_eq!(parse("ADD Shout"), "add:Shout");
    assert_eq!(parse("add x"), "add:x");
    assert_eq!(parse("add é ü"), "add:é ü");
}

#[test]
fn add_without_a_description_is_missing_its_argument() {
    assert_eq!(parse("add"), "missing:add");
    assert_eq!(parse("add   "), "missing:add");
    assert_eq!(parse("Add"), "missing:add");
    assert!(matches!(
        Command::parse("add"),
        Err(CommandError::MissingArgument(name)) if name == "add"
    ));
}

#[test]
fn complete_takes_a_number() {
    assert_eq!(parse("complete 3"), "complete:3");
    assert_eq!(parse("Complete +3"), "complete:3");
    assert_eq!(parse("complete 0"), "complete:0");
    assert_eq!(parse("complete 4294967295"), "complete:4294967295");
    assert_eq!(parse("complete 12\n"), "complete:12");
}

#[test]
fn complete_without_a_number_is_missing_its_argument() {
    assert_eq!(parse("complete"), "missing:complete");
    assert_eq!(parse(" COMPLETE "), "missing:complete");
}

#[test]
fn complete_with_anything_but_a_number_is_an_invalid_argument() {
    assert_eq!(parse("complete three"), "bad:three");
    assert_eq!(parse("complete  3"), "bad: 3");
    assert_eq!(parse("complete -3"), "bad:-3");
    assert_eq!(parse("complete 3 4"), "bad:3 4");
    assert_eq!(parse("complete 4294967296"), "bad:4294967296");
    assert_eq!(parse("complete 3.0"), "bad:3.0");
}

#[test]
fn list_and_help_pay_no_heed_to_arguments() {
    assert_eq!(parse("list"), "list");
    assert_eq!(parse("LIST"), "list");
    assert_eq!(parse("list all of them"), "list");
    assert_eq!(parse("help"), "help");
    assert_eq!(parse("hElP me"), "help");
}

#[test]
fn anything_else_is_an_invalid_command() {
    assert_eq!(parse(""), "invalid");
    assert_eq!(parse("   "), "invalid");
    assert_eq!(parse("remove 3"), "invalid");
    assert_eq!(parse("addx"), "invalid");
    assert_eq!(parse("ad d"), "invalid");
    assert_eq!(parse("add\tmilk"), "invalid");
    assert_eq!(parse("lİst"), "invalid");
    assert_eq!(parse("exit"), "invalid");
}

/// The same reading spelled with the standard library's own trimming,
/// splitting, lowering and number parsing.
fn read_by_std(value: &str) -> String {
    let mut parts = value.trim().splitn(2, ' ');
    let name = parts.next().unwrap_or("");
    let args = parts.next();
    match name.to_lowercase().as_str() {
        "add" => match args {
            Some(description) => format!("add:{}", description),
            None => "missing:add".to_string(),
        },
        "complete" => match args {
            Some(id) => match id.parse::<u32>() {
                Ok(id) => format!("complete:{}", id),
                Err(_) => format!("bad:{}", id),
            },
            None => "missing:complete".to_string(),
        },
        "list" => "list".to_string(),
        "help" => "help".to_string(),
        _ => "invalid".to_string(),
    }
}

#[test]
fn parse_agrees_with_the_standard_library() {
    let fronts = ["", " ", "\t", "\u{a0} ", "\n\n"];
    let names = [
        "add", "ADD", "aDd", "complete", "Complete", "COMPLETE", "list", "List", "help", "HELP",
        "", "ad", "adds", "lİst", "hel\u{212a}", "exit", "quit", "complet", "+", "add\tx",
    ];
    let gaps = ["", " ", "  ", "\t", " \t", "\u{3000}"];
    let rests = [
        "", "1", "+1", "-1", "01", "1 ", " 1", "4294967295", "4294967296", "buy milk", "é",
        "x  y", "1 2", "１", "0x1", "++1", "1+",
    ];
    let backs = ["", " ", "\n", "\r\n", " \u{2003}"];
    let mut count = 0;
    for front in fronts {
        for name in names {
            for gap in gaps {
                for rest in rests {
                    for back in backs {
                        let line = format!("{}{}{}{}{}", front, name, gap, rest, back);
                        assert_eq!(parse(&line), read_by_std(&line));
                        count += 1;
                    }
                }
            }
        }
    }
    assert_eq!(count, 5 * 20 * 6 * 17 * 5);
}

#[test]
fn try_from_reads_as_parse_does() {
    let lines = ["add buy milk", "complete 3", "complete x", "list", "help", "add", "", "nope"];
    for line in lines {
        assert_eq!(describe(Command::try_from(line.to_string())), parse(line));
    }
}

#[test]
fn messages_of_the_errors() {
    assert_eq!(CommandError::InvalidCommand.message(), "Invalid command. Try 'help'.");
    assert_eq!(
        CommandError::MissingArgument("add".to_string()).message(),
        "Missing argument for 'add'"
    );
    assert_eq!(
        CommandError::InvalidArgument("x y".to_string()).message(),
        "Invalid argument: 'x y'"
    );
    assert_eq!(CommandError::InvalidArgument(String::new()).message(), "Invalid argument: ''");
}

#[test]
fn messages_of_parse_errors() {
    let message = |line: &str| match Command::parse(line) {
        Ok(_) => String::new(),
        Err(error) => error.message(),
    };
    assert_eq!(message("frobnicate"), "Invalid command. Try 'help'.");
    assert_eq!(message("complete"), "Missing argument for 'complete'");
    assert_eq!(message("complete soon"), "Invalid argument: 'soon'");
}

#[test]
fn exit_and_quit_end_the_dialogue() {
    for line in ["exit", "quit", "EXIT", "Quit", "  exit\n", "\tqUiT  "] {
        assert!(is_quit(line));
        assert!(matches!(interpret(line), Request::Quit));
    }
    for line in ["", "exit now", "quit!", "ex it", "quits", "list"] {
        assert!(!is_quit(line));
    }
}

#[test]
fn interpret_hands_on_what_parse_finds() {
    assert!(matches!(
        interpret("add tea\n"),
        Request::Run(Command::Add(description)) if description == "tea"
    ));
    assert!(matches!(interpret("complete 2"), Request::Run(Command::Complete(2))));
    assert!(matches!(interpret("list"), Request::Run(Command::List)));
    assert!(matches!(interpret("help"), Request::Run(Command::Help)));
    assert!(matches!(interpret("what"), Request::Reject(CommandError::InvalidCommand)));
    assert!(matches!(interpret("exit now"), Request::Reject(CommandError::InvalidCommand)));
    assert!(matches!(
        interpret("complete two"),
        Request::Reject(CommandError::InvalidArgument(value)) if value == "two"
    ));
}

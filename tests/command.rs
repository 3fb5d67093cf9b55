use xelis_p2p::command::{Arg, ArgType, Command, CommandError, CommandManager};

#[test]
fn usage_lists_arguments() {
    let cmd = Command::with_arguments(
        "send",
        "Send coins",
        vec![Arg::new("address", ArgType::String), Arg::new("amount", ArgType::Number)],
        vec![Arg::new("fee", ArgType::Number)],
        0u8,
    );
    assert_eq!(cmd.get_usage(), "send <address> <amount>[fee]");
}

#[test]
fn usage_without_arguments() {
    let cmd = Command::new("exit", "Leave", 0u8);
    assert_eq!(cmd.get_usage(), "exit ");
    assert_eq!(cmd.get_description(), "Leave");
    assert!(cmd.get_required_args().is_empty());
}

#[test]
fn usage_with_optional_only() {
    let cmd = Command::with_optional_arguments("help", "Help", vec![Arg::new("command", ArgType::String)], 0u8);
    assert_eq!(cmd.get_usage(), "help [command]");
    let cmd = Command::with_required_arguments("ban", "Ban", vec![Arg::new("peer", ArgType::Number)], 0u8);
    assert_eq!(cmd.get_usage(), "ban <peer>");
    assert_eq!(cmd.get_required_args()[0].get_name(), "peer");
    assert_eq!(cmd.get_required_args()[0].get_type(), ArgType::Number);
}

#[test]
fn default_commands() {
    let m: CommandManager<u32, (), u8> = CommandManager::default(1, 2, 3);
    let names: Vec<&str> = m.get_commands().iter().map(|c| c.get_name().as_str()).collect();
    assert_eq!(names, vec!["help", "version", "exit"]);
    assert_eq!(*m.get_command("version").unwrap().get_callback(), 2);
    assert!(m.get_command("missing").is_none());
    assert_eq!(m.get_command("help").unwrap().get_usage(), "help [command]");
}

#[test]
fn first_command_with_name_wins() {
    let mut m: CommandManager<u32, (), u8> = CommandManager::new(None);
    m.add_command(Command::new("a", "first", 1));
    m.add_command(Command::new("a", "second", 2));
    assert_eq!(m.get_command("a").unwrap().get_description(), "first");
}

#[test]
fn data_and_prompt() {
    let mut m: CommandManager<u32, String, u8> = CommandManager::new(None);
    assert!(matches!(m.get_data(), Err(CommandError::NoData)));
    assert!(matches!(m.get_prompt(), Err(CommandError::NoPrompt)));
    m.set_data(Some(4));
    m.set_prompt(Some(">".to_string()));
    assert_eq!(*m.get_data().unwrap(), 4);
    assert_eq!(m.get_optional_data(), &Some(4));
    assert_eq!(m.get_prompt().unwrap(), ">");
    let _ = m.running_since();
}

fn manager() -> CommandManager<u32, (), u8> {
    let mut m: CommandManager<u32, (), u8> = CommandManager::default(1, 2, 3);
    m.add_command(Command::with_arguments(
        "send",
        "Send coins",
        vec![Arg::new("address", ArgType::String)],
        vec![Arg::new("fee", ArgType::Number), Arg::new("memo", ArgType::String)],
        4,
    ));
    m
}

#[test]
fn parse_full_command_line() {
    let m = manager();
    let (idx, pairs) = m.parse_command("  send  xel1   25 ").unwrap();
    assert_eq!(idx, 3);
    assert_eq!(pairs, vec![("address".to_string(), "xel1".to_string()), ("fee".to_string(), "25".to_string())]);
}

#[test]
fn parse_empty_line() {
    let m = manager();
    assert!(matches!(m.parse_command("   "), Err(CommandError::ExpectedCommandName)));
    assert!(matches!(m.parse_words(&vec![]), Err(CommandError::ExpectedCommandName)));
}

#[test]
fn parse_unknown_command() {
    let m = manager();
    assert!(matches!(m.parse_command("status"), Err(CommandError::CommandNotFound)));
}

#[test]
fn parse_missing_required_argument() {
    let m = manager();
    match m.parse_command("send") {
        Err(CommandError::ExpectedRequiredArg(name)) => assert_eq!(name, "address"),
        _ => panic!("expected a missing argument"),
    }
}

#[test]
fn parse_too_many_arguments() {
    let m = manager();
    assert!(matches!(m.parse_command("send a 1 m extra"), Err(CommandError::TooManyArguments)));
    assert!(matches!(m.parse_command("exit now"), Err(CommandError::TooManyArguments)));
}

#[test]
fn parse_words_without_optional() {
    let m = manager();
    let words = vec!["help".to_string()];
    let (idx, pairs) = m.parse_words(&words).unwrap();
    assert_eq!(idx, 0);
    assert!(pairs.is_empty());
    let (idx, pairs) = m.parse_command("help send").unwrap();
    assert_eq!(idx, 0);
    assert_eq!(pairs, vec![("command".to_string(), "send".to_string())]);
}

#[test]
fn help_lists_commands() {
    let m = manager();
    let lines = m.help_lines(None).unwrap();
    assert_eq!(
        lines,
        vec![
            "Available commands:".to_string(),
            "- help: Show this help".to_string(),
            "- version: Show the current version".to_string(),
            "- exit: Shutdown the daemon".to_string(),
            "- send: Send coins".to_string(),
            "See how to use a command using /help <command>".to_string(),
        ]
    );
}

#[test]
fn help_shows_usage() {
    let m = manager();
    assert_eq!(m.help_lines(Some("send")).unwrap(), vec!["Usage: send <address>[fee] [memo]".to_string()]);
    assert!(matches!(m.help_lines(Some("nope")), Err(CommandError::CommandNotFound)));
}

use gamecode::command::{parse_command, CommandError};
use gamecode::tools::ExecuteCommandTool;

#[test]
fn disallowed_command_is_refused() {
    assert_eq!(parse_command("rm -rf /"), Err(CommandError::NotAllowed("rm".to_string())));
}

#[test]
fn metacharacters_are_refused_even_for_allowed_commands() {
    assert_eq!(
        parse_command("ls; rm -rf /"),
        Err(CommandError::UnsafeArgument("ls;".to_string()))
    );
    assert_eq!(
        parse_command("cat a && rm b"),
        Err(CommandError::UnsafeArgument("&&".to_string()))
    );
    assert_eq!(
        parse_command("echo $(whoami)"),
        Err(CommandError::UnsafeArgument("$(whoami)".to_string()))
    );
    assert_eq!(
        parse_command("grep x file > out"),
        Err(CommandError::UnsafeArgument(">".to_string()))
    );
}

#[test]
fn allowed_command_is_split_respecting_quotes() {
    let (program, args) = parse_command("command=grep \"two words\" 'it''s'").unwrap();
    assert_eq!(program, "grep");
    assert_eq!(args, vec!["two words".to_string(), "its".to_string()]);
    let (program, args) = parse_command("\"ls -la\"").unwrap();
    assert_eq!(program, "ls");
    assert_eq!(args, vec!["-la".to_string()]);
}

#[test]
fn empty_command_is_refused() {
    assert_eq!(parse_command("command=   "), Err(CommandError::Empty));
    assert_eq!(parse_command(""), Err(CommandError::Empty));
}

#[test]
fn allowed_commands_are_listed() {
    assert_eq!(
        ExecuteCommandTool::allowed_commands(),
        vec!["ls", "dir", "find", "grep", "cat", "head", "tail", "echo", "pwd"]
    );
}

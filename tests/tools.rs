use gamecode::actions::{call_args, combine_output, join_words, plan, write_confirmation, ToolAction};
use gamecode::command::CommandError;
use gamecode::conversation::{ArgValue, ToolArg};
use gamecode::registry::{ToolError, ToolExecutor, ToolRegistry};
use gamecode::tools::{EchoTool, ExecuteCommandTool, ReadFileTool, ToolKind, WriteFileTool};

fn strings(v: &[&str]) -> Vec<String> {
    v.iter().map(|s| s.to_string()).collect()
}

#[test]
fn registry_looks_tools_up_by_name() {
    let mut reg = ToolRegistry::new();
    reg.register_tool(&ReadFileTool);
    reg.register_tool(&EchoTool);
    reg.register_tool(&ReadFileTool);
    assert_eq!(reg.available_tools(), strings(&["read_file", "echo"]));
    assert_eq!(reg.tool_descriptions()[1], ("echo".to_string(), "Echoes back the input text".to_string()));
    assert_eq!(reg.lookup("echo"), Some(ToolKind::Echo));
    assert_eq!(reg.lookup("write_file"), None);
}

#[test]
fn registry_refuses_unknown_tools_and_short_arguments() {
    let mut reg = ToolRegistry::new();
    reg.register_tool(&WriteFileTool);
    reg.register_tool(&ExecuteCommandTool);
    let e = reg.prepare_tool("nope", &vec![]).err().unwrap();
    assert_eq!(e, ToolError::NotFound("nope".to_string()));
    assert_eq!(e.message(), "Tool 'nope' not found");
    let e = reg.prepare_tool("write_file", &strings(&["path=a"])).err().unwrap();
    assert_eq!(e, ToolError::InvalidArguments("write_file".to_string()));
    assert_eq!(e.message(), "Invalid arguments for tool 'write_file': Not enough arguments provided");
    let e = reg.prepare_tool("execute_command", &strings(&["rm -rf /"])).err().unwrap();
    assert_eq!(e, ToolError::Command(CommandError::NotAllowed("rm".to_string())));
    assert!(e.message().starts_with("Command 'rm' is not allowed for security reasons."));
}

#[test]
fn paths_resolve_against_the_working_directory() {
    let mut reg = ToolRegistry::new();
    reg.register_tool(&ReadFileTool);
    reg.register_tool(&WriteFileTool);
    reg.set_working_directory("/home/u/");
    match reg.prepare_tool("read_file", &strings(&["path=notes.txt"])).ok().unwrap() {
        ToolAction::ReadFile { path } => assert_eq!(path, "/home/u/notes.txt"),
        _ => panic!("expected a read"),
    }
    match reg.prepare_tool("read_file", &strings(&["/etc/hosts"])).ok().unwrap() {
        ToolAction::ReadFile { path } => assert_eq!(path, "/etc/hosts"),
        _ => panic!("expected a read"),
    }
    match reg.prepare_tool("write_file", &strings(&["path=a/b.txt", "content=hi there"])).ok().unwrap() {
        ToolAction::WriteFile { path, content } => {
            assert_eq!(path, "/home/u/a/b.txt");
            assert_eq!(content, "hi there");
        },
        _ => panic!("expected a write"),
    }
}

#[test]
fn listing_target_defaults_to_the_working_directory() {
    match plan(ToolKind::ListDirectory, &vec![], "/w").ok().unwrap() {
        ToolAction::ListDirectory { path } => assert_eq!(path, "/w"),
        _ => panic!(),
    }
    match plan(ToolKind::ListDirectory, &strings(&["path=\"src\""]), "/w").ok().unwrap() {
        ToolAction::ListDirectory { path } => assert_eq!(path, "/w/src"),
        _ => panic!(),
    }
    match plan(ToolKind::ListDirectory, &strings(&["path=x/w"]), "/w").ok().unwrap() {
        ToolAction::ListDirectory { path } => assert_eq!(path, "x/w"),
        _ => panic!(),
    }
}

#[test]
fn commands_and_echo_are_planned() {
    match plan(ToolKind::ExecuteCommand, &strings(&["command=ls -la"]), "/w").ok().unwrap() {
        ToolAction::RunCommand { program, args, dir } => {
            assert_eq!(dir, "/w");
            assert_eq!(program, "ls");
            assert_eq!(args, strings(&["-la"]));
        },
        _ => panic!(),
    }
    assert!(matches!(
        plan(ToolKind::ExecuteCommand, &strings(&["ls; rm -rf /"]), "/w"),
        Err(ToolError::Command(CommandError::UnsafeArgument(_)))
    ));
    match plan(ToolKind::Echo, &strings(&["a", "b c"]), "/").ok().unwrap() {
        ToolAction::Reply { text } => assert_eq!(text, "a b c"),
        _ => panic!(),
    }
    assert_eq!(join_words(&vec![]), "");
}

#[test]
fn missing_arguments_are_reported_by_the_tool() {
    assert_eq!(
        plan(ToolKind::ReadFile, &vec![], "/").err(),
        Some(ToolError::Failed("No file path provided".to_string()))
    );
    assert_eq!(
        plan(ToolKind::WriteFile, &strings(&["a"]), "/").err(),
        Some(ToolError::Failed("Both file path and content are required".to_string()))
    );
    assert_eq!(
        plan(ToolKind::ExecuteCommand, &vec![], "/").err(),
        Some(ToolError::Failed("No command provided".to_string()))
    );
    let e = plan(ToolKind::Echo, &vec![], "/").err().unwrap();
    assert_eq!(e.message(), "No text provided to echo");
}

#[test]
fn call_arguments_follow_the_declared_order() {
    let given = vec![
        ToolArg { key: "content".to_string(), value: ArgValue::Text("x".to_string()) },
        ToolArg { key: "extra".to_string(), value: ArgValue::Json("1".to_string()) },
        ToolArg { key: "path".to_string(), value: ArgValue::Json("3".to_string()) },
    ];
    assert_eq!(call_args(ToolKind::WriteFile, &given), strings(&["path=3", "content=x"]));
    assert_eq!(call_args(ToolKind::ReadFile, &vec![]), Vec::<String>::new());
}

#[test]
fn outputs_are_finished() {
    assert_eq!(combine_output("out\n", ""), "out\n");
    assert_eq!(combine_output("out", "bad"), "out\n\nErrors:\nbad");
    assert_eq!(combine_output("", "bad"), "Errors:\nbad");
    assert_eq!(combine_output("", ""), "Command executed successfully with no output");
    assert_eq!(write_confirmation("/a"), "Successfully wrote to file: /a");
}

#[test]
fn tool_kinds_describe_themselves() {
    assert_eq!(ToolKind::WriteFile.required_args().len(), 2);
    assert!(ToolKind::Echo.validate_args(&vec![]).is_err());
    assert!(ToolKind::ListDirectory.validate_args(&vec![]).is_ok());
    assert_eq!(ToolKind::ExecuteCommand.visualization_type(), "command_execution");
}

#[test]
fn executor_settings() {
    let mut ex = ToolExecutor::new();
    assert_eq!(ex.time_limit(), 30000);
    assert_eq!(ex.directory(), "/");
    ex.set_max_execution_time(5);
    ex.set_working_directory("/tmp");
    assert_eq!(ex.time_limit(), 5);
    assert_eq!(ex.directory(), "/tmp");
}

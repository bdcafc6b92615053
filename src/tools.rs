//! The built-in tools, their argument schemas, and the registry that looks
//! them up by name.

use vstd::prelude::*;

verus! {

/// The JSON type of a tool argument.
#[derive(PartialEq, Eq, Structural, Clone, Copy, Debug)]
pub enum ToolArgumentType {
    String,
    Integer,
    Float,
    Boolean,
    FilePath,
    DirectoryPath,
}

/// One declared argument of a tool.
pub struct ToolArgument {
    pub name: String,
    pub description: String,
    pub required: bool,
    pub arg_type: ToolArgumentType,
}

/// The model of a [`ToolArgument`].
pub struct ToolArgumentV {
    pub name: Seq<char>,
    pub description: Seq<char>,
    pub required: bool,
    pub arg_type: ToolArgumentType,
}

impl View for ToolArgument {
    type V = ToolArgumentV;

    open spec fn view(&self) -> ToolArgumentV {
        ToolArgumentV {
            name: self.name@,
            description: self.description@,
            required: self.required,
            arg_type: self.arg_type,
        }
    }
}

/// The models of a sequence of arguments.
pub open spec fn argument_views(v: Seq<ToolArgument>) -> Seq<ToolArgumentV> {
    v.map_values(|a: ToolArgument| a@)
}

/// The built-in tools.
#[derive(PartialEq, Eq, Structural, Clone, Copy, Debug)]
pub enum ToolKind {
    ReadFile,
    WriteFile,
    ListDirectory,
    ExecuteCommand,
    Echo,
}

/// The name a tool is registered and called under.
pub open spec fn tool_name(k: ToolKind) -> Seq<char> {
    match k {
        ToolKind::ReadFile => "read_file"@,
        ToolKind::WriteFile => "write_file"@,
        ToolKind::ListDirectory => "list_directory"@,
        ToolKind::ExecuteCommand => "execute_command"@,
        ToolKind::Echo => "echo"@,
    }
}

/// What a tool does, in a sentence for the model.
pub open spec fn tool_description(k: ToolKind) -> Seq<char> {
    match k {
        ToolKind::ReadFile => "Read the contents of a file from the filesystem"@,
        ToolKind::WriteFile => "Write content to a file on the filesystem"@,
        ToolKind::ListDirectory => "List files and directories in a specified path"@,
        ToolKind::ExecuteCommand => "Execute a shell command (limited to safe commands: ls, dir, find, grep, cat, head, tail, echo, pwd)"@,
        ToolKind::Echo => "Echoes back the input text"@,
    }
}

/// An argument declaration.
pub open spec fn arg_decl(name: Seq<char>, description: Seq<char>, required: bool, t: ToolArgumentType) -> ToolArgumentV {
    ToolArgumentV { name, description, required, arg_type: t }
}

/// The arguments a tool declares.
pub open spec fn tool_args(k: ToolKind) -> Seq<ToolArgumentV> {
    match k {
        ToolKind::ReadFile => seq![
            arg_decl("path"@, "Path to the file to read"@, true, ToolArgumentType::FilePath),
        ],
        ToolKind::WriteFile => seq![
            arg_decl("path"@, "Path to the file to write"@, true, ToolArgumentType::FilePath),
            arg_decl("content"@, "Content to write to the file"@, true, ToolArgumentType::String),
        ],
        ToolKind::ListDirectory => seq![
            arg_decl("path"@, "Path to the directory to list (optional, uses working directory if not specified)"@, false, ToolArgumentType::DirectoryPath),
        ],
        ToolKind::ExecuteCommand => seq![
            arg_decl("command"@, "Command to execute with arguments. Only these commands are allowed: ls, dir, find, grep, cat, head, tail, echo, pwd"@, true, ToolArgumentType::String),
        ],
        ToolKind::Echo => seq![
            arg_decl("text"@, "The text to echo back"@, true, ToolArgumentType::String),
        ],
    }
}

/// How many arguments a tool requires.
pub open spec fn required_count(args: Seq<ToolArgumentV>) -> int
    decreases args.len(),
{
    if args.len() == 0 {
        0
    } else {
        required_count(args.drop_last()) + if args.last().required {
            1int
        } else {
            0int
        }
    }
}

/// The kind of animation a front end shows while a tool runs.
pub open spec fn tool_visualization(k: ToolKind) -> Seq<char> {
    match k {
        ToolKind::ReadFile => "file_read"@,
        ToolKind::WriteFile => "file_write"@,
        ToolKind::ListDirectory => "file_list"@,
        ToolKind::ExecuteCommand => "command_execution"@,
        ToolKind::Echo => "echo"@,
    }
}

fn argument(name: &str, description: &str, required: bool, t: ToolArgumentType) -> (r: ToolArgument)
    ensures
        r@ == arg_decl(name@, description@, required, t),
{
    ToolArgument { name: name.to_owned(), description: description.to_owned(), required, arg_type: t }
}

impl ToolKind {
    /// The name the tool is registered and called under.
    pub fn name(&self) -> (r: String)
        ensures
            r@ == tool_name(*self),
    {
        match self {
            ToolKind::ReadFile => "read_file".to_owned(),
            ToolKind::WriteFile => "write_file".to_owned(),
            ToolKind::ListDirectory => "list_directory".to_owned(),
            ToolKind::ExecuteCommand => "execute_command".to_owned(),
            ToolKind::Echo => "echo".to_owned(),
        }
    }

    /// What the tool does.
    pub fn description(&self) -> (r: String)
        ensures
            r@ == tool_description(*self),
    {
        match self {
            ToolKind::ReadFile => "Read the contents of a file from the filesystem".to_owned(),
            ToolKind::WriteFile => "Write content to a file on the filesystem".to_owned(),
            ToolKind::ListDirectory => "List files and directories in a specified path".to_owned(),
            ToolKind::ExecuteCommand => "Execute a shell command (limited to safe commands: ls, dir, find, grep, cat, head, tail, echo, pwd)".to_owned(),
            ToolKind::Echo => "Echoes back the input text".to_owned(),
        }
    }

    /// The arguments the tool declares.
    pub fn required_args(&self) -> (r: Vec<ToolArgument>)
        ensures
            argument_views(r@) == tool_args(*self),
    {
        let mut v: Vec<ToolArgument> = Vec::new();
        match self {
            ToolKind::ReadFile => {
                v.push(argument("path", "Path to the file to read", true, ToolArgumentType::FilePath));
            },
            ToolKind::WriteFile => {
                v.push(argument("path", "Path to the file to write", true, ToolArgumentType::FilePath));
                v.push(argument("content", "Content to write to the file", true, ToolArgumentType::String));
            },
            ToolKind::ListDirectory => {
                v.push(argument("path", "Path to the directory to list (optional, uses working directory if not specified)", false, ToolArgumentType::DirectoryPath));
            },
            ToolKind::ExecuteCommand => {
                v.push(argument("command", "Command to execute with arguments. Only these commands are allowed: ls, dir, find, grep, cat, head, tail, echo, pwd", true, ToolArgumentType::String));
            },
            ToolKind::Echo => {
                v.push(argument("text", "The text to echo back", true, ToolArgumentType::String));
            },
        }
        assert(argument_views(v@) =~= tool_args(*self));
        v
    }

    /// The animation a front end shows while the tool runs.
    pub fn visualization_type(&self) -> (r: String)
        ensures
            r@ == tool_visualization(*self),
    {
        match self {
            ToolKind::ReadFile => "file_read".to_owned(),
            ToolKind::WriteFile => "file_write".to_owned(),
            ToolKind::ListDirectory => "file_list".to_owned(),
            ToolKind::ExecuteCommand => "command_execution".to_owned(),
            ToolKind::Echo => "echo".to_owned(),
        }
    }

    /// Checks that `args` holds at least as many values as the tool
    /// requires arguments.
    pub fn validate_args(&self, args: &Vec<String>) -> (r: Result<(), String>)
        ensures
            r is Ok <==> args@.len() >= required_count(tool_args(*self)),
            r matches Err(m) ==> m@ == "Not enough arguments provided"@,
    {
        let declared = self.required_args();
        let mut needed: usize = 0;
        let mut i: usize = 0;
        while i < declared.len()
            invariant
                i <= declared.len(),
                argument_views(declared@) == tool_args(*self),
                needed == required_count(argument_views(declared@).take(i as int)),
                needed <= i,
            decreases declared.len() - i,
        {
            proof {
                let t = argument_views(declared@).take(i as int + 1);
                assert(t.drop_last() =~= argument_views(declared@).take(i as int));
            }
            if declared[i].required {
                needed += 1;
            }
            i += 1;
        }
        assert(argument_views(declared@).take(declared.len() as int) =~= argument_views(declared@));
        if args.len() < needed {
            Err("Not enough arguments provided".to_owned())
        } else {
            Ok(())
        }
    }
}

/// A tool that the agent can register.
pub trait Tool {
    spec fn spec_kind(&self) -> ToolKind;

    /// Which built-in tool this is.
    fn kind(&self) -> (r: ToolKind)
        ensures
            r == self.spec_kind(),
    ;
}

/// Reads a file.
pub struct ReadFileTool;

/// Writes a file, creating its parent directories.
pub struct WriteFileTool;

/// Lists a directory.
pub struct ListDirectoryTool;

/// Runs one of a few read-only shell commands.
pub struct ExecuteCommandTool;

/// Hands its arguments back.
pub struct EchoTool;

impl ExecuteCommandTool {
    /// The commands that may run.
    pub fn allowed_commands() -> (r: Vec<String>)
        ensures
            r@.map_values(|s: String| s@) == crate::command::allowed_list(),
    {
        crate::command::allowed_commands()
    }
}

/// Sets up the tools; they need nothing before use.
pub fn init() {
}

impl Tool for ReadFileTool {
    open spec fn spec_kind(&self) -> ToolKind {
        ToolKind::ReadFile
    }

    fn kind(&self) -> (r: ToolKind) {
        ToolKind::ReadFile
    }
}

impl Tool for WriteFileTool {
    open spec fn spec_kind(&self) -> ToolKind {
        ToolKind::WriteFile
    }

    fn kind(&self) -> (r: ToolKind) {
        ToolKind::WriteFile
    }
}

impl Tool for ListDirectoryTool {
    open spec fn spec_kind(&self) -> ToolKind {
        ToolKind::ListDirectory
    }

    fn kind(&self) -> (r: ToolKind) {
        ToolKind::ListDirectory
    }
}

impl Tool for ExecuteCommandTool {
    open spec fn spec_kind(&self) -> ToolKind {
        ToolKind::ExecuteCommand
    }

    fn kind(&self) -> (r: ToolKind) {
        ToolKind::ExecuteCommand
    }
}

impl Tool for EchoTool {
    open spec fn spec_kind(&self) -> ToolKind {
        ToolKind::Echo
    }

    fn kind(&self) -> (r: ToolKind) {
        ToolKind::Echo
    }
}

} // verus!

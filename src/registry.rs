//! The registry of tools, looked up by name, and the settings they run with.

use vstd::prelude::*;

use crate::actions::{plan, plan_result, views, ToolAction};
use crate::command::CommandError;
use crate::text::push_str;
use crate::tools::{required_count, tool_args, tool_description, tool_name, Tool, ToolKind};

verus! {

/// The settings that tools run with.
pub struct ToolExecutor {
    max_execution_time: u64,
    working_directory: String,
}

impl ToolExecutor {
    /// A time limit of 30 s, in the root directory.
    pub fn new() -> (r: Self)
        ensures
            r.max_execution_time() == 30000,
            r.working_directory()@ == "/"@,
    {
        ToolExecutor { max_execution_time: 30000, working_directory: "/".to_owned() }
    }

    /// The time limit, in milliseconds.
    pub closed spec fn max_execution_time(&self) -> u64 {
        self.max_execution_time
    }

    /// The directory that relative paths are resolved against.
    pub closed spec fn working_directory(&self) -> String {
        self.working_directory
    }

    /// Sets the time limit, in milliseconds.
    pub fn set_max_execution_time(&mut self, milliseconds: u64)
        ensures
            final(self).max_execution_time() == milliseconds,
            final(self).working_directory() == old(self).working_directory(),
    {
        self.max_execution_time = milliseconds;
    }

    /// Sets the directory that relative paths are resolved against.
    pub fn set_working_directory(&mut self, directory: &str)
        ensures
            final(self).working_directory()@ == directory@,
            final(self).max_execution_time() == old(self).max_execution_time(),
    {
        self.working_directory = directory.to_owned();
    }

    /// The time limit, in milliseconds.
    pub fn time_limit(&self) -> (r: u64)
        ensures
            r == self.max_execution_time(),
    {
        self.max_execution_time
    }

    /// The directory that relative paths are resolved against.
    pub fn directory(&self) -> (r: &str)
        ensures
            r@ == self.working_directory()@,
    {
        self.working_directory.as_str()
    }
}

/// Why a tool call cannot be made.
#[derive(PartialEq, Eq, Debug)]
pub enum ToolError {
    /// No tool has this name.
    NotFound(String),
    /// The tool with this name got fewer arguments than it requires.
    InvalidArguments(String),
    /// The command line of `execute_command` is refused.
    Command(CommandError),
    /// The tool ran and failed; the text says how.
    Failed(String),
}

/// The text of a tool error, as the model reads it.
pub open spec fn error_text(e: ToolError) -> Seq<char> {
    match e {
        ToolError::NotFound(n) => "Tool '"@ + n@ + "' not found"@,
        ToolError::InvalidArguments(n) => "Invalid arguments for tool '"@ + n@
            + "': Not enough arguments provided"@,
        ToolError::Command(CommandError::Empty) => "Empty command"@,
        ToolError::Command(CommandError::UnsafeArgument(a)) => "Argument '"@ + a@
            + "' contains potentially unsafe characters"@,
        ToolError::Command(CommandError::NotAllowed(c)) => "Command '"@ + c@
            + "' is not allowed for security reasons. Allowed commands are: ls, dir, find, grep, cat, head, tail, echo, pwd"@,
        ToolError::Failed(m) => m@,
    }
}

impl ToolError {
    /// The text of the error, as the model reads it.
    pub fn message(&self) -> (r: String)
        ensures
            r@ == error_text(*self),
    {
        match self {
            ToolError::NotFound(n) => {
                let mut s = "Tool '".to_owned();
                push_str(&mut s, n.as_str());
                push_str(&mut s, "' not found");
                s
            },
            ToolError::InvalidArguments(n) => {
                let mut s = "Invalid arguments for tool '".to_owned();
                push_str(&mut s, n.as_str());
                push_str(&mut s, "': Not enough arguments provided");
                s
            },
            ToolError::Command(CommandError::Empty) => "Empty command".to_owned(),
            ToolError::Command(CommandError::UnsafeArgument(a)) => {
                let mut s = "Argument '".to_owned();
                push_str(&mut s, a.as_str());
                push_str(&mut s, "' contains potentially unsafe characters");
                s
            },
            ToolError::Command(CommandError::NotAllowed(c)) => {
                let mut s = "Command '".to_owned();
                push_str(&mut s, c.as_str());
                push_str(
                    &mut s,
                    "' is not allowed for security reasons. Allowed commands are: ls, dir, find, grep, cat, head, tail, echo, pwd",
                );
                s
            },
            ToolError::Failed(m) => m.clone(),
        }
    }
}

/// The registered tools, one per name, and the settings they run with.
pub struct ToolRegistry {
    tools: Vec<ToolKind>,
    executor: ToolExecutor,
}

/// Whether some tool of `ks` has the name `name`.
pub open spec fn has_named(ks: Seq<ToolKind>, name: Seq<char>) -> bool {
    exists|i: int| 0 <= i < ks.len() && tool_name(#[trigger] ks[i]) == name
}

/// No two built-in tools share a name.
pub proof fn lemma_names_distinct(a: ToolKind, b: ToolKind)
    requires
        tool_name(a) == tool_name(b),
    ensures
        a == b,
{
    reveal_strlit("read_file");
    reveal_strlit("write_file");
    reveal_strlit("list_directory");
    reveal_strlit("execute_command");
    reveal_strlit("echo");
    assert(tool_name(ToolKind::ReadFile).len() == 9);
    assert(tool_name(ToolKind::WriteFile).len() == 10);
    assert(tool_name(ToolKind::ListDirectory).len() == 14);
    assert(tool_name(ToolKind::ExecuteCommand).len() == 15);
    assert(tool_name(ToolKind::Echo).len() == 4);
}

fn same_kind(a: ToolKind, b: ToolKind) -> (r: bool)
    ensures
        r == (a == b),
{
    match (a, b) {
        (ToolKind::ReadFile, ToolKind::ReadFile) => true,
        (ToolKind::WriteFile, ToolKind::WriteFile) => true,
        (ToolKind::ListDirectory, ToolKind::ListDirectory) => true,
        (ToolKind::ExecuteCommand, ToolKind::ExecuteCommand) => true,
        (ToolKind::Echo, ToolKind::Echo) => true,
        _ => false,
    }
}

/// `r` is how a registry with tools `kinds`, in directory `wd`, answers a
/// call of `name` with `args`: unknown names are refused, then calls with
/// fewer arguments than the tool requires, and otherwise the tool's plan
/// stands, or the refusal of its command line.
pub open spec fn prepared(
    kinds: Seq<ToolKind>,
    wd: Seq<char>,
    name: Seq<char>,
    args: Seq<Seq<char>>,
    r: Result<ToolAction, ToolError>,
) -> bool {
    if !has_named(kinds, name) {
        match r {
            Err(ToolError::NotFound(n)) => n@ == name,
            _ => false,
        }
    } else {
        let k = choose|k: ToolKind| kinds.contains(k) && tool_name(k) == name;
        if args.len() < required_count(tool_args(k)) {
            match r {
                Err(ToolError::InvalidArguments(n)) => n@ == name,
                _ => false,
            }
        } else {
            plan_result(k, args, wd, r)
        }
    }
}

impl ToolRegistry {
    /// No tools, in the root directory.
    pub fn new() -> (r: Self)
        ensures
            r.registered() == Seq::<ToolKind>::empty(),
            r.working_directory()@ == "/"@,
    {
        ToolRegistry { tools: Vec::new(), executor: ToolExecutor::new() }
    }

    /// The registered tools, in order of first registration.
    pub closed spec fn registered(&self) -> Seq<ToolKind> {
        self.tools@
    }

    /// The directory that relative paths are resolved against.
    pub closed spec fn working_directory(&self) -> String {
        self.executor.working_directory()
    }

    /// Registers `tool` under its name; a tool registered again under the
    /// same name replaces the earlier one.
    pub fn register_tool<T: Tool>(&mut self, tool: &T)
        ensures
            final(self).registered() == if old(self).registered().contains(tool.spec_kind()) {
                old(self).registered()
            } else {
                old(self).registered().push(tool.spec_kind())
            },
            final(self).working_directory() == old(self).working_directory(),
    {
        let k = tool.kind();
        let mut i: usize = 0;
        while i < self.tools.len()
            invariant
                i <= self.tools.len(),
                self.tools@ == old(self).tools@,
                self.executor == old(self).executor,
                k == tool.spec_kind(),
                forall|j: int| 0 <= j < i ==> self.tools@[j] != k,
            decreases self.tools.len() - i,
        {
            if same_kind(self.tools[i], k) {
                assert(old(self).registered()[i as int] == tool.spec_kind());
                assert(old(self).registered().contains(tool.spec_kind()));
                return;
            }
            i += 1;
        }
        self.tools.push(k);
    }

    /// The registered tools.
    pub fn kinds(&self) -> (r: &Vec<ToolKind>)
        ensures
            r@ == self.registered(),
    {
        &self.tools
    }

    /// The directory that relative paths are resolved against.
    pub fn directory(&self) -> (r: &str)
        ensures
            r@ == self.working_directory()@,
    {
        self.executor.directory()
    }

    /// Sets the directory that relative paths are resolved against.
    pub fn set_working_directory(&mut self, directory: &str)
        ensures
            final(self).working_directory()@ == directory@,
            final(self).registered() == old(self).registered(),
    {
        self.executor.set_working_directory(directory);
    }

    /// The names of the registered tools.
    pub fn available_tools(&self) -> (r: Vec<String>)
        ensures
            views(r@) == self.registered().map_values(|k: ToolKind| tool_name(k)),
    {
        let mut out: Vec<String> = Vec::new();
        let mut i: usize = 0;
        while i < self.tools.len()
            invariant
                i <= self.tools.len(),
                views(out@) == self.registered().take(i as int).map_values(
                    |k: ToolKind| tool_name(k),
                ),
            decreases self.tools.len() - i,
        {
            let ghost before = views(out@);
            out.push(self.tools[i].name());
            assert(views(out@) =~= before.push(tool_name(self.tools@[i as int])));
            assert(self.registered().take(i as int + 1).map_values(|k: ToolKind| tool_name(k))
                =~= before.push(tool_name(self.tools@[i as int])));
            i += 1;
        }
        assert(self.registered().take(self.tools.len() as int) =~= self.registered());
        out
    }

    /// The name and description of each registered tool.
    pub fn tool_descriptions(&self) -> (r: Vec<(String, String)>)
        ensures
            r@.map_values(|p: (String, String)| (p.0@, p.1@)) == self.registered().map_values(
                |k: ToolKind| (tool_name(k), tool_description(k)),
            ),
    {
        let mut out: Vec<(String, String)> = Vec::new();
        let mut i: usize = 0;
        while i < self.tools.len()
            invariant
                i <= self.tools.len(),
                out@.map_values(|p: (String, String)| (p.0@, p.1@)) == self.registered().take(
                    i as int,
                ).map_values(|k: ToolKind| (tool_name(k), tool_description(k))),
            decreases self.tools.len() - i,
        {
            let k = self.tools[i];
            let ghost before = out@.map_values(|p: (String, String)| (p.0@, p.1@));
            out.push((k.name(), k.description()));
            assert(out@.map_values(|p: (String, String)| (p.0@, p.1@)) =~= before.push(
                (tool_name(k), tool_description(k)),
            ));
            assert(self.registered().take(i as int + 1).map_values(
                |k: ToolKind| (tool_name(k), tool_description(k)),
            ) =~= before.push((tool_name(k), tool_description(k))));
            i += 1;
        }
        assert(self.registered().take(self.tools.len() as int) =~= self.registered());
        out
    }

    /// The registered tool named `name`, if any.
    pub open spec fn lookup_spec(&self, name: Seq<char>) -> Option<ToolKind> {
        if has_named(self.registered(), name) {
            Some(choose|k: ToolKind| self.registered().contains(k) && tool_name(k) == name)
        } else {
            None
        }
    }

    /// The registered tool named `name`.
    pub fn lookup(&self, name: &str) -> (r: Option<ToolKind>)
        ensures
            match r {
                Some(k) => self.registered().contains(k) && tool_name(k) == name@,
                None => !has_named(self.registered(), name@),
            },
    {
        let n = name.to_owned();
        let mut i: usize = 0;
        while i < self.tools.len()
            invariant
                i <= self.tools.len(),
                n@ == name@,
                forall|j: int| 0 <= j < i ==> tool_name(#[trigger] self.tools@[j]) != name@,
            decreases self.tools.len() - i,
        {
            let k = self.tools[i];
            if k.name() == n {
                return Some(k);
            }
            i += 1;
        }
        None
    }

    /// Looks up the tool named `name`, checks its arguments, and decides
    /// the work it asks for in the working directory.
    pub fn prepare_tool(&self, name: &str, args: &Vec<String>) -> (r: Result<ToolAction, ToolError>)
        ensures
            prepared(self.registered(), self.working_directory()@, name@, views(args@), r),
    {
        match self.lookup(name) {
            None => Err(ToolError::NotFound(name.to_owned())),
            Some(k) => {
                proof {
                    let c = choose|c: ToolKind| self.registered().contains(c) && tool_name(c) == name@;
                    lemma_names_distinct(c, k);
                }
                match k.validate_args(args) {
                    Err(_) => Err(ToolError::InvalidArguments(name.to_owned())),
                    Ok(()) => plan(k, args, self.executor.directory()),
                }
            },
        }
    }
}

} // verus!

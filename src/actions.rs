//! What each built-in tool does with its arguments, decided before any I/O,
//! and how the outcome of that I/O is turned into the tool's output.

use vstd::prelude::*;

use crate::command::{
    command_text, command_verdict, parse_command, strip_key, strip_trailing, tokens, trim_trailing,
    unquote, without_key, CommandError,
};
use crate::conversation::{ArgValue, ToolArg};
use crate::text::{chars_of, push_str, string_of};
use crate::registry::ToolError;
use crate::tools::{tool_args, ToolArgumentV, ToolKind, argument_views};

verus! {

/// Work that a tool asks for, which the caller performs.
pub enum ToolAction {
    ReadFile { path: String },
    WriteFile { path: String, content: String },
    ListDirectory { path: String },
    RunCommand { program: String, args: Vec<String>, dir: String },
    Reply { text: String },
}

/// `p` joined to the directory `wd`.
pub open spec fn join_path(wd: Seq<char>, p: Seq<char>) -> Seq<char> {
    strip_trailing(wd, '/') + "/"@ + p
}

/// `p` resolved against `wd` when it is relative.
pub open spec fn resolve(wd: Seq<char>, p: Seq<char>) -> Seq<char> {
    if p.len() > 0 && p[0] == '/' {
        p
    } else {
        join_path(wd, p)
    }
}

/// Whether `w` occurs in `p`.
pub open spec fn occurs_in(w: Seq<char>, p: Seq<char>) -> bool {
    exists|i: int| 0 <= i && i + w.len() <= p.len() && #[trigger] p.subrange(i, i + w.len()) == w
}

/// The directory that `list_directory` lists, for its optional argument.
pub open spec fn list_target(wd: Seq<char>, args: Seq<Seq<char>>) -> Seq<char> {
    if args.len() == 0 {
        wd
    } else {
        let p = unquote(strip_key(args[0], "path="@));
        if p.len() > 0 && p[0] == '/' {
            p
        } else if p == wd || occurs_in(wd, p) {
            p
        } else {
            join_path(wd, p)
        }
    }
}

/// The words of `parts` joined by single spaces.
pub open spec fn join_spaced(parts: Seq<Seq<char>>) -> Seq<char>
    decreases parts.len(),
{
    if parts.len() == 0 {
        Seq::empty()
    } else if parts.len() == 1 {
        parts[0]
    } else {
        join_spaced(parts.drop_last()) + " "@ + parts.last()
    }
}

/// The models of a sequence of strings.
pub open spec fn views(v: Seq<String>) -> Seq<Seq<char>> {
    v.map_values(|s: String| s@)
}

/// `r` is the action that `kind` asks for with `args` in `wd`, or the
/// refusal of its command line.
pub open spec fn planned(
    kind: ToolKind,
    args: Seq<Seq<char>>,
    wd: Seq<char>,
    r: Result<ToolAction, CommandError>,
) -> bool {
    match kind {
        ToolKind::ReadFile => match r {
            Ok(ToolAction::ReadFile { path }) => path@ == resolve(wd, strip_key(args[0], "path="@)),
            _ => false,
        },
        ToolKind::WriteFile => match r {
            Ok(ToolAction::WriteFile { path, content }) => path@ == resolve(
                wd,
                strip_key(args[0], "path="@),
            ) && content@ == strip_key(args[1], "content="@),
            _ => false,
        },
        ToolKind::ListDirectory => match r {
            Ok(ToolAction::ListDirectory { path }) => path@ == list_target(wd, args),
            _ => false,
        },
        ToolKind::ExecuteCommand => {
            let ts = tokens(command_text(args[0]));
            match r {
                Ok(ToolAction::RunCommand { program, args: a, dir }) => dir@ == wd && command_verdict(
                    ts,
                    Ok((program, a)),
                ),
                Ok(_) => false,
                Err(e) => command_verdict(ts, Err(e)),
            }
        },
        ToolKind::Echo => match r {
            Ok(ToolAction::Reply { text }) => text@ == join_spaced(args),
            _ => false,
        },
    }
}

/// How many arguments a tool cannot do without.
pub open spec fn min_args(kind: ToolKind) -> int {
    match kind {
        ToolKind::WriteFile => 2,
        ToolKind::ListDirectory => 0,
        _ => 1,
    }
}

/// `p` resolved against `wd` when it is relative.
pub fn resolve_path(wd: &str, p: &Vec<char>) -> (r: String)
    ensures
        r@ == resolve(wd@, p@),
{
    if p.len() > 0 && p[0] == '/' {
        string_of(p)
    } else {
        let w = chars_of(wd);
        let w = trim_trailing(&w, '/');
        let mut out = string_of(&w);
        push_str(&mut out, "/");
        let ps = string_of(p);
        push_str(&mut out, ps.as_str());
        out
    }
}

/// Whether `w` occurs in `p`.
pub fn occurs(w: &Vec<char>, p: &Vec<char>) -> (r: bool)
    ensures
        r == occurs_in(w@, p@),
{
    if w.len() > p.len() {
        return false;
    }
    let mut i: usize = 0;
    while i <= p.len() - w.len()
        invariant
            w.len() <= p.len(),
            i <= p.len() - w.len() + 1,
            forall|k: int| 0 <= k < i ==> #[trigger] p@.subrange(k, k + w.len()) != w@,
        decreases p.len() - i,
    {
        let mut j: usize = 0;
        let mut same = true;
        while j < w.len()
            invariant
                i + w.len() <= p.len(),
                j <= w.len(),
                same == (forall|m: int| 0 <= m < j ==> p@[i + m] == w@[m]),
            decreases w.len() - j,
        {
            if p[i + j] != w[j] {
                same = false;
            }
            j += 1;
        }
        if same {
            assert(p@.subrange(i as int, i + w.len()) =~= w@);
            return true;
        }
        assert(p@.subrange(i as int, i + w.len()) != w@) by {
            let m = choose|m: int| 0 <= m < w.len() && p@[i + m] != w@[m];
            assert(p@.subrange(i as int, i + w.len())[m] != w@[m]);
        }
        i += 1;
    }
    proof {
        if occurs_in(w@, p@) {
            let k = choose|k: int|
                0 <= k && k + w.len() <= p.len() && #[trigger] p@.subrange(k, k + w.len()) == w@;
            assert(k < i);
        }
    }
    false
}

/// The words of `parts` joined by single spaces.
pub fn join_words(parts: &Vec<String>) -> (r: String)
    ensures
        r@ == join_spaced(views(parts@)),
{
    let mut out = String::new();
    let mut i: usize = 0;
    while i < parts.len()
        invariant
            i <= parts.len(),
            out@ == join_spaced(views(parts@).take(i as int)),
        decreases parts.len() - i,
    {
        if i > 0 {
            push_str(&mut out, " ");
        }
        push_str(&mut out, parts[i].as_str());
        proof {
            let t = views(parts@).take(i as int + 1);
            assert(t.drop_last() =~= views(parts@).take(i as int));
            assert(t.last() == parts@[i as int]@);
            if i == 0 {
                assert(out@ =~= t[0]);
            }
        }
        i += 1;
    }
    assert(views(parts@).take(parts.len() as int) =~= views(parts@));
    out
}

/// The work `kind` asks for, when `args` holds the arguments it needs.
fn plan_checked(kind: ToolKind, args: &Vec<String>, wd: &str) -> (r: Result<ToolAction, CommandError>)
    requires
        args@.len() >= min_args(kind),
    ensures
        planned(kind, views(args@), wd@, r),
{
    match kind {
        ToolKind::ReadFile => {
            let a = chars_of(args[0].as_str());
            let p = without_key(&a, "path=");
            Ok(ToolAction::ReadFile { path: resolve_path(wd, &p) })
        },
        ToolKind::WriteFile => {
            let a = chars_of(args[0].as_str());
            let p = without_key(&a, "path=");
            let c = chars_of(args[1].as_str());
            let c = without_key(&c, "content=");
            Ok(ToolAction::WriteFile { path: resolve_path(wd, &p), content: string_of(&c) })
        },
        ToolKind::ListDirectory => {
            if args.len() == 0 {
                return Ok(ToolAction::ListDirectory { path: wd.to_owned() });
            }
            let a = chars_of(args[0].as_str());
            let p = without_key(&a, "path=");
            let p = crate::command::trim_leading(&p, '"');
            let p = trim_trailing(&p, '"');
            let p = crate::command::trim_leading(&p, '\'');
            let p = trim_trailing(&p, '\'');
            let w = chars_of(wd);
            let path = if p.len() > 0 && p[0] == '/' {
                string_of(&p)
            } else if occurs(&w, &p) {
                string_of(&p)
            } else {
                resolve_path(wd, &p)
            };
            proof {
                if p@ == w@ {
                    assert(p@.subrange(0, 0 + w@.len() as int) =~= w@);
                    assert(occurs_in(w@, p@));
                }
            }
            let r = Ok(ToolAction::ListDirectory { path });
            assert(planned(kind, views(args@), wd@, r));
            r
        },
        ToolKind::ExecuteCommand => {
            let parsed = parse_command(args[0].as_str());
            assert(views(args@)[0] == args[0]@);
            match parsed {
                Ok((program, a)) => {
                    let r = Ok(ToolAction::RunCommand { program, args: a, dir: wd.to_owned() });
                    assert(planned(kind, views(args@), wd@, r));
                    r
                },
                Err(e) => Err(e),
            }
        },
        ToolKind::Echo => Ok(ToolAction::Reply { text: join_words(args) }),
    }
}

/// What a tool answers when it lacks an argument it cannot do without.
pub open spec fn missing_text(kind: ToolKind) -> Seq<char> {
    match kind {
        ToolKind::ReadFile => "No file path provided"@,
        ToolKind::WriteFile => "Both file path and content are required"@,
        ToolKind::ExecuteCommand => "No command provided"@,
        _ => "No text provided to echo"@,
    }
}

/// `r` is what `plan` answers for `kind` with `args` in `wd`.
pub open spec fn plan_result(
    kind: ToolKind,
    args: Seq<Seq<char>>,
    wd: Seq<char>,
    r: Result<ToolAction, ToolError>,
) -> bool {
    if args.len() < min_args(kind) {
        match r {
            Err(ToolError::Failed(m)) => m@ == missing_text(kind),
            _ => false,
        }
    } else {
        match r {
            Ok(a) => planned(kind, args, wd, Ok::<ToolAction, CommandError>(a)),
            Err(ToolError::Command(e)) => planned(kind, args, wd, Err::<ToolAction, CommandError>(e)),
            _ => false,
        }
    }
}

/// Decides what `kind` does with `args` in the working directory `wd`: the
/// file to read, write or list, the command to run, or the text to hand
/// back; a missing argument or a refused command line is an error.
pub fn plan(kind: ToolKind, args: &Vec<String>, wd: &str) -> (r: Result<ToolAction, ToolError>)
    ensures
        plan_result(kind, views(args@), wd@, r),
{
    let needed: usize = match kind {
        ToolKind::WriteFile => 2,
        ToolKind::ListDirectory => 0,
        _ => 1,
    };
    if args.len() < needed {
        let m = match kind {
            ToolKind::ReadFile => "No file path provided",
            ToolKind::WriteFile => "Both file path and content are required",
            ToolKind::ExecuteCommand => "No command provided",
            _ => "No text provided to echo",
        };
        return Err(ToolError::Failed(m.to_owned()));
    }
    match plan_checked(kind, args, wd) {
        Ok(a) => Ok(a),
        Err(e) => Err(ToolError::Command(e)),
    }
}

/// The type of a directory entry.
pub enum EntryKind {
    Dir,
    File,
    Other,
    Unknown,
}

/// One entry of a directory, as the file system reported it.
pub struct DirEntry {
    pub name: String,
    pub kind: EntryKind,
}

/// The word a listing shows for an entry type.
pub open spec fn kind_word(k: EntryKind) -> Seq<char> {
    match k {
        EntryKind::Dir => "dir"@,
        EntryKind::File => "file"@,
        EntryKind::Other => "other"@,
        EntryKind::Unknown => "unknown"@,
    }
}

/// The lines of a listing's entries.
pub open spec fn listing_lines(es: Seq<DirEntry>) -> Seq<char>
    decreases es.len(),
{
    if es.len() == 0 {
        Seq::empty()
    } else {
        listing_lines(es.drop_last()) + es.last().name@ + " ("@ + kind_word(es.last().kind) + ")\n"@
    }
}

/// The text of a listing of `path`.
pub open spec fn listing_text(path: Seq<char>, es: Seq<DirEntry>) -> Seq<char> {
    "Contents of "@ + path + ":\n"@ + listing_lines(es)
}

/// The text of a listing of `path`, one `name (type)` line per entry, and
/// the entry names.
pub fn format_listing(path: &str, entries: &Vec<DirEntry>) -> (r: (String, Vec<String>))
    ensures
        r.0@ == listing_text(path@, entries@),
        views(r.1@) == entries@.map_values(|e: DirEntry| e.name@),
{
    let mut out = String::new();
    push_str(&mut out, "Contents of ");
    push_str(&mut out, path);
    push_str(&mut out, ":\n");
    let ghost head = out@;
    let mut names: Vec<String> = Vec::new();
    let mut i: usize = 0;
    while i < entries.len()
        invariant
            i <= entries.len(),
            head == "Contents of "@ + path@ + ":\n"@,
            out@ == head + listing_lines(entries@.take(i as int)),
            views(names@) == entries@.take(i as int).map_values(|e: DirEntry| e.name@),
        decreases entries.len() - i,
    {
        let e = &entries[i];
        push_str(&mut out, e.name.as_str());
        push_str(&mut out, " (");
        let word = match e.kind {
            EntryKind::Dir => "dir",
            EntryKind::File => "file",
            EntryKind::Other => "other",
            EntryKind::Unknown => "unknown",
        };
        push_str(&mut out, word);
        push_str(&mut out, ")\n");
        let ghost before = views(names@);
        names.push(e.name.clone());
        proof {
            let t = entries@.take(i as int + 1);
            assert(t.drop_last() =~= entries@.take(i as int));
            assert(t.last() == entries@[i as int]);
            assert(out@ =~= head + listing_lines(t));
            assert(views(names@) =~= before.push(e.name@));
            assert(t.map_values(|e: DirEntry| e.name@) =~= entries@.take(i as int).map_values(
                |e: DirEntry| e.name@,
            ).push(e.name@));
        }
        i += 1;
    }
    assert(entries@.take(entries.len() as int) =~= entries@);
    (out, names)
}

/// What a command printed, as the tool's output.
pub open spec fn command_output(stdout: Seq<char>, stderr: Seq<char>) -> Seq<char> {
    if stdout.len() == 0 && stderr.len() == 0 {
        "Command executed successfully with no output"@
    } else if stderr.len() == 0 {
        stdout
    } else if stdout.len() == 0 {
        "Errors:\n"@ + stderr
    } else {
        stdout + "\n\nErrors:\n"@ + stderr
    }
}

/// What a command printed, as the tool's output: its standard output, then
/// its error output under an `Errors:` line.
pub fn combine_output(stdout: &str, stderr: &str) -> (r: String)
    ensures
        r@ == command_output(stdout@, stderr@),
{
    let mut out = String::new();
    let has_out = !stdout.is_empty();
    let has_err = !stderr.is_empty();
    if !has_out && !has_err {
        return "Command executed successfully with no output".to_owned();
    }
    if has_out {
        push_str(&mut out, stdout);
    }
    if has_err {
        if has_out {
            push_str(&mut out, "\n\nErrors:\n");
        } else {
            push_str(&mut out, "Errors:\n");
        }
        push_str(&mut out, stderr);
    }
    out
}

/// What `write_file` answers after writing `path`.
pub fn write_confirmation(path: &str) -> (r: String)
    ensures
        r@ == "Successfully wrote to file: "@ + path@,
{
    let mut out = "Successfully wrote to file: ".to_owned();
    push_str(&mut out, path);
    out
}

/// How an argument value stands in a `key=value` argument.
pub open spec fn value_text(v: ArgValue) -> Seq<char> {
    match v {
        ArgValue::Text(s) => s@,
        ArgValue::Json(t) => t@,
    }
}

/// `k` is the first argument of `given` named `name`.
pub open spec fn is_first_key(given: Seq<ToolArg>, name: Seq<char>, k: int) -> bool {
    &&& 0 <= k < given.len()
    &&& given[k].key@ == name
    &&& forall|j: int| 0 <= j < k ==> (#[trigger] given[j]).key@ != name
}

/// The first argument of `given` named `name`, if any.
pub open spec fn first_key(given: Seq<ToolArg>, name: Seq<char>) -> Option<int> {
    if exists|k: int| is_first_key(given, name, k) {
        Some(choose|k: int| is_first_key(given, name, k))
    } else {
        None
    }
}

/// The `key=value` arguments a tool receives: one for each declared
/// argument that the invocation gives, in the order of declaration.
pub open spec fn ordered_args(decl: Seq<ToolArgumentV>, given: Seq<ToolArg>) -> Seq<Seq<char>>
    decreases decl.len(),
{
    if decl.len() == 0 {
        Seq::empty()
    } else {
        let prev = ordered_args(decl.drop_last(), given);
        match first_key(given, decl.last().name) {
            Some(k) => prev.push(decl.last().name + "="@ + value_text(given[k].value)),
            None => prev,
        }
    }
}

proof fn lemma_first_key(given: Seq<ToolArg>, name: Seq<char>, k: int)
    requires
        is_first_key(given, name, k),
    ensures
        first_key(given, name) == Some(k),
{
    let c = choose|k: int| is_first_key(given, name, k);
    assert(is_first_key(given, name, c));
    if c < k {
        assert(given[c].key@ != name);
    }
    if k < c {
        assert(given[k].key@ != name);
    }
}

/// The position of the first argument of `given` named `name`.
fn find_key(given: &Vec<ToolArg>, name: &String) -> (r: Option<usize>)
    ensures
        match r {
            Some(k) => is_first_key(given@, name@, k as int),
            None => first_key(given@, name@) is None,
        },
{
    let mut j: usize = 0;
    while j < given.len()
        invariant
            j <= given.len(),
            forall|i: int| 0 <= i < j ==> (#[trigger] given@[i]).key@ != name@,
        decreases given.len() - j,
    {
        if given[j].key.eq(name) {
            return Some(j);
        }
        j += 1;
    }
    proof {
        if exists|k: int| is_first_key(given@, name@, k) {
            let k = choose|k: int| is_first_key(given@, name@, k);
            assert(given@[k].key@ == name@);
        }
    }
    None
}

/// The `key=value` arguments that `kind` receives from an invocation's
/// arguments, in the order the tool declares them.
pub fn call_args(kind: ToolKind, given: &Vec<ToolArg>) -> (r: Vec<String>)
    ensures
        views(r@) == ordered_args(tool_args(kind), given@),
{
    let decl = kind.required_args();
    let ghost dv = argument_views(decl@);
    let mut out: Vec<String> = Vec::new();
    let mut i: usize = 0;
    while i < decl.len()
        invariant
            i <= decl.len(),
            dv == argument_views(decl@),
            dv == tool_args(kind),
            views(out@) == ordered_args(dv.take(i as int), given@),
        decreases decl.len() - i,
    {
        let ghost t = dv.take(i as int + 1);
        proof {
            assert(t.drop_last() =~= dv.take(i as int));
            assert(t.last() == decl@[i as int]@);
        }
        let d = &decl[i];
        match find_key(given, &d.name) {
            Some(k) => {
                proof {
                    lemma_first_key(given@, d.name@, k as int);
                }
                let mut s = d.name.clone();
                push_str(&mut s, "=");
                match &given[k].value {
                    ArgValue::Text(v) => push_str(&mut s, v.as_str()),
                    ArgValue::Json(v) => push_str(&mut s, v.as_str()),
                }
                let ghost before = views(out@);
                out.push(s);
                assert(views(out@) =~= before.push(s@));
            },
            None => {},
        }
        i += 1;
    }
    assert(dv.take(decl.len() as int) =~= dv);
    out
}

} // verus!

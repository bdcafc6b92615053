//! Parsing and vetting of the command line that `execute_command` runs.

use vstd::prelude::*;

use crate::text::{chars_of, has_prefix, starts_with, string_of};

verus! {

/// The state of the tokenizer after a prefix of the command line.
pub struct TokState {
    pub parts: Seq<Seq<char>>,
    pub cur: Seq<char>,
    pub in_quotes: bool,
    pub quote: char,
}

/// Whether `c` separates tokens outside quotes.
pub open spec fn is_blank(c: char) -> bool {
    c == ' ' || c == '\t'
}

/// One step of the tokenizer. A quote opens a quoted part, the same quote
/// closes it, and blanks inside quotes are kept; blanks outside quotes end
/// the current token.
pub open spec fn tok_step(s: TokState, c: char) -> TokState {
    if c == '"' || c == '\'' {
        if !s.in_quotes {
            TokState { in_quotes: true, quote: c, ..s }
        } else if c == s.quote {
            TokState { in_quotes: false, ..s }
        } else {
            TokState { cur: s.cur.push(c), ..s }
        }
    } else if is_blank(c) {
        if s.in_quotes {
            TokState { cur: s.cur.push(c), ..s }
        } else if s.cur.len() > 0 {
            TokState { parts: s.parts.push(s.cur), cur: Seq::empty(), ..s }
        } else {
            s
        }
    } else {
        TokState { cur: s.cur.push(c), ..s }
    }
}

/// The tokenizer's state after reading `cmd`.
pub open spec fn tok_run(cmd: Seq<char>) -> TokState
    decreases cmd.len(),
{
    if cmd.len() == 0 {
        TokState { parts: Seq::empty(), cur: Seq::empty(), in_quotes: false, quote: ' ' }
    } else {
        tok_step(tok_run(cmd.drop_last()), cmd.last())
    }
}

/// The tokens of a command line.
pub open spec fn tokens(cmd: Seq<char>) -> Seq<Seq<char>> {
    let s = tok_run(cmd);
    if s.cur.len() > 0 {
        s.parts.push(s.cur)
    } else {
        s.parts
    }
}

/// `s` without the leading copies of `c`.
pub open spec fn strip_leading(s: Seq<char>, c: char) -> Seq<char>
    decreases s.len(),
{
    if s.len() > 0 && s[0] == c {
        strip_leading(s.drop_first(), c)
    } else {
        s
    }
}

/// `s` without the trailing copies of `c`.
pub open spec fn strip_trailing(s: Seq<char>, c: char) -> Seq<char>
    decreases s.len(),
{
    if s.len() > 0 && s.last() == c {
        strip_trailing(s.drop_last(), c)
    } else {
        s
    }
}

/// `s` without the prefix `p`, when it has it.
pub open spec fn strip_key(s: Seq<char>, p: Seq<char>) -> Seq<char> {
    if has_prefix(s, p) {
        s.subrange(p.len() as int, s.len() as int)
    } else {
        s
    }
}

/// `s` without surrounding double quotes, then without surrounding single
/// quotes.
pub open spec fn unquote(s: Seq<char>) -> Seq<char> {
    strip_trailing(strip_leading(strip_trailing(strip_leading(s, '"'), '"'), '\''), '\'')
}

/// The command line that an `execute_command` argument carries.
pub open spec fn command_text(arg: Seq<char>) -> Seq<char> {
    unquote(strip_key(arg, "command="@))
}

/// Whether position `i` of `t` starts a shell metacharacter: `;`, a pipe,
/// a redirection, a backquote, `&&`, or `$(` / `${`.
pub open spec fn meta_at(t: Seq<char>, i: int) -> bool {
    ||| t[i] == ';'
    ||| t[i] == '|'
    ||| t[i] == '>'
    ||| t[i] == '<'
    ||| t[i] == '`'
    ||| (i + 1 < t.len() && t[i] == '&' && t[i + 1] == '&')
    ||| (i + 1 < t.len() && t[i] == '$' && (t[i + 1] == '(' || t[i + 1] == '{'))
}

/// Whether a token holds a shell metacharacter.
pub open spec fn is_unsafe(t: Seq<char>) -> bool {
    exists|i: int| 0 <= i < t.len() && meta_at(t, i)
}

/// The commands that may run.
pub open spec fn allowed_list() -> Seq<Seq<char>> {
    seq!["ls"@, "dir"@, "find"@, "grep"@, "cat"@, "head"@, "tail"@, "echo"@, "pwd"@]
}

/// Why a command line is refused.
#[derive(PartialEq, Eq, Debug)]
pub enum CommandError {
    /// The argument holds no token.
    Empty,
    /// This token holds a shell metacharacter.
    UnsafeArgument(String),
    /// The first token is not an allowed command.
    NotAllowed(String),
}

/// `k` is the first token of `ts` that holds a shell metacharacter.
pub open spec fn is_first_unsafe(ts: Seq<Seq<char>>, k: int) -> bool {
    &&& 0 <= k < ts.len()
    &&& is_unsafe(ts[k])
    &&& forall|j: int| 0 <= j < k ==> !is_unsafe(#[trigger] ts[j])
}

/// The first token of `ts` that holds a shell metacharacter, if any.
pub open spec fn first_unsafe(ts: Seq<Seq<char>>) -> Option<int> {
    if exists|k: int| is_first_unsafe(ts, k) {
        Some(choose|k: int| is_first_unsafe(ts, k))
    } else {
        None
    }
}

/// How `parse_command` answers the tokens `ts`.
pub open spec fn command_verdict(ts: Seq<Seq<char>>, r: Result<(String, Vec<String>), CommandError>) -> bool {
    if ts.len() == 0 {
        r == Err::<(String, Vec<String>), CommandError>(CommandError::Empty)
    } else if first_unsafe(ts) is Some {
        match r {
            Err(CommandError::UnsafeArgument(t)) => t@ == ts[first_unsafe(ts)->0],
            _ => false,
        }
    } else if !allowed_list().contains(ts[0]) {
        match r {
            Err(CommandError::NotAllowed(t)) => t@ == ts[0],
            _ => false,
        }
    } else {
        match r {
            Ok((program, args)) => program@ == ts[0] && args@.map_values(|s: String| s@)
                == ts.drop_first(),
            _ => false,
        }
    }
}

proof fn lemma_first_unsafe(ts: Seq<Seq<char>>, k: int)
    requires
        is_first_unsafe(ts, k),
    ensures
        first_unsafe(ts) == Some(k),
{
    let c = choose|k: int| is_first_unsafe(ts, k);
    assert(is_first_unsafe(ts, c));
    if c < k {
        assert(!is_unsafe(ts[c]));
    }
    if k < c {
        assert(!is_unsafe(ts[k]));
    }
}

proof fn lemma_strip_leading(s: Seq<char>, c: char, k: int)
    requires
        0 <= k <= s.len(),
        forall|j: int| 0 <= j < k ==> s[j] == c,
        k == s.len() || s[k] != c,
    ensures
        strip_leading(s, c) == s.subrange(k, s.len() as int),
    decreases k,
{
    if k > 0 {
        lemma_strip_leading(s.drop_first(), c, k - 1);
        assert(s.drop_first().subrange(k - 1, s.len() - 1) =~= s.subrange(k, s.len() as int));
    } else {
        assert(s.subrange(0, s.len() as int) =~= s);
    }
}

proof fn lemma_strip_trailing(s: Seq<char>, c: char, k: int)
    requires
        0 <= k <= s.len(),
        forall|j: int| s.len() - k <= j < s.len() ==> s[j] == c,
        k == s.len() || s[s.len() - k - 1] != c,
    ensures
        strip_trailing(s, c) == s.subrange(0, s.len() - k),
    decreases k,
{
    if k > 0 {
        lemma_strip_trailing(s.drop_last(), c, k - 1);
        assert(s.drop_last().subrange(0, s.len() - k) =~= s.subrange(0, s.len() - k));
    } else {
        assert(s.subrange(0, s.len() as int) =~= s);
    }
}

/// The characters of `v` from `from` up to `to`.
pub fn slice_chars(v: &Vec<char>, from: usize, to: usize) -> (r: Vec<char>)
    requires
        from <= to <= v.len(),
    ensures
        r@ == v@.subrange(from as int, to as int),
{
    let mut r: Vec<char> = Vec::new();
    let mut i = from;
    while i < to
        invariant
            from <= i <= to <= v.len(),
            r@ == v@.subrange(from as int, i as int),
        decreases to - i,
    {
        r.push(v[i]);
        i += 1;
        assert(r@ =~= v@.subrange(from as int, i as int));
    }
    r
}

/// `s` without the leading copies of `c`.
pub fn trim_leading(s: &Vec<char>, c: char) -> (r: Vec<char>)
    ensures
        r@ == strip_leading(s@, c),
{
    let mut k: usize = 0;
    while k < s.len() && s[k] == c
        invariant
            k <= s.len(),
            forall|j: int| 0 <= j < k ==> s@[j] == c,
        decreases s.len() - k,
    {
        k += 1;
    }
    proof {
        lemma_strip_leading(s@, c, k as int);
    }
    slice_chars(s, k, s.len())
}

/// `s` without the trailing copies of `c`.
pub fn trim_trailing(s: &Vec<char>, c: char) -> (r: Vec<char>)
    ensures
        r@ == strip_trailing(s@, c),
{
    let mut k: usize = 0;
    while k < s.len() && s[s.len() - k - 1] == c
        invariant
            k <= s.len(),
            forall|j: int| s.len() - k <= j < s.len() ==> s@[j] == c,
        decreases s.len() - k,
    {
        k += 1;
    }
    proof {
        lemma_strip_trailing(s@, c, k as int);
    }
    slice_chars(s, 0, s.len() - k)
}

/// `s` without the prefix `p`, when it has it.
pub fn without_key(s: &Vec<char>, p: &str) -> (r: Vec<char>)
    ensures
        r@ == strip_key(s@, p@),
{
    let pv = chars_of(p);
    if starts_with(s, &pv) {
        slice_chars(s, pv.len(), s.len())
    } else {
        slice_chars(s, 0, s.len())
    }
}

/// The command line that an `execute_command` argument carries.
pub fn command_line(arg: &str) -> (r: Vec<char>)
    ensures
        r@ == command_text(arg@),
{
    let v = chars_of(arg);
    let v = without_key(&v, "command=");
    let v = trim_leading(&v, '"');
    let v = trim_trailing(&v, '"');
    let v = trim_leading(&v, '\'');
    trim_trailing(&v, '\'')
}

/// Whether a token holds a shell metacharacter.
pub fn has_metachar(t: &String) -> (r: bool)
    ensures
        r == is_unsafe(t@),
{
    let v = chars_of(t.as_str());
    let mut i: usize = 0;
    while i < v.len()
        invariant
            i <= v.len(),
            v@ == t@,
            forall|j: int| 0 <= j < i ==> !meta_at(v@, j),
        decreases v.len() - i,
    {
        let c = v[i];
        let two = i + 1 < v.len() && ((c == '&' && v[i + 1] == '&') || (c == '$' && (v[i + 1]
            == '(' || v[i + 1] == '{')));
        if c == ';' || c == '|' || c == '>' || c == '<' || c == '`' || two {
            assert(meta_at(v@, i as int));
            return true;
        }
        i += 1;
    }
    false
}

/// Whether `t` is an allowed command.
pub fn is_allowed(t: &String) -> (r: bool)
    ensures
        r == allowed_list().contains(t@),
{
    let allowed = allowed_commands();
    let ghost av = allowed@.map_values(|s: String| s@);
    let mut i: usize = 0;
    while i < allowed.len()
        invariant
            i <= allowed.len(),
            av == allowed@.map_values(|s: String| s@),
            av == allowed_list(),
            forall|j: int| 0 <= j < i ==> av[j] != t@,
        decreases allowed.len() - i,
    {
        if allowed[i].eq(t) {
            assert(av[i as int] == t@);
            return true;
        }
        i += 1;
    }
    false
}

/// Splits the argument of `execute_command` into a program and its
/// arguments, and vets them: no token may hold a shell metacharacter, and
/// the program must be an allowed command.
pub fn parse_command(arg: &str) -> (r: Result<(String, Vec<String>), CommandError>)
    ensures
        command_verdict(tokens(command_text(arg@)), r),
{
    let line = command_line(arg);
    let parts = tokenize(&line);
    let ghost ts = tokens(command_text(arg@));
    assert(parts@.map_values(|s: String| s@) == ts);
    if parts.len() == 0 {
        return Err(CommandError::Empty);
    }
    let mut i: usize = 0;
    while i < parts.len()
        invariant
            i <= parts.len(),
            ts == parts@.map_values(|s: String| s@),
            ts == tokens(command_text(arg@)),
            forall|j: int| 0 <= j < i ==> !is_unsafe(#[trigger] ts[j]),
        decreases parts.len() - i,
    {
        if has_metachar(&parts[i]) {
            proof {
                lemma_first_unsafe(ts, i as int);
            }
            let t = parts[i].clone();
            assert(t@ == ts[i as int]);
            return Err(CommandError::UnsafeArgument(t));
        }
        i += 1;
    }
    proof {
        if exists|k: int| is_first_unsafe(ts, k) {
            let k = choose|k: int| is_first_unsafe(ts, k);
            assert(!is_unsafe(ts[k]));
        }
    }
    if !is_allowed(&parts[0]) {
        return Err(CommandError::NotAllowed(parts[0].clone()));
    }
    let mut parts = parts;
    let program = parts.remove(0);
    assert(parts@.map_values(|s: String| s@) =~= ts.drop_first());
    Ok((program, parts))
}

/// The allowed commands, in the order they are listed to the model.
pub fn allowed_commands() -> (r: Vec<String>)
    ensures
        r@.map_values(|s: String| s@) == allowed_list(),
{
    let mut v: Vec<String> = Vec::new();
    v.push("ls".to_owned());
    v.push("dir".to_owned());
    v.push("find".to_owned());
    v.push("grep".to_owned());
    v.push("cat".to_owned());
    v.push("head".to_owned());
    v.push("tail".to_owned());
    v.push("echo".to_owned());
    v.push("pwd".to_owned());
    assert(v@.map_values(|s: String| s@) =~= allowed_list());
    v
}

/// The tokens of `cmd`, quotes removed.
pub fn tokenize(cmd: &Vec<char>) -> (r: Vec<String>)
    ensures
        r@.map_values(|s: String| s@) == tokens(cmd@),
{
    let mut parts: Vec<String> = Vec::new();
    let mut cur: Vec<char> = Vec::new();
    let mut in_quotes = false;
    let mut quote: char = ' ';
    let mut i: usize = 0;
    assert(cmd@.take(0) =~= Seq::<char>::empty());
    assert(parts@.map_values(|s: String| s@) =~= Seq::<Seq<char>>::empty());
    assert(cur@ =~= Seq::<char>::empty());
    while i < cmd.len()
        invariant
            i <= cmd.len(),
            tok_run(cmd@.take(i as int)) == (TokState {
                parts: parts@.map_values(|s: String| s@),
                cur: cur@,
                in_quotes,
                quote,
            }),
        decreases cmd.len() - i,
    {
        proof {
            assert(cmd@.take(i as int + 1).drop_last() =~= cmd@.take(i as int));
            assert(cmd@.take(i as int + 1).last() == cmd@[i as int]);
        }
        let c = cmd[i];
        if c == '"' || c == '\'' {
            if !in_quotes {
                in_quotes = true;
                quote = c;
            } else if c == quote {
                in_quotes = false;
            } else {
                cur.push(c);
            }
        } else if c == ' ' || c == '\t' {
            if in_quotes {
                cur.push(c);
            } else if cur.len() > 0 {
                let ghost old_parts = parts@.map_values(|s: String| s@);
                let ghost old_cur = cur@;
                parts.push(string_of(&cur));
                cur = Vec::new();
                assert(parts@.map_values(|s: String| s@) =~= old_parts.push(old_cur));
                assert(cur@ =~= Seq::<char>::empty());
            }
        } else {
            cur.push(c);
        }
        i += 1;
    }
    assert(cmd@.take(cmd.len() as int) =~= cmd@);
    if cur.len() > 0 {
        let ghost old_parts = parts@.map_values(|s: String| s@);
        parts.push(string_of(&cur));
        assert(parts@.map_values(|s: String| s@) =~= old_parts.push(cur@));
    }
    parts
}

} // verus!

//! The conversation log: role-tagged turns, tool invocations and their results.

use vstd::prelude::*;

use crate::json::{json_quote, quote};
use crate::text::{count_words, push_str, word_count};

verus! {

/// Who produced a turn.
#[derive(PartialEq, Eq, Structural, Clone, Copy, Debug)]
pub enum MessageRole {
    System,
    User,
    Assistant,
    Tool,
}

/// The value of one tool argument: a JSON string, held by its text, or any
/// other JSON value, held by its JSON text.
pub enum ArgValue {
    Text(String),
    Json(String),
}

impl Clone for ArgValue {
    fn clone(&self) -> (r: Self)
        ensures
            r == *self,
    {
        match self {
            ArgValue::Text(s) => ArgValue::Text(s.clone()),
            ArgValue::Json(s) => ArgValue::Json(s.clone()),
        }
    }
}

/// One named argument of a tool invocation.
pub struct ToolArg {
    pub key: String,
    pub value: ArgValue,
}

impl Clone for ToolArg {
    fn clone(&self) -> (r: Self)
        ensures
            r == *self,
    {
        ToolArg { key: self.key.clone(), value: self.value.clone() }
    }
}


/// A request from the model to run a tool. `call_id` is the provider's
/// identifier, kept exactly as it arrived.
pub struct ToolInvocation {
    pub call_id: String,
    pub tool_name: String,
    pub arguments: Vec<ToolArg>,
}

/// The model of a [`ToolInvocation`].
pub struct InvocationV {
    pub call_id: Seq<char>,
    pub tool_name: Seq<char>,
    pub arguments: Seq<ToolArg>,
}

impl View for ToolInvocation {
    type V = InvocationV;

    open spec fn view(&self) -> InvocationV {
        InvocationV {
            call_id: self.call_id@,
            tool_name: self.tool_name@,
            arguments: self.arguments@,
        }
    }
}

/// The models of a sequence of invocations.
pub open spec fn invocation_views(v: Seq<ToolInvocation>) -> Seq<InvocationV> {
    v.map_values(|t: ToolInvocation| t@)
}

impl Clone for ToolInvocation {
    fn clone(&self) -> (r: Self)
        ensures
            r@ == self@,
    {
        let r = ToolInvocation {
            call_id: self.call_id.clone(),
            tool_name: self.tool_name.clone(),
            arguments: self.arguments.clone(),
        };
        assert forall|i: int| 0 <= i < r.arguments@.len() implies r.arguments@[i]
            == self.arguments@[i] by {
            assert(cloned::<ToolArg>(self.arguments@[i], r.arguments@[i]));
        }
        assert(r.arguments@ =~= self.arguments@);
        r
    }
}

/// The outcome of running a tool. `tool_call_id` is copied from the
/// invocation; `listing` holds the entry names of a directory listing, which
/// the wire format wants as an array rather than as text.
pub struct ToolResult {
    pub tool_name: String,
    pub result: String,
    pub tool_call_id: Option<String>,
    pub listing: Option<Vec<String>>,
}

/// A tool result as it stands in the log, matched to its invocation.
/// `content` is the JSON text that the wire format carries.
pub struct ResultBlock {
    pub call_id: String,
    pub tool_name: String,
    pub content: String,
}

/// The model of a [`ResultBlock`].
pub struct ResultBlockV {
    pub call_id: Seq<char>,
    pub tool_name: Seq<char>,
    pub content: Seq<char>,
}

impl View for ResultBlock {
    type V = ResultBlockV;

    open spec fn view(&self) -> ResultBlockV {
        ResultBlockV { call_id: self.call_id@, tool_name: self.tool_name@, content: self.content@ }
    }
}

impl Clone for ResultBlock {
    fn clone(&self) -> (r: Self)
        ensures
            r == *self,
    {
        ResultBlock {
            call_id: self.call_id.clone(),
            tool_name: self.tool_name.clone(),
            content: self.content.clone(),
        }
    }
}

/// One turn of the conversation. An assistant turn may carry the tool
/// invocations it asked for; a tool turn carries the results that answer the
/// assistant turn before it.
pub struct Message {
    pub role: MessageRole,
    pub content: String,
    pub tool_name: Option<String>,
    pub tool_uses: Vec<ToolInvocation>,
    pub results: Vec<ResultBlock>,
}

/// The model of a [`Message`].
pub struct MessageV {
    pub role: MessageRole,
    pub content: Seq<char>,
    pub tool_name: Option<Seq<char>>,
    pub tool_uses: Seq<InvocationV>,
    pub results: Seq<ResultBlockV>,
}

impl View for Message {
    type V = MessageV;

    open spec fn view(&self) -> MessageV {
        MessageV {
            role: self.role,
            content: self.content@,
            tool_name: match self.tool_name {
                Some(n) => Some(n@),
                None => None,
            },
            tool_uses: invocation_views(self.tool_uses@),
            results: block_views(self.results@),
        }
    }
}

/// The models of a sequence of turns.
pub open spec fn message_views(v: Seq<Message>) -> Seq<MessageV> {
    v.map_values(|m: Message| m@)
}

impl Clone for Message {
    fn clone(&self) -> (r: Self)
        ensures
            r@ == self@,
    {
        let tool_name = match &self.tool_name {
            Some(n) => Some(n.clone()),
            None => None,
        };
        let r = Message {
            role: self.role,
            content: self.content.clone(),
            tool_name,
            tool_uses: self.tool_uses.clone(),
            results: self.results.clone(),
        };
        assert forall|i: int| 0 <= i < r.tool_uses@.len() implies r.tool_uses@[i]@
            == self.tool_uses@[i]@ by {
            assert(cloned::<ToolInvocation>(self.tool_uses@[i], r.tool_uses@[i]));
        }
        assert forall|i: int| 0 <= i < r.results@.len() implies r.results@[i]@
            == self.results@[i]@ by {
            assert(cloned::<ResultBlock>(self.results@[i], r.results@[i]));
        }
        assert(invocation_views(r.tool_uses@) =~= invocation_views(self.tool_uses@));
        assert(block_views(r.results@) =~= block_views(self.results@));
        r
    }
}

/// The models of a sequence of result blocks.
pub open spec fn block_views(bs: Seq<ResultBlock>) -> Seq<ResultBlockV> {
    bs.map_values(|b: ResultBlock| b@)
}

/// `m` is a plain turn of `role` with text `content`.
pub open spec fn is_text_turn(m: MessageV, role: MessageRole, content: Seq<char>) -> bool {
    m == MessageV {
        role,
        content,
        tool_name: None,
        tool_uses: Seq::empty(),
        results: Seq::empty(),
    }
}

/// `a + b`, held at `usize::MAX`.
pub open spec fn sat_add(a: int, b: int) -> int {
    if a + b > usize::MAX {
        usize::MAX as int
    } else {
        a + b
    }
}

/// The size estimate of a log: the words of all its turns.
pub open spec fn log_words(log: Seq<MessageV>) -> int
    decreases log.len(),
{
    if log.len() == 0 {
        0
    } else {
        log_words(log.drop_last()) + word_count(log.last().content)
    }
}

/// How an argument value stands in JSON.
pub open spec fn value_json(v: ArgValue) -> Seq<char> {
    match v {
        ArgValue::Text(s) => json_quote(s@),
        ArgValue::Json(t) => t@,
    }
}

/// One `"key":value` member.
pub open spec fn arg_json(a: ToolArg) -> Seq<char> {
    json_quote(a.key@) + ":"@ + value_json(a.value)
}

/// The members of an argument object, comma-separated.
pub open spec fn args_body(args: Seq<ToolArg>) -> Seq<char>
    decreases args.len(),
{
    if args.len() == 0 {
        Seq::empty()
    } else if args.len() == 1 {
        arg_json(args[0])
    } else {
        args_body(args.drop_last()) + ","@ + arg_json(args.last())
    }
}

/// The arguments of an invocation as a JSON object.
pub open spec fn args_json(args: Seq<ToolArg>) -> Seq<char> {
    "{"@ + args_body(args) + "}"@
}

/// Whether `r` carries the identifier `id`.
pub open spec fn answers(r: ToolResult, id: Seq<char>) -> bool {
    match r.tool_call_id {
        Some(x) => x@ == id,
        None => false,
    }
}

/// `k` is the first position of `rs` that carries `id`.
pub open spec fn is_first_answer(rs: Seq<ToolResult>, id: Seq<char>, k: int) -> bool {
    &&& 0 <= k < rs.len()
    &&& answers(rs[k], id)
    &&& forall|j: int| 0 <= j < k ==> !answers(#[trigger] rs[j], id)
}

/// The first position of `rs` that carries `id`, if any.
pub open spec fn first_answer(rs: Seq<ToolResult>, id: Seq<char>) -> Option<int> {
    if exists|k: int| is_first_answer(rs, id, k) {
        Some(choose|k: int| is_first_answer(rs, id, k))
    } else {
        None
    }
}

/// One entry of a directory listing as a wire content block.
pub open spec fn listing_item(name: Seq<char>) -> Seq<char> {
    "{\"text\":"@ + json_quote(name) + ",\"type\":\"text\"}"@
}

/// The entries of a listing, comma-separated.
pub open spec fn listing_items(names: Seq<Seq<char>>) -> Seq<char>
    decreases names.len(),
{
    if names.len() == 0 {
        Seq::empty()
    } else if names.len() == 1 {
        listing_item(names[0])
    } else {
        listing_items(names.drop_last()) + ","@ + listing_item(names.last())
    }
}

/// The models of a sequence of strings.
pub open spec fn string_views(v: Seq<String>) -> Seq<Seq<char>> {
    v.map_values(|s: String| s@)
}

/// The JSON text that carries a result on the wire: a listing as an array of
/// text blocks, anything else as a string.
pub open spec fn result_content(r: ToolResult) -> Seq<char> {
    match r.listing {
        Some(names) => "["@ + listing_items(string_views(names@)) + "]"@,
        None => json_quote(r.result@),
    }
}

/// The invocations of the last turn, when it is an assistant turn: the ones
/// still waiting for results.
pub open spec fn pending(log: Seq<MessageV>) -> Seq<InvocationV> {
    if log.len() > 0 && log.last().role == MessageRole::Assistant {
        log.last().tool_uses
    } else {
        Seq::empty()
    }
}

/// For each invocation in order, the block of the first result that carries
/// its identifier; invocations that no result answers are left out.
pub open spec fn matched(uses: Seq<InvocationV>, rs: Seq<ToolResult>) -> Seq<ResultBlockV>
    decreases uses.len(),
{
    if uses.len() == 0 {
        Seq::empty()
    } else {
        let prev = matched(uses.drop_last(), rs);
        let id = uses.last().call_id;
        match first_answer(rs, id) {
            Some(k) => prev.push(
                ResultBlockV { call_id: id, tool_name: rs[k].tool_name@, content: result_content(rs[k]) },
            ),
            None => prev,
        }
    }
}

/// The words of the results that `matched` keeps.
pub open spec fn matched_words(uses: Seq<InvocationV>, rs: Seq<ToolResult>) -> int
    decreases uses.len(),
{
    if uses.len() == 0 {
        0
    } else {
        let prev = matched_words(uses.drop_last(), rs);
        match first_answer(rs, uses.last().call_id) {
            Some(k) => prev + word_count(rs[k].result@),
            None => prev,
        }
    }
}

/// One result block as a line of text.
pub open spec fn result_line(b: ResultBlockV) -> Seq<char> {
    "{\"type\": \"tool_result\", \"tool_use_id\": "@ + json_quote(b.call_id) + ", \"content\": "@
        + b.content + "}"@
}

/// Result blocks as lines of text.
pub open spec fn result_lines(bs: Seq<ResultBlockV>) -> Seq<char>
    decreases bs.len(),
{
    if bs.len() == 0 {
        Seq::empty()
    } else if bs.len() == 1 {
        result_line(bs[0])
    } else {
        result_lines(bs.drop_last()) + "\n"@ + result_line(bs.last())
    }
}

/// The tool turn that carries `bs`.
pub open spec fn result_turn(bs: Seq<ResultBlockV>) -> MessageV {
    MessageV {
        role: MessageRole::Tool,
        content: result_lines(bs),
        tool_name: Some(bs[0].tool_name),
        tool_uses: Seq::empty(),
        results: bs,
    }
}

/// One invocation as a tagged line, for the textual form of the log.
pub open spec fn use_text(u: InvocationV) -> Seq<char> {
    "\n<tool name=\""@ + u.tool_name + "\" id=\""@ + u.call_id + "\">\n"@ + args_json(u.arguments)
        + "\n</tool>"@
}

/// The tagged lines of a turn's invocations.
pub open spec fn uses_text(us: Seq<InvocationV>) -> Seq<char>
    decreases us.len(),
{
    if us.len() == 0 {
        Seq::empty()
    } else {
        uses_text(us.drop_last()) + use_text(us.last())
    }
}

/// One turn in the textual form of the log.
pub open spec fn turn_text(m: MessageV) -> Seq<char> {
    match m.role {
        MessageRole::System => "<system>\n"@ + m.content + "\n</system>\n\n"@,
        MessageRole::User => "<user>\n"@ + m.content + "\n</user>\n\n"@,
        MessageRole::Assistant => "<assistant>\n"@ + m.content + uses_text(m.tool_uses)
            + "\n</assistant>\n\n"@,
        MessageRole::Tool => m.content + "\n\n"@,
    }
}

/// The textual form of a log.
pub open spec fn context_text(log: Seq<MessageV>) -> Seq<char>
    decreases log.len(),
{
    if log.len() == 0 {
        Seq::empty()
    } else {
        context_text(log.drop_last()) + turn_text(log.last())
    }
}

/// How the system and non-system turns of a prefix grow by one turn.
pub proof fn lemma_filter_step(log: Seq<MessageV>, i: int)
    requires
        0 <= i < log.len(),
    ensures
        system_turns(log.take(i + 1)) == if log[i].role == MessageRole::System {
            system_turns(log.take(i)).push(log[i])
        } else {
            system_turns(log.take(i))
        },
        other_turns(log.take(i + 1)) == if log[i].role != MessageRole::System {
            other_turns(log.take(i)).push(log[i])
        } else {
            other_turns(log.take(i))
        },
{
    reveal(Seq::filter);
    assert(log.take(i + 1).drop_last() =~= log.take(i));
    assert(log.take(i + 1).last() == log[i]);
}

proof fn lemma_first_answer(rs: Seq<ToolResult>, id: Seq<char>, k: int)
    requires
        is_first_answer(rs, id, k),
    ensures
        first_answer(rs, id) == Some(k),
{
    let c = choose|k: int| is_first_answer(rs, id, k);
    assert(is_first_answer(rs, id, c));
    if c < k {
        assert(!answers(rs[c], id));
    }
    if k < c {
        assert(!answers(rs[k], id));
    }
}

/// Appends the JSON object of `args` to `out`.
pub fn write_args_json(out: &mut String, args: &Vec<ToolArg>)
    ensures
        final(out)@ == old(out)@ + args_json(args@),
{
    push_str(out, "{");
    let mut i: usize = 0;
    while i < args.len()
        invariant
            i <= args.len(),
            out@ == old(out)@ + "{"@ + args_body(args@.take(i as int)),
        decreases args.len() - i,
    {
        let ghost before = out@;
        if i > 0 {
            push_str(out, ",");
        }
        let a = &args[i];
        let k = quote(a.key.as_str());
        push_str(out, k.as_str());
        push_str(out, ":");
        match &a.value {
            ArgValue::Text(t) => {
                let q = quote(t.as_str());
                push_str(out, q.as_str());
            },
            ArgValue::Json(t) => {
                push_str(out, t.as_str());
            },
        }
        proof {
            let t = args@.take(i as int + 1);
            assert(t.drop_last() =~= args@.take(i as int));
            assert(t.last() == args@[i as int]);
            if i == 0 {
                assert(args@.take(0) =~= Seq::<ToolArg>::empty());
                assert(out@ =~= old(out)@ + "{"@ + args_body(t));
            } else {
                assert(out@ =~= old(out)@ + "{"@ + args_body(t));
            }
        }
        i += 1;
    }
    assert(args@.take(args.len() as int) =~= args@);
    push_str(out, "}");
    assert(out@ =~= old(out)@ + args_json(args@));
}

/// Appends the tagged lines of `uses` to `out`.
fn write_uses_text(out: &mut String, uses: &Vec<ToolInvocation>)
    ensures
        final(out)@ == old(out)@ + uses_text(invocation_views(uses@)),
{
    let ghost us = invocation_views(uses@);
    let mut j: usize = 0;
    while j < uses.len()
        invariant
            j <= uses.len(),
            us == invocation_views(uses@),
            out@ == old(out)@ + uses_text(us.take(j as int)),
        decreases uses.len() - j,
    {
        let u = &uses[j];
        push_str(out, "\n<tool name=\"");
        push_str(out, u.tool_name.as_str());
        push_str(out, "\" id=\"");
        push_str(out, u.call_id.as_str());
        push_str(out, "\">\n");
        write_args_json(out, &u.arguments);
        push_str(out, "\n</tool>");
        proof {
            let t = us.take(j as int + 1);
            assert(t.drop_last() =~= us.take(j as int));
            assert(t.last() == u@);
            assert(out@ =~= old(out)@ + uses_text(t));
        }
        j += 1;
    }
    assert(us.take(uses.len() as int) =~= us);
}

/// The position of the first result that carries `id`.
fn find_answer(rs: &[ToolResult], id: &String) -> (r: Option<usize>)
    ensures
        match r {
            Some(k) => is_first_answer(rs@, id@, k as int),
            None => first_answer(rs@, id@) is None,
        },
{
    let mut j: usize = 0;
    while j < rs.len()
        invariant
            j <= rs.len(),
            forall|i: int| 0 <= i < j ==> !answers(#[trigger] rs@[i], id@),
        decreases rs.len() - j,
    {
        let r = &rs[j];
        match &r.tool_call_id {
            Some(x) => {
                let same = x.eq(id);
                if same {
                    assert(answers(rs@[j as int], id@));
                    return Some(j);
                }
                assert(!answers(rs@[j as int], id@));
            },
            None => {},
        }
        j += 1;
    }
    proof {
        if exists|k: int| is_first_answer(rs@, id@, k) {
            let k = choose|k: int| is_first_answer(rs@, id@, k);
            assert(answers(rs@[k], id@));
        }
    }
    None
}

/// The JSON text that carries `r` on the wire.
pub fn shape_content(r: &ToolResult) -> (c: String)
    ensures
        c@ == result_content(*r),
{
    match &r.listing {
        Some(names) => {
            let mut out = String::new();
            push_str(&mut out, "[");
            let mut i: usize = 0;
            while i < names.len()
                invariant
                    i <= names.len(),
                    out@ == "["@ + listing_items(string_views(names@.take(i as int))),
                decreases names.len() - i,
            {
                if i > 0 {
                    push_str(&mut out, ",");
                }
                push_str(&mut out, "{\"text\":");
                let q = quote(names[i].as_str());
                push_str(&mut out, q.as_str());
                push_str(&mut out, ",\"type\":\"text\"}");
                proof {
                    let t = string_views(names@.take(i as int + 1));
                    assert(t.drop_last() =~= string_views(names@.take(i as int)));
                    assert(t.last() == names@[i as int]@);
                    if i == 0 {
                        assert(string_views(names@.take(0)) =~= Seq::<Seq<char>>::empty());
                    }
                    assert(out@ =~= "["@ + listing_items(t));
                }
                i += 1;
            }
            assert(names@.take(names.len() as int) =~= names@);
            push_str(&mut out, "]");
            out
        },
        None => quote(r.result.as_str()),
    }
}

/// Appends the text line of `b` to `out`.
fn write_result_line(out: &mut String, b: &ResultBlock)
    ensures
        final(out)@ == old(out)@ + result_line(b@),
{
    push_str(out, "{\"type\": \"tool_result\", \"tool_use_id\": ");
    let q = quote(b.call_id.as_str());
    push_str(out, q.as_str());
    push_str(out, ", \"content\": ");
    push_str(out, b.content.as_str());
    push_str(out, "}");
    assert(out@ =~= old(out)@ + result_line(b@));
}

/// How many of the latest non-system turns a compaction keeps.
pub const RECENT_TURNS: usize = 4;

/// The system turns of a log, in order.
pub open spec fn system_turns(log: Seq<MessageV>) -> Seq<MessageV> {
    log.filter(|m: MessageV| m.role == MessageRole::System)
}

/// The non-system turns of a log, in order.
pub open spec fn other_turns(log: Seq<MessageV>) -> Seq<MessageV> {
    log.filter(|m: MessageV| m.role != MessageRole::System)
}

/// The latest `RECENT_TURNS` non-system turns of a log, in order.
pub open spec fn recent_turns(log: Seq<MessageV>) -> Seq<MessageV> {
    let o = other_turns(log);
    if o.len() <= RECENT_TURNS {
        o
    } else {
        o.subrange(o.len() - RECENT_TURNS, o.len() as int)
    }
}

proof fn lemma_first_answer_exists(rs: Seq<ToolResult>, id: Seq<char>, m: int)
    requires
        0 <= m < rs.len(),
        answers(rs[m], id),
    ensures
        exists|k: int| is_first_answer(rs, id, k),
    decreases m,
{
    if exists|j: int| 0 <= j < m && answers(rs[j], id) {
        let j = choose|j: int| 0 <= j < m && answers(rs[j], id);
        lemma_first_answer_exists(rs, id, j);
    } else {
        assert(is_first_answer(rs, id, m));
    }
}

/// Identifier preservation: when the results carry, position by position,
/// the identifiers of the invocations, every invocation is answered, and
/// each result block carries exactly the identifier of its invocation.
pub proof fn lemma_identifiers_preserved(us: Seq<InvocationV>, rs: Seq<ToolResult>)
    requires
        rs.len() == us.len(),
        forall|i: int| 0 <= i < us.len() ==> answers(#[trigger] rs[i], us[i].call_id),
    ensures
        matched(us, rs).len() == us.len(),
        forall|i: int|
            0 <= i < us.len() ==> (#[trigger] matched(us, rs)[i]).call_id == us[i].call_id,
{
    lemma_identifiers_preserved_on(us, rs);
}

proof fn lemma_identifiers_preserved_on(us: Seq<InvocationV>, rs: Seq<ToolResult>)
    requires
        us.len() <= rs.len(),
        forall|i: int| 0 <= i < us.len() ==> answers(#[trigger] rs[i], us[i].call_id),
    ensures
        matched(us, rs).len() == us.len(),
        forall|i: int|
            0 <= i < us.len() ==> (#[trigger] matched(us, rs)[i]).call_id == us[i].call_id,
    decreases us.len(),
{
    if us.len() > 0 {
        let n = us.len() - 1;
        lemma_identifiers_preserved_on(us.drop_last(), rs);
        lemma_first_answer_exists(rs, us.last().call_id, n);
        let k = choose|k: int| is_first_answer(rs, us.last().call_id, k);
        lemma_first_answer(rs, us.last().call_id, k);
        let prev = matched(us.drop_last(), rs);
        assert forall|i: int| 0 <= i < us.len() implies (#[trigger] matched(us, rs)[i]).call_id
            == us[i].call_id by {
            if i < n {
                assert(matched(us, rs)[i] == prev[i]);
                assert(us.drop_last()[i] == us[i]);
            }
        }
    }
}

/// Round trip: appending a user turn and then an assistant turn to any log
/// adds, at the end of its textual form, the user's text between user tags
/// and then the assistant's text between assistant tags, the earlier text
/// unchanged. The textual form is a function of the log alone, so rendering
/// again without a change gives the same text.
pub proof fn lemma_render_appends(log: Seq<MessageV>, u: Seq<char>, a: Seq<char>)
    ensures
        context_text(log.push(text_turn(MessageRole::User, u)).push(
            text_turn(MessageRole::Assistant, a),
        )) == context_text(log) + "<user>\n"@ + u + "\n</user>\n\n"@ + "<assistant>\n"@ + a
            + "\n</assistant>\n\n"@,
{
    let l1 = log.push(text_turn(MessageRole::User, u));
    let l2 = l1.push(text_turn(MessageRole::Assistant, a));
    assert(l2.drop_last() =~= l1);
    assert(l1.drop_last() =~= log);
    assert(uses_text(Seq::<InvocationV>::empty()) =~= Seq::<char>::empty());
    assert(context_text(l1) == context_text(log) + turn_text(text_turn(MessageRole::User, u)));
    assert(context_text(l2) == context_text(l1) + turn_text(text_turn(MessageRole::Assistant, a)));
    assert(turn_text(text_turn(MessageRole::Assistant, a)) =~= "<assistant>\n"@ + a
        + "\n</assistant>\n\n"@);
    assert(context_text(l2) =~= context_text(log) + "<user>\n"@ + u + "\n</user>\n\n"@
        + "<assistant>\n"@ + a + "\n</assistant>\n\n"@);
}

/// The text of the system turn that stands for the turns a compaction drops.
pub open spec fn summary_text(summary: Seq<char>) -> Seq<char> {
    "Summary of previous conversation:\n"@ + summary + "\n"@
}

/// A plain turn.
pub open spec fn text_turn(role: MessageRole, content: Seq<char>) -> MessageV {
    MessageV { role, content, tool_name: None, tool_uses: Seq::empty(), results: Seq::empty() }
}

/// The log after a compaction with `summary`: the system turns, then the
/// summary turn, then the latest non-system turns.
pub open spec fn compacted(log: Seq<MessageV>, summary: Seq<char>) -> Seq<MessageV> {
    system_turns(log) + seq![text_turn(MessageRole::System, summary_text(summary))] + recent_turns(
        log,
    )
}

/// The text of the system turn that `ContextManager::new` starts with.
pub const DEFAULT_SYSTEM_PROMPT: &'static str = "You are a helpful assistant with access to tools that can run on the user's computer. Respond to the user's queries directly when possible, and use tools when appropriate to complete tasks.";

/// The ordered log of turns and its size estimate in words.
pub struct ContextManager {
    messages: Vec<Message>,
    token_count: usize,
}

impl ContextManager {
    /// The turns, oldest first.
    pub closed spec fn log(&self) -> Seq<MessageV> {
        message_views(self.messages@)
    }

    /// The size estimate.
    pub closed spec fn size(&self) -> int {
        self.token_count as int
    }

    /// A log that holds one system turn with the default prompt.
    pub fn new() -> (r: Self)
        ensures
            r.log().len() == 1,
            is_text_turn(r.log()[0], MessageRole::System, DEFAULT_SYSTEM_PROMPT@),
            r.size() == word_count(DEFAULT_SYSTEM_PROMPT@),
    {
        let mut manager = ContextManager { messages: Vec::new(), token_count: 0 };
        manager.add_text_turn(MessageRole::System, DEFAULT_SYSTEM_PROMPT);
        manager
    }

    fn add_text_turn(&mut self, role: MessageRole, content: &str)
        ensures
            word_count(content@) <= usize::MAX,
            final(self).log().len() == old(self).log().len() + 1,
            final(self).log().drop_last() == old(self).log(),
            is_text_turn(final(self).log().last(), role, content@),
            final(self).size() == sat_add(old(self).size(), word_count(content@)),
    {
        self.messages.push(
            Message {
                role,
                content: content.to_owned(),
                tool_name: None,
                tool_uses: Vec::new(),
                results: Vec::new(),
            },
        );
        self.token_count = self.token_count.saturating_add(count_words(content));
        assert(message_views(self.messages@).drop_last() =~= message_views(old(self).messages@));
        assert(block_views(Seq::<ResultBlock>::empty()) =~= Seq::empty());
        assert(invocation_views(Seq::<ToolInvocation>::empty()) =~= Seq::empty());
    }

    /// Appends a system turn.
    pub fn add_system_message(&mut self, content: &str)
        ensures
            final(self).log().len() == old(self).log().len() + 1,
            final(self).log().drop_last() == old(self).log(),
            is_text_turn(final(self).log().last(), MessageRole::System, content@),
            final(self).size() == sat_add(old(self).size(), word_count(content@)),
    {
        self.add_text_turn(MessageRole::System, content);
    }

    /// Appends a user turn.
    pub fn add_user_message(&mut self, content: &str)
        ensures
            final(self).log().len() == old(self).log().len() + 1,
            final(self).log().drop_last() == old(self).log(),
            is_text_turn(final(self).log().last(), MessageRole::User, content@),
            final(self).size() == sat_add(old(self).size(), word_count(content@)),
    {
        self.add_text_turn(MessageRole::User, content);
    }

    /// Appends an assistant turn that asks for no tool.
    pub fn add_assistant_message(&mut self, content: &str)
        ensures
            final(self).log().len() == old(self).log().len() + 1,
            final(self).log().drop_last() == old(self).log(),
            is_text_turn(final(self).log().last(), MessageRole::Assistant, content@),
            final(self).size() == sat_add(old(self).size(), word_count(content@)),
    {
        self.add_text_turn(MessageRole::Assistant, content);
    }

    /// Appends an assistant turn with the tool invocations it asked for.
    pub fn add_assistant_turn(&mut self, content: &str, tool_uses: Vec<ToolInvocation>)
        ensures
            final(self).log().len() == old(self).log().len() + 1,
            final(self).log().drop_last() == old(self).log(),
            final(self).log().last() == (MessageV {
                role: MessageRole::Assistant,
                content: content@,
                tool_name: None,
                tool_uses: invocation_views(tool_uses@),
                results: Seq::empty(),
            }),
            final(self).size() == sat_add(old(self).size(), word_count(content@)),
    {
        self.messages.push(
            Message {
                role: MessageRole::Assistant,
                content: content.to_owned(),
                tool_name: None,
                tool_uses,
                results: Vec::new(),
            },
        );
        self.token_count = self.token_count.saturating_add(count_words(content));
        assert(message_views(self.messages@).drop_last() =~= message_views(old(self).messages@));
        assert(block_views(Seq::<ResultBlock>::empty()) =~= Seq::empty());
        assert(invocation_views(Seq::<ToolInvocation>::empty()) =~= Seq::empty());
    }

    /// Answers the invocations of the last turn. When that turn is an
    /// assistant turn, each of its invocations, in order, takes the first
    /// result that carries its identifier, and one tool turn with all of them
    /// is appended. Results without an identifier, or whose identifier no
    /// pending invocation has, are left out; no identifier is ever made up.
    pub fn add_tool_results(&mut self, tool_results: &[ToolResult])
        ensures
            ({
                let bs = matched(pending(old(self).log()), tool_results@);
                &&& bs.len() == 0 ==> final(self).log() == old(self).log()
                &&& bs.len() > 0 ==> final(self).log() == old(self).log().push(result_turn(bs))
            }),
            final(self).size() == sat_add(
                old(self).size(),
                matched_words(pending(old(self).log()), tool_results@),
            ),
    {
        let n = self.messages.len();
        if n == 0 || self.messages[n - 1].role != MessageRole::Assistant {
            return;
        }
        let ghost log = self.log();
        assert(log.last() == self.messages@[n - 1]@);
        let mut blocks: Vec<ResultBlock> = Vec::new();
        let mut content = String::new();
        let mut words: usize = 0;
        let uses = &self.messages[n - 1].tool_uses;
        let ghost us = invocation_views(uses@);
        assert(pending(log) == us);
        let mut i: usize = 0;
        while i < uses.len()
            invariant
                i <= uses.len(),
                us == invocation_views(uses@),
                block_views(blocks@) == matched(us.take(i as int), tool_results@),
                content@ == result_lines(block_views(blocks@)),
                words == sat_add(0, matched_words(us.take(i as int), tool_results@)),
                matched_words(us.take(i as int), tool_results@) >= 0,
            decreases uses.len() - i,
        {
            let ghost t = us.take(i as int + 1);
            proof {
                assert(t.drop_last() =~= us.take(i as int));
                assert(t.last() == uses@[i as int]@);
            }
            let u = &uses[i];
            match find_answer(tool_results, &u.call_id) {
                Some(k) => {
                    proof {
                        lemma_first_answer(tool_results@, u.call_id@, k as int);
                    }
                    let r = &tool_results[k];
                    let b = ResultBlock {
                        call_id: u.call_id.clone(),
                        tool_name: r.tool_name.clone(),
                        content: shape_content(r),
                    };
                    let ghost old_views = block_views(blocks@);
                    if blocks.len() > 0 {
                        push_str(&mut content, "\n");
                    }
                    write_result_line(&mut content, &b);
                    blocks.push(b);
                    proof {
                        assert(block_views(blocks@) =~= old_views.push(b@));
                        assert(block_views(blocks@).drop_last() =~= old_views);
                        if old_views.len() == 0 {
                            assert(content@ =~= result_lines(block_views(blocks@)));
                        } else {
                            assert(content@ =~= result_lines(block_views(blocks@)));
                        }
                    }
                    words = words.saturating_add(count_words(r.result.as_str()));
                },
                None => {},
            }
            i += 1;
        }
        assert(us.take(uses.len() as int) =~= us);
        if blocks.len() > 0 {
            let tool_name = Some(blocks[0].tool_name.clone());
            let ghost bs = block_views(blocks@);
            let m = Message {
                role: MessageRole::Tool,
                content,
                tool_name,
                tool_uses: Vec::new(),
                results: blocks,
            };
            self.messages.push(m);
            proof {
                assert(invocation_views(Seq::<ToolInvocation>::empty()) =~= Seq::empty());
                assert(m@ == result_turn(bs));
                assert(message_views(self.messages@) =~= log.push(result_turn(bs)));
            }
        }
        self.token_count = self.token_count.saturating_add(words);
    }

    /// The textual form of the log: each turn between role tags, tool turns
    /// as their result lines.
    pub fn get_context(&self) -> (r: String)
        ensures
            r@ == context_text(self.log()),
    {
        let mut out = String::new();
        let mut i: usize = 0;
        while i < self.messages.len()
            invariant
                i <= self.messages.len(),
                out@ == context_text(self.log().take(i as int)),
            decreases self.messages.len() - i,
        {
            let m = &self.messages[i];
            let ghost mv = m@;
            match m.role {
                MessageRole::System => {
                    push_str(&mut out, "<system>\n");
                    push_str(&mut out, m.content.as_str());
                    push_str(&mut out, "\n</system>\n\n");
                },
                MessageRole::User => {
                    push_str(&mut out, "<user>\n");
                    push_str(&mut out, m.content.as_str());
                    push_str(&mut out, "\n</user>\n\n");
                },
                MessageRole::Assistant => {
                    push_str(&mut out, "<assistant>\n");
                    push_str(&mut out, m.content.as_str());
                    write_uses_text(&mut out, &m.tool_uses);
                    push_str(&mut out, "\n</assistant>\n\n");
                },
                MessageRole::Tool => {
                    push_str(&mut out, m.content.as_str());
                    push_str(&mut out, "\n\n");
                },
            }
            proof {
                let t = self.log().take(i as int + 1);
                assert(t.drop_last() =~= self.log().take(i as int));
                assert(t.last() == mv);
                assert(out@ =~= context_text(t));
            }
            i += 1;
        }
        assert(self.log().take(self.messages.len() as int) =~= self.log());
        out
    }

    /// Replaces every turn but the system turns and the latest
    /// `RECENT_TURNS` non-system turns with one system turn that carries
    /// `summary`, and counts the size estimate again from the new log.
    pub fn replace_with_summary(&mut self, summary: &str)
        ensures
            final(self).log() == compacted(old(self).log(), summary@),
            final(self).size() == sat_add(0, log_words(final(self).log())),
    {
        let ghost log = self.log();
        let n = self.messages.len();
        let mut others: usize = 0;
        let mut i: usize = 0;
        while i < n
            invariant
                i <= n == self.messages.len(),
                log == self.log(),
                others == other_turns(log.take(i as int)).len(),
                others <= i,
            decreases n - i,
        {
            proof {
                lemma_filter_step(log, i as int);
                log.take(i as int).lemma_filter_len(|m: MessageV| m.role != MessageRole::System);
            }
            if self.messages[i].role != MessageRole::System {
                others += 1;
            }
            i += 1;
        }
        assert(log.take(n as int) =~= log);
        let start: usize = if others > RECENT_TURNS {
            others - RECENT_TURNS
        } else {
            0
        };
        let mut out: Vec<Message> = Vec::new();
        i = 0;
        while i < n
            invariant
                i <= n == self.messages.len(),
                log == self.log(),
                message_views(out@) == system_turns(log.take(i as int)),
            decreases n - i,
        {
            proof {
                lemma_filter_step(log, i as int);
            }
            if self.messages[i].role == MessageRole::System {
                let m = self.messages[i].clone();
                let ghost before = message_views(out@);
                out.push(m);
                assert(message_views(out@) =~= before.push(log[i as int]));
            } else {
                assert(message_views(out@) =~= system_turns(log.take(i as int + 1)));
            }
            i += 1;
        }
        let mut text = String::new();
        push_str(&mut text, "Summary of previous conversation:\n");
        push_str(&mut text, summary);
        push_str(&mut text, "\n");
        let ghost head = message_views(out@);
        out.push(
            Message {
                role: MessageRole::System,
                content: text,
                tool_name: None,
                tool_uses: Vec::new(),
                results: Vec::new(),
            },
        );
        proof {
            assert(invocation_views(Seq::<ToolInvocation>::empty()) =~= Seq::empty());
            assert(block_views(Seq::<ResultBlock>::empty()) =~= Seq::empty());
            assert(message_views(out@) =~= head.push(
                text_turn(MessageRole::System, summary_text(summary@)),
            ));
        }
        let ghost head2 = message_views(out@);
        let mut c: usize = 0;
        i = 0;
        while i < n
            invariant
                i <= n == self.messages.len(),
                log == self.log(),
                c == other_turns(log.take(i as int)).len(),
                others == other_turns(log).len(),
                start == (if others > RECENT_TURNS {
                    others - RECENT_TURNS
                } else {
                    0
                }),
                message_views(out@) == head2 + (if c <= start {
                    Seq::empty()
                } else {
                    other_turns(log.take(i as int)).subrange(start as int, c as int)
                }),
            decreases n - i,
        {
            proof {
                lemma_filter_step(log, i as int);
                other_turns(log.take(i as int)).lemma_filter_len(
                    |m: MessageV| m.role != MessageRole::System,
                );
                log.take(i as int).lemma_filter_len(|m: MessageV| m.role != MessageRole::System);
                log.lemma_filter_len(|m: MessageV| m.role != MessageRole::System);
            }
            if self.messages[i].role != MessageRole::System {
                let ghost before = message_views(out@);
                if c >= start {
                    let m = self.messages[i].clone();
                    out.push(m);
                    proof {
                        let o = other_turns(log.take(i as int + 1));
                        let p = other_turns(log.take(i as int));
                        assert(o =~= p.push(log[i as int]));
                        assert(message_views(out@) =~= before.push(log[i as int]));
                        if c == start {
                            assert(o.subrange(start as int, c as int + 1) =~= seq![log[i as int]]);
                        } else {
                            assert(o.subrange(start as int, c as int + 1) =~= p.subrange(
                                start as int,
                                c as int,
                            ).push(log[i as int]));
                        }
                        assert(message_views(out@) =~= head2 + o.subrange(
                            start as int,
                            c as int + 1,
                        ));
                    }
                } else {
                    proof {
                        let o = other_turns(log.take(i as int + 1));
                        assert(o =~= other_turns(log.take(i as int)).push(log[i as int]));
                    }
                }
                c += 1;
            } else {
                assert(other_turns(log.take(i as int + 1)) =~= other_turns(log.take(i as int)));
            }
            i += 1;
        }
        proof {
            assert(log.take(n as int) =~= log);
            let o = other_turns(log);
            if c <= start {
                assert(o.len() == 0);
                assert(o =~= Seq::<MessageV>::empty());
            } else {
                assert(o.subrange(start as int, c as int) =~= recent_turns(log)) by {
                    if o.len() <= RECENT_TURNS {
                        assert(o.subrange(0, o.len() as int) =~= o);
                    }
                }
            }
            assert(message_views(out@) =~= compacted(log, summary@));
        }
        self.messages = out;
        let mut total: usize = 0;
        let ghost fin = self.log();
        i = 0;
        while i < self.messages.len()
            invariant
                i <= self.messages.len(),
                fin == self.log(),
                total == sat_add(0, log_words(fin.take(i as int))),
                log_words(fin.take(i as int)) >= 0,
            decreases self.messages.len() - i,
        {
            proof {
                assert(fin.take(i as int + 1).drop_last() =~= fin.take(i as int));
                assert(fin.take(i as int + 1).last() == fin[i as int]);
            }
            total = total.saturating_add(count_words(self.messages[i].content.as_str()));
            i += 1;
        }
        assert(fin.take(self.messages.len() as int) =~= fin);
        self.token_count = total;
    }

    /// The turns, oldest first.
    pub fn messages(&self) -> (r: &Vec<Message>)
        ensures
            message_views(r@) == self.log(),
    {
        &self.messages
    }

    /// The size estimate, in words.
    pub fn context_length(&self) -> (r: usize)
        ensures
            r == self.size(),
    {
        self.token_count
    }
}

} // verus!

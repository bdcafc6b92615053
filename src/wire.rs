//! The provider-facing form of the log: role-tagged messages of content
//! blocks, in which every message with tool-use blocks is followed by the
//! message that answers them.

use vstd::prelude::*;

use crate::conversation::{
    answers, matched, result_turn, InvocationV, Message, MessageRole, MessageV, ResultBlockV,
    ToolArg, ToolResult, message_views,
};

verus! {

/// The role of a wire message.
#[derive(PartialEq, Eq, Structural, Clone, Copy, Debug)]
pub enum WireRole {
    User,
    Assistant,
}

/// One content block of a wire message.
pub enum ContentBlock {
    Text { text: String },
    ToolUse { id: String, name: String, input: Vec<ToolArg> },
    ToolResult { tool_use_id: String, content: String },
}

/// The model of a [`ContentBlock`].
pub enum BlockV {
    Text(Seq<char>),
    ToolUse(Seq<char>, Seq<char>, Seq<ToolArg>),
    ToolResult(Seq<char>, Seq<char>),
}

impl View for ContentBlock {
    type V = BlockV;

    open spec fn view(&self) -> BlockV {
        match self {
            ContentBlock::Text { text } => BlockV::Text(text@),
            ContentBlock::ToolUse { id, name, input } => BlockV::ToolUse(id@, name@, input@),
            ContentBlock::ToolResult { tool_use_id, content } => BlockV::ToolResult(
                tool_use_id@,
                content@,
            ),
        }
    }
}

/// One message of the window.
pub struct WireMessage {
    pub role: WireRole,
    pub content: Vec<ContentBlock>,
}

/// The model of a [`WireMessage`].
pub struct WireMessageV {
    pub role: WireRole,
    pub blocks: Seq<BlockV>,
}

/// The models of a sequence of blocks.
pub open spec fn block_views(v: Seq<ContentBlock>) -> Seq<BlockV> {
    v.map_values(|b: ContentBlock| b@)
}

impl View for WireMessage {
    type V = WireMessageV;

    open spec fn view(&self) -> WireMessageV {
        WireMessageV { role: self.role, blocks: block_views(self.content@) }
    }
}

/// The models of a sequence of wire messages.
pub open spec fn wire_views(v: Seq<WireMessage>) -> Seq<WireMessageV> {
    v.map_values(|m: WireMessage| m@)
}

/// `k` is the first invocation of `us` with identifier `id`.
pub open spec fn is_first_use(us: Seq<InvocationV>, id: Seq<char>, k: int) -> bool {
    &&& 0 <= k < us.len()
    &&& us[k].call_id == id
    &&& forall|j: int| 0 <= j < k ==> (#[trigger] us[j]).call_id != id
}

/// The first invocation of `us` with identifier `id`, if any.
pub open spec fn first_use(us: Seq<InvocationV>, id: Seq<char>) -> Option<int> {
    if exists|k: int| is_first_use(us, id, k) {
        Some(choose|k: int| is_first_use(us, id, k))
    } else {
        None
    }
}

/// Each result of `rs`, in order, with the first invocation of `us` that it
/// answers; results that answer none are left out.
pub open spec fn pairs(us: Seq<InvocationV>, rs: Seq<ResultBlockV>) -> Seq<(InvocationV, ResultBlockV)>
    decreases rs.len(),
{
    if rs.len() == 0 {
        Seq::empty()
    } else {
        let prev = pairs(us, rs.drop_last());
        match first_use(us, rs.last().call_id) {
            Some(k) => prev.push((us[k], rs.last())),
            None => prev,
        }
    }
}

/// The tool-use block of an invocation.
pub open spec fn use_block(u: InvocationV) -> BlockV {
    BlockV::ToolUse(u.call_id, u.tool_name, u.arguments)
}

/// The tool-result block of a result.
pub open spec fn result_block(r: ResultBlockV) -> BlockV {
    BlockV::ToolResult(r.call_id, r.content)
}

/// The assistant message of a turn with text `text`, whose answered
/// invocations are `ps`.
pub open spec fn assistant_message(text: Seq<char>, ps: Seq<(InvocationV, ResultBlockV)>) -> WireMessageV {
    WireMessageV {
        role: WireRole::Assistant,
        blocks: (if text.len() > 0 {
            seq![BlockV::Text(text)]
        } else {
            Seq::empty()
        }) + ps.map_values(|p: (InvocationV, ResultBlockV)| use_block(p.0)),
    }
}

/// The user message that answers the invocations of `ps`.
pub open spec fn results_message(ps: Seq<(InvocationV, ResultBlockV)>) -> WireMessageV {
    WireMessageV {
        role: WireRole::User,
        blocks: ps.map_values(|p: (InvocationV, ResultBlockV)| result_block(p.1)),
    }
}

/// The pairs of turn `i` with the tool turn after it, if there is one.
pub open spec fn answered_at(log: Seq<MessageV>, i: int) -> Seq<(InvocationV, ResultBlockV)> {
    if i + 1 < log.len() && log[i + 1].role == MessageRole::Tool {
        pairs(log[i].tool_uses, log[i + 1].results)
    } else {
        Seq::empty()
    }
}

/// The window of the turns of `log` from position `i` on. System turns
/// stand apart from the window; a tool turn stands right after the
/// assistant turn it answers, and only invocations that it answers are sent.
pub open spec fn window_from(log: Seq<MessageV>, i: int) -> Seq<WireMessageV>
    decreases log.len() - i,
{
    if i < 0 || i >= log.len() {
        Seq::empty()
    } else if log[i].role == MessageRole::User {
        seq![WireMessageV { role: WireRole::User, blocks: seq![BlockV::Text(log[i].content)] }]
            + window_from(log, i + 1)
    } else if log[i].role == MessageRole::Assistant {
        let ps = answered_at(log, i);
        if ps.len() > 0 {
            seq![assistant_message(log[i].content, ps), results_message(ps)] + window_from(
                log,
                i + 2,
            )
        } else if log[i].content.len() > 0 {
            seq![assistant_message(log[i].content, ps)] + window_from(log, i + 1)
        } else {
            window_from(log, i + 1)
        }
    } else {
        window_from(log, i + 1)
    }
}

/// The window of a log.
pub open spec fn window(log: Seq<MessageV>) -> Seq<WireMessageV> {
    window_from(log, 0)
}


/// Whether a message holds a tool-use block.
pub open spec fn has_tool_use(m: WireMessageV) -> bool {
    exists|k: int| 0 <= k < m.blocks.len() && (#[trigger] m.blocks[k]) is ToolUse
}

/// The identifier of a tool-use or tool-result block.
pub open spec fn block_id(b: BlockV) -> Seq<char> {
    match b {
        BlockV::ToolUse(id, _, _) => id,
        BlockV::ToolResult(id, _) => id,
        BlockV::Text(_) => Seq::empty(),
    }
}

/// The blocks of a message after its leading text block, if it has one.
pub open spec fn blocks_after_text(m: WireMessageV) -> Seq<BlockV> {
    if m.blocks.len() > 0 && m.blocks[0] is Text {
        m.blocks.drop_first()
    } else {
        m.blocks
    }
}

/// `r` answers `a`: `r` is a user message of tool-result blocks only, one for
/// each block of `a` after its text, and those are tool-use blocks with the
/// same identifiers in the same order.
pub open spec fn answered_by(a: WireMessageV, r: WireMessageV) -> bool {
    let us = blocks_after_text(a);
    &&& r.role == WireRole::User
    &&& 0 < us.len() == r.blocks.len()
    &&& forall|k: int|
        0 <= k < us.len() ==> {
            &&& (#[trigger] us[k]) is ToolUse
            &&& r.blocks[k] is ToolResult
            &&& block_id(us[k]) == block_id(r.blocks[k])
        }
}

/// Every message of `w` with a tool-use block is followed by a message that
/// answers it.
pub open spec fn window_adjacent(w: Seq<WireMessageV>) -> bool {
    forall|j: int|
        0 <= j < w.len() && has_tool_use(#[trigger] w[j]) ==> j + 1 < w.len() && answered_by(
            w[j],
            w[j + 1],
        )
}

proof fn lemma_first_use(us: Seq<InvocationV>, id: Seq<char>, k: int)
    requires
        is_first_use(us, id, k),
    ensures
        first_use(us, id) == Some(k),
{
    let c = choose|k: int| is_first_use(us, id, k);
    assert(is_first_use(us, id, c));
    if c < k {
        assert(us[c].call_id != id);
    }
    if k < c {
        assert(us[k].call_id != id);
    }
}

/// Each pair joins a result with an invocation of the same identifier.
proof fn lemma_pairs_ids(us: Seq<InvocationV>, rs: Seq<ResultBlockV>)
    ensures
        forall|k: int|
            0 <= k < pairs(us, rs).len() ==> (#[trigger] pairs(us, rs)[k]).0.call_id == pairs(
                us,
                rs,
            )[k].1.call_id,
    decreases rs.len(),
{
    if rs.len() > 0 {
        lemma_pairs_ids(us, rs.drop_last());
        let prev = pairs(us, rs.drop_last());
        match first_use(us, rs.last().call_id) {
            Some(c) => {
                assert(is_first_use(us, rs.last().call_id, c));
                let all = prev.push((us[c], rs.last()));
                assert(pairs(us, rs) == all);
                assert forall|k: int| 0 <= k < all.len() implies (#[trigger] all[k]).0.call_id
                    == all[k].1.call_id by {
                    if k < prev.len() {
                        assert(all[k] == prev[k]);
                    }
                }
            },
            None => {},
        }
    }
}

proof fn lemma_chunk_answers(text: Seq<char>, ps: Seq<(InvocationV, ResultBlockV)>)
    requires
        ps.len() > 0,
        forall|k: int| 0 <= k < ps.len() ==> (#[trigger] ps[k]).0.call_id == ps[k].1.call_id,
    ensures
        answered_by(assistant_message(text, ps), results_message(ps)),
        !has_tool_use(results_message(ps)),
{
    let a = assistant_message(text, ps);
    let us = ps.map_values(|p: (InvocationV, ResultBlockV)| use_block(p.0));
    assert(blocks_after_text(a) =~= us) by {
        if text.len() > 0 {
            assert(a.blocks.drop_first() =~= us);
        } else {
            assert(a.blocks =~= us);
        }
    }
    let r = results_message(ps);
    assert forall|k: int| 0 <= k < us.len() implies {
        &&& (#[trigger] us[k]) is ToolUse
        &&& r.blocks[k] is ToolResult
        &&& block_id(us[k]) == block_id(r.blocks[k])
    } by {
        assert(us[k] == use_block(ps[k].0));
        assert(r.blocks[k] == result_block(ps[k].1));
    }
    if has_tool_use(r) {
        let k = choose|k: int| 0 <= k < r.blocks.len() && (#[trigger] r.blocks[k]) is ToolUse;
        assert(r.blocks[k] == result_block(ps[k].1));
    }
}

proof fn lemma_window_from_adjacent(log: Seq<MessageV>, i: int)
    ensures
        window_adjacent(window_from(log, i)),
    decreases log.len() - i,
{
    if i < 0 || i >= log.len() {
        return;
    }
    let w = window_from(log, i);
    if log[i].role == MessageRole::User {
        lemma_window_from_adjacent(log, i + 1);
        let m = WireMessageV { role: WireRole::User, blocks: seq![BlockV::Text(log[i].content)] };
        let rest = window_from(log, i + 1);
        assert(w == seq![m] + rest);
        assert(!has_tool_use(m)) by {
            if has_tool_use(m) {
                let k = choose|k: int| 0 <= k < m.blocks.len() && (#[trigger] m.blocks[k]) is ToolUse;
            }
        }
        assert forall|j: int| 0 <= j < w.len() && has_tool_use(#[trigger] w[j]) implies j + 1
            < w.len() && answered_by(w[j], w[j + 1]) by {
            if j > 0 {
                assert(w[j] == rest[j - 1]);
                assert(w[j + 1] == rest[j]);
            }
        }
    } else if log[i].role == MessageRole::Assistant {
        let ps = answered_at(log, i);
        if ps.len() > 0 {
            lemma_window_from_adjacent(log, i + 2);
            lemma_pairs_ids(log[i].tool_uses, log[i + 1].results);
            lemma_chunk_answers(log[i].content, ps);
            let a = assistant_message(log[i].content, ps);
            let r = results_message(ps);
            let rest = window_from(log, i + 2);
            assert(w == seq![a, r] + rest);
            assert forall|j: int| 0 <= j < w.len() && has_tool_use(#[trigger] w[j]) implies j + 1
                < w.len() && answered_by(w[j], w[j + 1]) by {
                if j > 1 {
                    assert(w[j] == rest[j - 2]);
                    assert(w[j + 1] == rest[j - 1]);
                }
            }
        } else if log[i].content.len() > 0 {
            lemma_window_from_adjacent(log, i + 1);
            let a = assistant_message(log[i].content, ps);
            let rest = window_from(log, i + 1);
            assert(w == seq![a] + rest);
            assert(a.blocks =~= seq![BlockV::Text(log[i].content)]);
            assert(!has_tool_use(a)) by {
                if has_tool_use(a) {
                    let k = choose|k: int| 0 <= k < a.blocks.len() && (#[trigger] a.blocks[k]) is ToolUse;
                }
            }
            assert forall|j: int| 0 <= j < w.len() && has_tool_use(#[trigger] w[j]) implies j + 1
                < w.len() && answered_by(w[j], w[j + 1]) by {
                if j > 0 {
                    assert(w[j] == rest[j - 1]);
                    assert(w[j + 1] == rest[j]);
                }
            }
        } else {
            lemma_window_from_adjacent(log, i + 1);
        }
    } else {
        lemma_window_from_adjacent(log, i + 1);
    }
}

/// Adjacency: in the window of any log, every message that holds a tool-use
/// block is followed at once by a user message of tool-result blocks only,
/// whose identifiers are those of the tool-use blocks, in the same order.
pub proof fn lemma_window_adjacent(log: Seq<MessageV>)
    ensures
        window_adjacent(window(log)),
{
    lemma_window_from_adjacent(log, 0);
}


/// A copy of `v`.
pub fn clone_args(v: &Vec<ToolArg>) -> (r: Vec<ToolArg>)
    ensures
        r@ == v@,
{
    let r = v.clone();
    assert forall|i: int| 0 <= i < r@.len() implies r@[i] == v@[i] by {
        assert(cloned::<ToolArg>(v@[i], r@[i]));
    }
    assert(r@ =~= v@);
    r
}

/// Appending turns that do not start with a tool turn leaves the window of
/// the earlier turns as it was.
proof fn lemma_window_extend(log: Seq<MessageV>, ext: Seq<MessageV>, i: int)
    requires
        0 <= i <= log.len(),
        ext.len() > 0,
        ext[0].role != MessageRole::Tool,
    ensures
        window_from(log + ext, i) == window_from(log, i) + window_from(log + ext, log.len() as int),
    decreases log.len() - i,
{
    let l = log + ext;
    let n = log.len() as int;
    if i == n {
        assert(window_from(log, i) =~= Seq::<WireMessageV>::empty());
        assert(window_from(l, i) =~= window_from(log, i) + window_from(l, n));
    } else {
        assert(l[i] == log[i]);
        if i + 1 < n {
            assert(l[i + 1] == log[i + 1]);
        } else {
            assert(l[i + 1] == ext[0]);
        }
        assert(answered_at(l, i) == answered_at(log, i));
        if log[i].role == MessageRole::User {
            lemma_window_extend(log, ext, i + 1);
            assert(window_from(l, i) =~= window_from(log, i) + window_from(l, n));
        } else if log[i].role == MessageRole::Assistant {
            let ps = answered_at(log, i);
            if ps.len() > 0 {
                lemma_window_extend(log, ext, i + 2);
            } else {
                lemma_window_extend(log, ext, i + 1);
            }
            assert(window_from(l, i) =~= window_from(log, i) + window_from(l, n));
        } else {
            lemma_window_extend(log, ext, i + 1);
        }
    }
}

proof fn lemma_first_use_exists(us: Seq<InvocationV>, id: Seq<char>, m: int)
    requires
        0 <= m < us.len(),
        us[m].call_id == id,
    ensures
        exists|k: int| is_first_use(us, id, k),
    decreases m,
{
    if exists|j: int| 0 <= j < m && us[j].call_id == id {
        let j = choose|j: int| 0 <= j < m && us[j].call_id == id;
        lemma_first_use_exists(us, id, j);
    } else {
        assert(is_first_use(us, id, m));
    }
}

/// When block `k` of `bs` carries the identifier of invocation `k` of
/// `us`, every block finds its invocation, and each pair joins the
/// identifier of invocation `k`.
proof fn lemma_pairs_positional(us: Seq<InvocationV>, bs: Seq<ResultBlockV>)
    requires
        bs.len() <= us.len(),
        forall|k: int| 0 <= k < bs.len() ==> (#[trigger] bs[k]).call_id == us[k].call_id,
    ensures
        pairs(us, bs).len() == bs.len(),
        forall|k: int|
            0 <= k < bs.len() ==> (#[trigger] pairs(us, bs)[k]).0.call_id == us[k].call_id
                && pairs(us, bs)[k].1 == bs[k],
    decreases bs.len(),
{
    if bs.len() > 0 {
        let n = bs.len() - 1;
        lemma_pairs_positional(us, bs.drop_last());
        lemma_first_use_exists(us, bs.last().call_id, n);
        let c = choose|c: int| is_first_use(us, bs.last().call_id, c);
        lemma_first_use(us, bs.last().call_id, c);
        let prev = pairs(us, bs.drop_last());
        assert forall|k: int| 0 <= k < bs.len() implies (#[trigger] pairs(us, bs)[k]).0.call_id
            == us[k].call_id && pairs(us, bs)[k].1 == bs[k] by {
            if k < n {
                assert(pairs(us, bs)[k] == prev[k]);
                assert(bs.drop_last()[k] == bs[k]);
            }
        }
    }
}

/// Adjacency and identifier preservation through the log: when an
/// assistant turn with invocations `us` is followed by the tool turn that
/// `add_tool_results` makes from results answering them position by
/// position, the window of the log grows by exactly two messages: the
/// assistant message, whose tool-use blocks carry the identifiers of `us`
/// in order, and the user message of tool-result blocks with the same
/// identifiers in the same order.
pub proof fn lemma_tool_round_window(
    log: Seq<MessageV>,
    text: Seq<char>,
    us: Seq<InvocationV>,
    rs: Seq<ToolResult>,
)
    requires
        us.len() > 0,
        rs.len() == us.len(),
        forall|i: int| 0 <= i < us.len() ==> answers(#[trigger] rs[i], us[i].call_id),
    ensures
        ({
            let a = MessageV {
                role: MessageRole::Assistant,
                content: text,
                tool_name: None,
                tool_uses: us,
                results: Seq::empty(),
            };
            let ps = pairs(us, matched(us, rs));
            &&& window(log.push(a).push(result_turn(matched(us, rs)))) == window(log) + seq![
                assistant_message(text, ps),
                results_message(ps),
            ]
            &&& ps.len() == us.len()
            &&& forall|k: int|
                0 <= k < us.len() ==> (#[trigger] ps[k]).0.call_id == us[k].call_id
                    && ps[k].1.call_id == us[k].call_id
        }),
{
    let a = MessageV {
        role: MessageRole::Assistant,
        content: text,
        tool_name: None,
        tool_uses: us,
        results: Seq::empty(),
    };
    let bs = matched(us, rs);
    crate::conversation::lemma_identifiers_preserved(us, rs);
    lemma_pairs_positional(us, bs);
    let ps = pairs(us, bs);
    let ext = seq![a, result_turn(bs)];
    let l = log.push(a).push(result_turn(bs));
    assert(l =~= log + ext);
    lemma_window_extend(log, ext, 0);
    let n = log.len() as int;
    assert(l[n] == a);
    assert(l[n + 1] == result_turn(bs));
    assert(answered_at(l, n) == ps);
    assert(window_from(l, n + 2) =~= Seq::<WireMessageV>::empty());
    assert(window_from(l, n) =~= seq![assistant_message(text, ps), results_message(ps)]);
}

/// The position of the first invocation of `us` with identifier `id`.
fn find_use(us: &Vec<crate::conversation::ToolInvocation>, id: &String) -> (r: Option<usize>)
    ensures
        match r {
            Some(k) => is_first_use(crate::conversation::invocation_views(us@), id@, k as int),
            None => first_use(crate::conversation::invocation_views(us@), id@) is None,
        },
{
    let ghost vs = crate::conversation::invocation_views(us@);
    let mut j: usize = 0;
    while j < us.len()
        invariant
            j <= us.len(),
            vs == crate::conversation::invocation_views(us@),
            forall|i: int| 0 <= i < j ==> (#[trigger] vs[i]).call_id != id@,
        decreases us.len() - j,
    {
        if us[j].call_id.eq(id) {
            return Some(j);
        }
        j += 1;
    }
    proof {
        if exists|k: int| is_first_use(vs, id@, k) {
            let k = choose|k: int| is_first_use(vs, id@, k);
            assert(vs[k].call_id == id@);
        }
    }
    None
}

/// The tool-use and tool-result blocks for the invocations of turn `i` that
/// the turn after it answers.
fn answer_blocks(msgs: &Vec<Message>, i: usize) -> (r: (Vec<ContentBlock>, Vec<ContentBlock>))
    requires
        i < msgs.len(),
    ensures
        block_views(r.0@) == answered_at(message_views(msgs@), i as int).map_values(
            |p: (InvocationV, ResultBlockV)| use_block(p.0),
        ),
        block_views(r.1@) == answered_at(message_views(msgs@), i as int).map_values(
            |p: (InvocationV, ResultBlockV)| result_block(p.1),
        ),
{
    let ghost log = message_views(msgs@);
    let mut uses: Vec<ContentBlock> = Vec::new();
    let mut results: Vec<ContentBlock> = Vec::new();
    if i + 1 < msgs.len() && msgs[i + 1].role == MessageRole::Tool {
        let us = &msgs[i].tool_uses;
        let rs = &msgs[i + 1].results;
        let ghost uv = log[i as int].tool_uses;
        let ghost rv = log[i as int + 1].results;
        assert(uv == crate::conversation::invocation_views(us@));
        assert(rv == crate::conversation::block_views(rs@));
        let mut k: usize = 0;
        while k < rs.len()
            invariant
                k <= rs.len(),
                rv == crate::conversation::block_views(rs@),
                uv == crate::conversation::invocation_views(us@),
                block_views(uses@) == pairs(uv, rv.take(k as int)).map_values(
                    |p: (InvocationV, ResultBlockV)| use_block(p.0),
                ),
                block_views(results@) == pairs(uv, rv.take(k as int)).map_values(
                    |p: (InvocationV, ResultBlockV)| result_block(p.1),
                ),
            decreases rs.len() - k,
        {
            let ghost t = rv.take(k as int + 1);
            proof {
                assert(t.drop_last() =~= rv.take(k as int));
                assert(t.last() == rs@[k as int]@);
            }
            let b = &rs[k];
            match find_use(us, &b.call_id) {
                Some(j) => {
                    proof {
                        lemma_first_use(uv, b.call_id@, j as int);
                    }
                    let u = &us[j];
                    let ghost pu = block_views(uses@);
                    let ghost pr = block_views(results@);
                    uses.push(
                        ContentBlock::ToolUse {
                            id: u.call_id.clone(),
                            name: u.tool_name.clone(),
                            input: clone_args(&u.arguments),
                        },
                    );
                    results.push(
                        ContentBlock::ToolResult {
                            tool_use_id: b.call_id.clone(),
                            content: b.content.clone(),
                        },
                    );
                    proof {
                        let np = pairs(uv, t);
                        assert(np == pairs(uv, rv.take(k as int)).push((uv[j as int], rv[k as int])));
                        let f = |p: (InvocationV, ResultBlockV)| use_block(p.0);
                        let g = |p: (InvocationV, ResultBlockV)| result_block(p.1);
                        let op = pairs(uv, rv.take(k as int));
                        assert(uses@.last()@ == use_block(uv[j as int]));
                        assert(block_views(uses@) =~= pu.push(use_block(uv[j as int])));
                        assert(np.map_values(f) =~= op.map_values(f).push(use_block(uv[j as int])));
                        assert(block_views(results@) =~= pr.push(result_block(rv[k as int])));
                        assert(np.map_values(g) =~= op.map_values(g).push(result_block(rv[k as int])));
                        assert(block_views(uses@) =~= np.map_values(
                            |p: (InvocationV, ResultBlockV)| use_block(p.0),
                        ));
                        assert(block_views(results@) =~= np.map_values(
                            |p: (InvocationV, ResultBlockV)| result_block(p.1),
                        ));
                    }
                },
                None => {
                    assert(pairs(uv, t) == pairs(uv, rv.take(k as int)));
                },
            }
            k += 1;
        }
        assert(rv.take(rs.len() as int) =~= rv);
    } else {
        assert(block_views(uses@) =~= Seq::<(InvocationV, ResultBlockV)>::empty().map_values(
            |p: (InvocationV, ResultBlockV)| use_block(p.0),
        ));
        assert(block_views(results@) =~= Seq::<(InvocationV, ResultBlockV)>::empty().map_values(
            |p: (InvocationV, ResultBlockV)| result_block(p.1),
        ));
    }
    (uses, results)
}

/// The window of the turns `msgs`.
pub fn render_window(msgs: &Vec<Message>) -> (r: Vec<WireMessage>)
    ensures
        wire_views(r@) == window(message_views(msgs@)),
{
    let ghost log = message_views(msgs@);
    let mut out: Vec<WireMessage> = Vec::new();
    let mut i: usize = 0;
    assert(wire_views(out@) + window_from(log, 0) =~= window(log));
    while i < msgs.len()
        invariant
            i <= msgs.len(),
            log == message_views(msgs@),
            wire_views(out@) + window_from(log, i as int) == window(log),
        decreases msgs.len() - i,
    {
        let m = &msgs[i];
        let ghost before = wire_views(out@);
        assert(log[i as int] == m@);
        if m.role == MessageRole::User {
            let mut blocks: Vec<ContentBlock> = Vec::new();
            blocks.push(ContentBlock::Text { text: m.content.clone() });
            out.push(WireMessage { role: WireRole::User, content: blocks });
            proof {
                assert(block_views(blocks@) =~= seq![BlockV::Text(m.content@)]);
                assert(wire_views(out@) =~= before.push(out@.last()@));
                assert(wire_views(out@) + window_from(log, i as int + 1) =~= window(log));
            }
            i += 1;
        } else if m.role == MessageRole::Assistant {
            let (uses, results) = answer_blocks(msgs, i);
            let ghost ps = answered_at(log, i as int);
            assert(uses@.len() == ps.len());
            let mut blocks: Vec<ContentBlock> = Vec::new();
            let has_text = !m.content.as_str().is_empty();
            if has_text {
                blocks.push(ContentBlock::Text { text: m.content.clone() });
            }
            let ghost text_part = block_views(blocks@);
            let mut uses = uses;
            let nu = uses.len();
            blocks.append(&mut uses);
            proof {
                assert(block_views(blocks@) =~= assistant_message(m.content@, ps).blocks);
            }
            if nu > 0 {
                out.push(WireMessage { role: WireRole::Assistant, content: blocks });
                out.push(WireMessage { role: WireRole::User, content: results });
                proof {
                    assert(wire_views(out@) =~= before + seq![
                        assistant_message(m.content@, ps),
                        results_message(ps),
                    ]);
                    assert(wire_views(out@) + window_from(log, i as int + 2) =~= window(log));
                }
                i += 2;
            } else if has_text {
                out.push(WireMessage { role: WireRole::Assistant, content: blocks });
                proof {
                    assert(wire_views(out@) =~= before + seq![assistant_message(m.content@, ps)]);
                    assert(wire_views(out@) + window_from(log, i as int + 1) =~= window(log));
                }
                i += 1;
            } else {
                i += 1;
            }
        } else {
            i += 1;
        }
    }
    assert(window_from(log, i as int) =~= Seq::<WireMessageV>::empty());
    assert(wire_views(out@) =~= window(log));
    out
}

} // verus!

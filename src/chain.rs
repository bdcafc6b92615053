//! The tool chain of one user exchange, as a state machine: the caller asks
//! the model, runs tools, and waits; this module decides what comes next.

use vstd::prelude::*;

use crate::agent::AgentResponse;
use crate::backend::BackendResponse;
use crate::conversation::{
    invocation_views, matched, matched_words, pending, sat_add, ContextManager, InvocationV,
    MessageRole, MessageV, ToolInvocation, ToolResult,
};
use crate::json::{join, lemma_join_push};
use crate::text::{push_str, word_count};

verus! {

/// Limits of a tool chain: how many follow-up requests one exchange may
/// make, and how long to wait before each.
pub struct ToolChainConfig {
    pub max_depth: usize,
    pub delay_ms: u64,
}

impl ToolChainConfig {
    /// Up to five follow-ups, 200 ms apart.
    pub fn default_config() -> (r: Self)
        ensures
            r.max_depth == 5,
            r.delay_ms == 200,
    {
        ToolChainConfig { max_depth: 5, delay_ms: 200 }
    }

    /// One round of tools and one follow-up, without delay.
    pub fn single_round() -> (r: Self)
        ensures
            r.max_depth == 1,
            r.delay_ms == 0,
    {
        ToolChainConfig { max_depth: 1, delay_ms: 0 }
    }
}

/// What a tool produced: text, or a directory listing with its entry names.
pub enum ToolOutput {
    Text(String),
    Listing { text: String, names: Vec<String> },
}

/// The text a tool outcome stands as; a failure reads `Error: ` and why.
pub open spec fn outcome_text(o: Result<ToolOutput, String>) -> Seq<char> {
    match o {
        Ok(ToolOutput::Text(t)) => t@,
        Ok(ToolOutput::Listing { text, .. }) => text@,
        Err(m) => "Error: "@ + m@,
    }
}

/// `r` is the result of invocation `u` with outcome `o`.
pub open spec fn result_of(u: InvocationV, o: Result<ToolOutput, String>, r: ToolResult) -> bool {
    &&& r.tool_call_id is Some
    &&& r.tool_call_id->0@ == u.call_id
    &&& r.tool_name@ == u.tool_name
    &&& r.result@ == outcome_text(o)
    &&& match o {
        Ok(ToolOutput::Listing { names, .. }) => r.listing == Some(names),
        _ => r.listing is None,
    }
}

/// Where the chain stands.
#[derive(PartialEq, Eq, Structural, Clone, Copy, Debug)]
pub enum ChainPhase {
    /// Waiting for a completion.
    Awaiting,
    /// Waiting for the outcomes of the pending tool calls.
    Executing,
    /// The exchange is over.
    Done,
}

/// What the caller does next.
pub enum ChainStep {
    /// Wait this long, then ask the model again and hand its answer to
    /// `on_completion`.
    Solicit { delay_ms: u64 },
    /// Run these calls in order and hand their outcomes to
    /// `on_tool_outcomes`.
    Execute(Vec<ToolInvocation>),
    /// The exchange is over.
    Done,
}

/// The tool chain of one exchange.
pub struct ToolChain {
    config: ToolChainConfig,
    depth: usize,
    phase: ChainPhase,
    pending: Vec<ToolInvocation>,
    texts: Vec<String>,
    results: Vec<ToolResult>,
    dropped: Vec<String>,
}

/// A copy of `v`.
pub fn clone_calls(v: &Vec<ToolInvocation>) -> (r: Vec<ToolInvocation>)
    ensures
        invocation_views(r@) == invocation_views(v@),
{
    let mut r: Vec<ToolInvocation> = Vec::new();
    let mut i: usize = 0;
    while i < v.len()
        invariant
            i <= v.len(),
            invocation_views(r@) == invocation_views(v@).take(i as int),
        decreases v.len() - i,
    {
        let ghost before = invocation_views(r@);
        let c = v[i].clone();
        r.push(c);
        assert(invocation_views(r@) =~= before.push(v@[i as int]@));
        assert(invocation_views(r@) =~= invocation_views(v@).take(i as int + 1));
        i += 1;
    }
    assert(invocation_views(v@).take(v.len() as int) =~= invocation_views(v@));
    r
}

/// The models of a sequence of strings.
pub open spec fn text_views(v: Seq<String>) -> Seq<Seq<char>> {
    v.map_values(|s: String| s@)
}

impl ToolChain {
    /// Follow-up requests made so far.
    pub closed spec fn depth(&self) -> nat {
        self.depth as nat
    }

    /// The most follow-up requests allowed.
    pub closed spec fn max_depth(&self) -> nat {
        self.config.max_depth as nat
    }

    /// The wait before each follow-up.
    pub closed spec fn delay(&self) -> u64 {
        self.config.delay_ms
    }

    /// Where the chain stands.
    pub closed spec fn phase(&self) -> ChainPhase {
        self.phase
    }

    /// The calls waiting for outcomes.
    pub closed spec fn pending_calls(&self) -> Seq<InvocationV> {
        invocation_views(self.pending@)
    }

    /// The texts of the completions so far.
    pub closed spec fn texts(&self) -> Seq<Seq<char>> {
        text_views(self.texts@)
    }

    /// The results so far.
    pub closed spec fn results(&self) -> Seq<ToolResult> {
        self.results@
    }

    /// The names of the calls dropped at the depth limit.
    pub closed spec fn dropped(&self) -> Seq<Seq<char>> {
        text_views(self.dropped@)
    }

    /// The chain's invariant: follow-ups stay within the limit, and calls
    /// are pending only while another follow-up is allowed.
    pub closed spec fn wf(&self) -> bool {
        &&& self.depth <= self.config.max_depth
        &&& self.phase == ChainPhase::Executing ==> self.depth < self.config.max_depth
    }

    /// Whether the chain's invariant holds.
    pub fn is_well_formed(&self) -> (r: bool)
        ensures
            r == self.wf(),
    {
        self.depth <= self.config.max_depth && (self.phase != ChainPhase::Executing || self.depth
            < self.config.max_depth)
    }

    /// Where the chain stands.
    pub fn current_phase(&self) -> (r: ChainPhase)
        ensures
            r == self.phase(),
    {
        self.phase
    }

    /// Follow-up requests made so far.
    pub fn follow_ups(&self) -> (r: usize)
        ensures
            r == self.depth(),
    {
        self.depth
    }

    /// The names of the calls dropped at the follow-up limit.
    pub fn dropped_calls(&self) -> (r: &Vec<String>)
        ensures
            text_views(r@) == self.dropped(),
    {
        &self.dropped
    }

    /// The exchange's answer: the completions' texts, a blank line apart,
    /// and every tool result in order.
    pub fn finish(self) -> (r: AgentResponse)
        ensures
            r.content@ == join(self.texts(), "\n\n"@),
            r.tool_results@ == self.results(),
    {
        let mut content = String::new();
        let ghost tv = text_views(self.texts@);
        let mut i: usize = 0;
        while i < self.texts.len()
            invariant
                i <= self.texts.len(),
                tv == text_views(self.texts@),
                content@ == join(tv.take(i as int), "\n\n"@),
            decreases self.texts.len() - i,
        {
            if i > 0 {
                push_str(&mut content, "\n\n");
            }
            push_str(&mut content, self.texts[i].as_str());
            proof {
                lemma_join_push(tv.take(i as int), "\n\n"@, tv[i as int]);
                assert(tv.take(i as int + 1) =~= tv.take(i as int).push(tv[i as int]));
            }
            i += 1;
        }
        assert(tv.take(self.texts.len() as int) =~= tv);
        AgentResponse { content, tool_results: self.results }
    }

    /// A chain for an exchange in which `input` is the user's turn: the turn
    /// is appended, and the caller asks the model for a first completion.
    pub fn begin(config: ToolChainConfig, ctx: &mut ContextManager, input: &str) -> (r: Self)
        ensures
            r.wf(),
            r.depth() == 0,
            r.max_depth() == config.max_depth,
            r.delay() == config.delay_ms,
            r.phase() == ChainPhase::Awaiting,
            r.texts().len() == 0,
            r.results().len() == 0,
            r.dropped().len() == 0,
            final(ctx).log() == old(ctx).log().push(
                crate::conversation::text_turn(MessageRole::User, input@),
            ),
            final(ctx).size() == sat_add(old(ctx).size(), word_count(input@)),
    {
        ctx.add_user_message(input);
        let r = ToolChain {
            config,
            depth: 0,
            phase: ChainPhase::Awaiting,
            pending: Vec::new(),
            texts: Vec::new(),
            results: Vec::new(),
            dropped: Vec::new(),
        };
        assert(text_views(r.texts@) =~= Seq::<Seq<char>>::empty());
        assert(final(ctx).log() =~= old(ctx).log().push(
            crate::conversation::text_turn(MessageRole::User, input@),
        ));
        r
    }

    /// Takes a completion: appends it as an assistant turn, then ends the
    /// exchange when it asks for no tool, drops its calls when the follow-up
    /// limit is reached, and otherwise asks the caller to run its calls.
    pub fn on_completion(&mut self, ctx: &mut ContextManager, resp: BackendResponse) -> (step: ChainStep)
        requires
            old(self).wf(),
            old(self).phase() == ChainPhase::Awaiting,
        ensures
            final(self).wf(),
            final(self).depth() == old(self).depth(),
            final(self).max_depth() == old(self).max_depth(),
            final(self).delay() == old(self).delay(),
            final(self).texts() == old(self).texts().push(resp.content@),
            final(self).results() == old(self).results(),
            final(ctx).log() == old(ctx).log().push(
                MessageV {
                    role: MessageRole::Assistant,
                    content: resp.content@,
                    tool_name: None,
                    tool_uses: invocation_views(resp.tool_calls@),
                    results: Seq::empty(),
                },
            ),
            final(ctx).size() == sat_add(old(ctx).size(), word_count(resp.content@)),
            resp.tool_calls@.len() == 0 ==> step is Done && final(self).phase() == ChainPhase::Done
                && final(self).dropped() == old(self).dropped(),
            resp.tool_calls@.len() > 0 && old(self).depth() >= old(self).max_depth() ==> step is Done
                && final(self).phase() == ChainPhase::Done && final(self).dropped()
                == old(self).dropped() + invocation_views(resp.tool_calls@).map_values(
                |u: InvocationV| u.tool_name,
            ),
            resp.tool_calls@.len() > 0 && old(self).depth() < old(self).max_depth() ==> ({
                &&& final(self).phase() == ChainPhase::Executing
                &&& final(self).pending_calls() == invocation_views(resp.tool_calls@)
                &&& final(self).dropped() == old(self).dropped()
                &&& match step {
                    ChainStep::Execute(calls) => invocation_views(calls@) == invocation_views(
                        resp.tool_calls@,
                    ),
                    _ => false,
                }
            }),
    {
        let ghost old_texts = text_views(self.texts@);
        self.texts.push(resp.content.clone());
        assert(text_views(self.texts@) =~= old_texts.push(resp.content@));
        let calls = resp.tool_calls;
        let n = calls.len();
        let copy = clone_calls(&calls);
        ctx.add_assistant_turn(resp.content.as_str(), calls);
        if n == 0 {
            self.phase = ChainPhase::Done;
            return ChainStep::Done;
        }
        if self.depth >= self.config.max_depth {
            let mut names: Vec<String> = Vec::new();
            let mut i: usize = 0;
            while i < copy.len()
                invariant
                    i <= copy.len(),
                    text_views(names@) == invocation_views(copy@).take(i as int).map_values(
                        |u: InvocationV| u.tool_name,
                    ),
                decreases copy.len() - i,
            {
                let ghost prev = text_views(names@);
                names.push(copy[i].tool_name.clone());
                proof {
                    assert(text_views(names@) =~= prev.push(copy@[i as int].tool_name@));
                    assert(invocation_views(copy@).take(i as int + 1).map_values(
                        |u: InvocationV| u.tool_name,
                    ) =~= invocation_views(copy@).take(i as int).map_values(
                        |u: InvocationV| u.tool_name,
                    ).push(copy@[i as int].tool_name@));
                }
                i += 1;
            }
            assert(invocation_views(copy@).take(copy.len() as int) =~= invocation_views(copy@));
            let ghost before = text_views(self.dropped@);
            let ghost nv = text_views(names@);
            self.dropped.append(&mut names);
            assert(text_views(self.dropped@) =~= before + nv);
            self.phase = ChainPhase::Done;
            return ChainStep::Done;
        }
        self.phase = ChainPhase::Executing;
        self.pending = clone_calls(&copy);
        ChainStep::Execute(copy)
    }

    /// Takes the outcomes of the pending calls, in their order: each becomes
    /// a result that carries its call's identifier as it came, a failure
    /// standing as text; the results are appended to the log, and the caller
    /// waits and asks for a follow-up.
    pub fn on_tool_outcomes(&mut self, ctx: &mut ContextManager, outcomes: Vec<Result<ToolOutput, String>>) -> (step: ChainStep)
        requires
            old(self).wf(),
            old(self).phase() == ChainPhase::Executing,
            outcomes@.len() == old(self).pending_calls().len(),
        ensures
            final(self).wf(),
            final(self).depth() == old(self).depth() + 1,
            final(self).max_depth() == old(self).max_depth(),
            final(self).delay() == old(self).delay(),
            final(self).phase() == ChainPhase::Awaiting,
            final(self).texts() == old(self).texts(),
            final(self).dropped() == old(self).dropped(),
            final(self).results().len() == old(self).results().len() + outcomes@.len(),
            final(self).results().take(old(self).results().len() as int) == old(self).results(),
            forall|i: int|
                0 <= i < outcomes@.len() ==> result_of(
                    old(self).pending_calls()[i],
                    outcomes@[i],
                    #[trigger] final(self).results()[old(self).results().len() + i],
                ),
            ({
                let rs = final(self).results().skip(old(self).results().len() as int);
                let bs = matched(pending(old(ctx).log()), rs);
                &&& bs.len() == 0 ==> final(ctx).log() == old(ctx).log()
                &&& bs.len() > 0 ==> final(ctx).log() == old(ctx).log().push(
                    crate::conversation::result_turn(bs),
                )
                &&& final(ctx).size() == sat_add(old(ctx).size(), matched_words(pending(old(ctx).log()), rs))
            }),
            step == (ChainStep::Solicit { delay_ms: old(self).delay() }),
    {
        let mut fresh: Vec<ToolResult> = Vec::new();
        let mut outcomes = outcomes;
        let ghost os = outcomes@;
        let ghost us = invocation_views(self.pending@);
        let mut i: usize = 0;
        while i < self.pending.len()
            invariant
                i <= self.pending.len(),
                us == invocation_views(self.pending@),
                os.len() == us.len(),
                outcomes@ == os.skip(i as int),
                fresh@.len() == i,
                forall|j: int| 0 <= j < i ==> result_of(us[j], os[j], #[trigger] fresh@[j]),
            decreases self.pending.len() - i,
        {
            let o = outcomes.remove(0);
            assert(o == os[i as int]);
            let u = &self.pending[i];
            let r = match o {
                Ok(ToolOutput::Text(t)) => ToolResult {
                    tool_name: u.tool_name.clone(),
                    result: t,
                    tool_call_id: Some(u.call_id.clone()),
                    listing: None,
                },
                Ok(ToolOutput::Listing { text, names }) => ToolResult {
                    tool_name: u.tool_name.clone(),
                    result: text,
                    tool_call_id: Some(u.call_id.clone()),
                    listing: Some(names),
                },
                Err(m) => {
                    let mut t = "Error: ".to_owned();
                    push_str(&mut t, m.as_str());
                    ToolResult {
                        tool_name: u.tool_name.clone(),
                        result: t,
                        tool_call_id: Some(u.call_id.clone()),
                        listing: None,
                    }
                },
            };
            fresh.push(r);
            assert(outcomes@ =~= os.skip(i as int + 1));
            i += 1;
        }
        let ghost fv = fresh@;
        ctx.add_tool_results(fresh.as_slice());
        let ghost old_results = self.results@;
        let mut fresh = fresh;
        self.results.append(&mut fresh);
        proof {
            assert(self.results@ =~= old_results + fv);
            assert(self.results@.skip(old_results.len() as int) =~= fv);
            assert(self.results@.take(old_results.len() as int) =~= old_results);
        }
        self.depth = self.depth + 1;
        self.phase = ChainPhase::Awaiting;
        ChainStep::Solicit { delay_ms: self.config.delay_ms }
    }
}


/// Identifier preservation across an exchange: the results that
/// `on_tool_outcomes` makes from the outcomes of the pending calls answer
/// every call, and the tool turn they form carries each call's identifier,
/// unchanged, in the calls' order.
pub proof fn lemma_outcomes_keep_identifiers(
    us: Seq<InvocationV>,
    os: Seq<Result<ToolOutput, String>>,
    rs: Seq<ToolResult>,
)
    requires
        us.len() == os.len() == rs.len(),
        forall|i: int| 0 <= i < us.len() ==> result_of(us[i], os[i], #[trigger] rs[i]),
    ensures
        matched(us, rs).len() == us.len(),
        forall|i: int|
            0 <= i < us.len() ==> (#[trigger] matched(us, rs)[i]).call_id == us[i].call_id,
{
    assert forall|i: int| 0 <= i < us.len() implies crate::conversation::answers(
        #[trigger] rs[i],
        us[i].call_id,
    ) by {
        assert(result_of(us[i], os[i], rs[i]));
    }
    crate::conversation::lemma_identifiers_preserved(us, rs);
}

/// Depth bound: a chain never makes more follow-up requests than its limit,
/// and calls wait to run only while one more follow-up is allowed; at the
/// limit, a completion's calls are dropped (see `on_completion`).
pub proof fn lemma_follow_ups_bounded(c: &ToolChain)
    requires
        c.wf(),
    ensures
        c.depth() <= c.max_depth(),
        c.phase() == ChainPhase::Executing ==> c.depth() < c.max_depth(),
{
}

} // verus!

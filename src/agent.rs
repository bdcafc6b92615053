//! The agent: one conversation, its tools, and its backend settings.

use vstd::prelude::*;

use crate::actions::{call_args, ordered_args, ToolAction};
use crate::backend::{BedrockBackend, BedrockModel};
use crate::chain::{ToolChain, ToolChainConfig};
use crate::conversation::{context_text, ContextManager, ToolInvocation, ToolResult};
use crate::protocol::{build_request, request_json};
use crate::registry::{lemma_names_distinct, prepared, ToolError, ToolRegistry};
use crate::text::push_str;
use crate::tools::{tool_args, tool_name, Tool, ToolKind};

verus! {

/// Sets up the agent's parts; they need nothing before use.
pub fn init() {
    crate::tools::init();
    crate::backend::init();
}

/// Settings of the agent.
pub struct AgentConfig {
    pub use_fast_model_for_context: bool,
    pub max_context_length: usize,
    pub auto_compress_context: bool,
    pub aws_region: String,
    pub aws_profile: Option<String>,
}

impl AgentConfig {
    /// Summaries by the fast model, past 32000 words, in us-east-1 with the
    /// default profile.
    pub fn default_config() -> (r: Self)
        ensures
            r.use_fast_model_for_context,
            r.max_context_length == 32000,
            r.auto_compress_context,
            r.aws_region@ == "us-east-1"@,
            r.aws_profile is None,
    {
        AgentConfig {
            use_fast_model_for_context: true,
            max_context_length: 32000,
            auto_compress_context: true,
            aws_region: "us-east-1".to_owned(),
            aws_profile: None,
        }
    }
}

/// The answer to one exchange: the text of its completions and the results
/// of the tools it ran.
pub struct AgentResponse {
    pub content: String,
    pub tool_results: Vec<ToolResult>,
}

/// One conversation with its tools and backend settings.
pub struct AgentManager {
    backend: BedrockBackend,
    tool_registry: ToolRegistry,
    context_manager: ContextManager,
    config: AgentConfig,
    initialized: bool,
}

/// The prompt that asks for a summary of a conversation.
pub open spec fn summary_prompt(context: Seq<char>) -> Seq<char> {
    "Please summarize the following conversation concisely while preserving all important information:\n"@
        + context + "\n"@
}

impl AgentManager {
    /// Whether the backend is connected.
    pub closed spec fn is_ready(&self) -> bool {
        self.initialized
    }

    /// The conversation.
    pub closed spec fn context(&self) -> ContextManager {
        self.context_manager
    }

    /// The tools.
    pub closed spec fn registry(&self) -> ToolRegistry {
        self.tool_registry
    }

    /// The agent's settings.
    pub closed spec fn settings(&self) -> AgentConfig {
        self.config
    }

    /// The backend settings and the model in use.
    pub closed spec fn backend_state(&self) -> BedrockBackend {
        self.backend
    }

    /// The default settings, no tools, a fresh conversation.
    pub fn new() -> (r: Self)
        ensures
            !r.is_ready(),
            r.registry().registered().len() == 0,
            r.context().log() == seq![
                crate::conversation::text_turn(
                    crate::conversation::MessageRole::System,
                    crate::conversation::DEFAULT_SYSTEM_PROMPT@,
                ),
            ],
            r.backend_state().model() == BedrockModel::Sonnet,
            crate::backend::is_default_config(r.backend_state().settings()),
    {
        AgentManager {
            backend: BedrockBackend::new(),
            tool_registry: ToolRegistry::new(),
            context_manager: ContextManager::new(),
            config: AgentConfig::default_config(),
            initialized: false,
        }
    }

    /// The given settings, no tools, a fresh conversation.
    pub fn with_config(config: AgentConfig) -> (r: Self)
        ensures
            !r.is_ready(),
            r.settings() == config,
            r.registry().registered().len() == 0,
            r.context().log() == seq![
                crate::conversation::text_turn(
                    crate::conversation::MessageRole::System,
                    crate::conversation::DEFAULT_SYSTEM_PROMPT@,
                ),
            ],
            r.backend_state().model() == BedrockModel::Sonnet,
            crate::backend::is_default_config(r.backend_state().settings()),
    {
        AgentManager {
            backend: BedrockBackend::new(),
            tool_registry: ToolRegistry::new(),
            context_manager: ContextManager::new(),
            config,
            initialized: false,
        }
    }

    /// Registers a tool.
    pub fn register_tool<T: Tool>(&mut self, tool: &T)
        ensures
            final(self).registry().registered() == if old(self).registry().registered().contains(
                tool.spec_kind(),
            ) {
                old(self).registry().registered()
            } else {
                old(self).registry().registered().push(tool.spec_kind())
            },
            final(self).context() == old(self).context(),
            final(self).is_ready() == old(self).is_ready(),
    {
        self.tool_registry.register_tool(tool);
    }

    /// Sets the directory that tools resolve relative paths against.
    pub fn set_working_directory(&mut self, directory: &str)
        ensures
            final(self).registry().working_directory()@ == directory@,
            final(self).registry().registered() == old(self).registry().registered(),
            final(self).context() == old(self).context(),
            final(self).is_ready() == old(self).is_ready(),
    {
        self.tool_registry.set_working_directory(directory);
    }

    /// The backend settings that the agent's region and profile give; the
    /// caller connects with them, then calls `mark_initialized`.
    pub fn backend_settings(&self) -> (r: crate::backend::BedrockConfig)
        ensures
            ({
                let c = self.backend_state().settings();
                let p = self.settings().aws_profile;
                &&& r.region@ == self.settings().aws_region@
                &&& r.use_profile == (p is Some || c.use_profile)
                &&& r.profile_name == (if p is Some { p } else { c.profile_name })
                &&& r.sonnet_model_id == c.sonnet_model_id
                &&& r.haiku_model_id == c.haiku_model_id
                &&& r.sonnet_token_limit == c.sonnet_token_limit
                &&& r.haiku_token_limit == c.haiku_token_limit
                &&& r.sonnet_temperature == c.sonnet_temperature
                &&& r.haiku_temperature == c.haiku_temperature
                &&& r.max_tokens == c.max_tokens
                &&& r.max_retries == c.max_retries
            }),
    {
        let c = self.backend.config();
        let profile_name = match &self.config.aws_profile {
            Some(p) => Some(p.clone()),
            None => match &c.profile_name {
                Some(p) => Some(p.clone()),
                None => None,
            },
        };
        crate::backend::BedrockConfig {
            region: self.config.aws_region.clone(),
            sonnet_model_id: c.sonnet_model_id.clone(),
            haiku_model_id: c.haiku_model_id.clone(),
            sonnet_token_limit: c.sonnet_token_limit,
            haiku_token_limit: c.haiku_token_limit,
            sonnet_temperature: c.sonnet_temperature,
            haiku_temperature: c.haiku_temperature,
            max_tokens: c.max_tokens,
            use_profile: self.config.aws_profile.is_some() || c.use_profile,
            profile_name,
            max_retries: c.max_retries,
        }
    }

    /// Records that the backend is connected, with `settings`.
    pub fn mark_initialized(&mut self, settings: crate::backend::BedrockConfig)
        ensures
            final(self).is_ready(),
            final(self).backend_state().settings() == settings,
            final(self).backend_state().model() == BedrockModel::Sonnet,
            final(self).context() == old(self).context(),
            final(self).registry() == old(self).registry(),
    {
        self.backend = BedrockBackend::with_config(settings);
        self.initialized = true;
    }

    /// Whether the backend is connected.
    pub fn is_initialized(&self) -> (r: bool)
        ensures
            r == self.is_ready(),
    {
        self.initialized
    }

    /// The conversation.
    pub fn context_manager(&self) -> (r: &ContextManager)
        ensures
            *r == self.context(),
    {
        &self.context_manager
    }

    /// The tools.
    pub fn tool_registry(&self) -> (r: &ToolRegistry)
        ensures
            *r == self.registry(),
    {
        &self.tool_registry
    }

    /// The backend settings and model in use.
    pub fn backend(&self) -> (r: &BedrockBackend)
        ensures
            *r == self.backend_state(),
    {
        &self.backend
    }

    /// Starts an exchange with the user's `input`, which fails when the
    /// backend is not connected.
    pub fn process_input(&mut self, input: &str, chain_config: ToolChainConfig) -> (r: Result<ToolChain, String>)
        ensures
            !old(self).is_ready() <==> r is Err,
            !old(self).is_ready() ==> (r matches Err(m) && m@
                == "Backend not initialized. Call init() first."@),
            !old(self).is_ready() ==> final(self).context() == old(self).context(),
            old(self).is_ready() ==> final(self).context().log() == old(self).context().log().push(
                crate::conversation::text_turn(crate::conversation::MessageRole::User, input@),
            ),
            final(self).registry() == old(self).registry(),
            final(self).is_ready() == old(self).is_ready(),
            r matches Ok(c) ==> c.wf() && c.depth() == 0 && c.max_depth() == chain_config.max_depth
                && c.phase() == crate::chain::ChainPhase::Awaiting,
    {
        if !self.initialized {
            return Err("Backend not initialized. Call init() first.".to_owned());
        }
        Ok(ToolChain::begin(chain_config, &mut self.context_manager, input))
    }

    /// The request body for the conversation as it stands, with the
    /// registered tools and the settings of the model in use.
    pub fn request(&self) -> (r: String)
        ensures
            r@ == request_json(
                self.context().log(),
                self.registry().registered(),
                self.backend_state().settings().max_tokens as nat,
                (match self.backend_state().model() {
                    BedrockModel::Sonnet => self.backend_state().settings().sonnet_temperature,
                    BedrockModel::Haiku => self.backend_state().settings().haiku_temperature,
                }) as nat,
            ),
    {
        build_request(
            &self.context_manager,
            &self.tool_registry,
            self.backend.config().max_tokens,
            self.backend.current_model_temperature(),
        )
    }

    /// Hands a completion to the chain; see `ToolChain::on_completion`.
    pub fn on_completion(&mut self, chain: &mut ToolChain, resp: crate::backend::BackendResponse) -> (step: crate::chain::ChainStep)
        requires
            old(chain).wf(),
            old(chain).phase() == crate::chain::ChainPhase::Awaiting,
        ensures
            final(chain).wf(),
            final(chain).depth() == old(chain).depth(),
            final(chain).texts() == old(chain).texts().push(resp.content@),
            final(self).context().log() == old(self).context().log().push(
                crate::conversation::MessageV {
                    role: crate::conversation::MessageRole::Assistant,
                    content: resp.content@,
                    tool_name: None,
                    tool_uses: crate::conversation::invocation_views(resp.tool_calls@),
                    results: Seq::empty(),
                },
            ),
            resp.tool_calls@.len() == 0 ==> step is Done,
            resp.tool_calls@.len() > 0 && old(chain).depth() >= old(chain).max_depth() ==> step is Done
                && final(chain).dropped() == old(chain).dropped()
                + crate::conversation::invocation_views(resp.tool_calls@).map_values(
                |u: crate::conversation::InvocationV| u.tool_name,
            ),
            resp.tool_calls@.len() > 0 && old(chain).depth() < old(chain).max_depth() ==> match step {
                crate::chain::ChainStep::Execute(calls) => crate::conversation::invocation_views(calls@)
                    == crate::conversation::invocation_views(resp.tool_calls@),
                _ => false,
            },
            final(self).registry() == old(self).registry(),
            final(self).is_ready() == old(self).is_ready(),
    {
        chain.on_completion(&mut self.context_manager, resp)
    }

    /// Hands the outcomes of the pending calls to the chain; see
    /// `ToolChain::on_tool_outcomes`.
    pub fn on_tool_outcomes(
        &mut self,
        chain: &mut ToolChain,
        outcomes: Vec<Result<crate::chain::ToolOutput, String>>,
    ) -> (step: crate::chain::ChainStep)
        requires
            old(chain).wf(),
            old(chain).phase() == crate::chain::ChainPhase::Executing,
            outcomes@.len() == old(chain).pending_calls().len(),
        ensures
            final(chain).wf(),
            final(chain).depth() == old(chain).depth() + 1,
            final(chain).results().take(old(chain).results().len() as int) == old(chain).results(),
            final(chain).results().len() == old(chain).results().len() + outcomes@.len(),
            forall|i: int|
                0 <= i < outcomes@.len() ==> crate::chain::result_of(
                    old(chain).pending_calls()[i],
                    outcomes@[i],
                    #[trigger] final(chain).results()[old(chain).results().len() + i],
                ),
            step == (crate::chain::ChainStep::Solicit { delay_ms: old(chain).delay() }),
            final(self).registry() == old(self).registry(),
            final(self).is_ready() == old(self).is_ready(),
    {
        chain.on_tool_outcomes(&mut self.context_manager, outcomes)
    }

    /// Decides the work that an invocation asks for, its arguments taken in
    /// the order the tool declares them.
    pub fn plan_call(&self, call: &ToolInvocation) -> (r: Result<ToolAction, ToolError>)
        ensures
            match self.registry().lookup_spec(call.tool_name@) {
                None => match r {
                    Err(ToolError::NotFound(n)) => n@ == call.tool_name@,
                    _ => false,
                },
                Some(k) => prepared(
                    self.registry().registered(),
                    self.registry().working_directory()@,
                    call.tool_name@,
                    ordered_args(tool_args(k), call.arguments@),
                    r,
                ),
            },
    {
        match self.tool_registry.lookup(call.tool_name.as_str()) {
            None => Err(ToolError::NotFound(call.tool_name.clone())),
            Some(k) => {
                proof {
                    let c = choose|c: ToolKind|
                        self.registry().registered().contains(c) && tool_name(c) == call.tool_name@;
                    lemma_names_distinct(c, k);
                }
                let args = call_args(k, &call.arguments);
                self.tool_registry.prepare_tool(call.tool_name.as_str(), &args)
            },
        }
    }

    /// Whether the conversation has grown past the limit and should be
    /// summarized.
    pub fn needs_compaction(&self) -> (r: bool)
        ensures
            r == (self.settings().auto_compress_context && self.context().size()
                > self.settings().max_context_length),
    {
        self.config.auto_compress_context && self.context_manager.context_length() > self.config.max_context_length
    }

    /// The prompt that asks for a summary of the conversation, with the
    /// model switched to the fast one when the settings say so; the model in
    /// use before is returned, for `apply_summary`.
    pub fn begin_compaction(&mut self) -> (r: (String, BedrockModel))
        ensures
            r.0@ == summary_prompt(context_text(old(self).context().log())),
            r.1 == old(self).backend_state().model(),
            final(self).context() == old(self).context(),
            final(self).backend_state().model() == if old(self).settings().use_fast_model_for_context {
                BedrockModel::Haiku
            } else {
                old(self).backend_state().model()
            },
    {
        let previous = self.backend.current_model();
        if self.config.use_fast_model_for_context {
            self.backend.switch_model(BedrockModel::Haiku);
        }
        let context = self.context_manager.get_context();
        let mut prompt = "Please summarize the following conversation concisely while preserving all important information:\n".to_owned();
        push_str(&mut prompt, context.as_str());
        push_str(&mut prompt, "\n");
        (prompt, previous)
    }

    /// Uses `model` from now on.
    pub fn use_model(&mut self, model: BedrockModel)
        ensures
            final(self).backend_state().model() == model,
            final(self).context() == old(self).context(),
            final(self).registry() == old(self).registry(),
    {
        self.backend.switch_model(model);
    }

    /// Replaces the older turns with `summary` and goes back to `model`.
    pub fn apply_summary(&mut self, summary: &str, model: BedrockModel)
        ensures
            final(self).context().log() == crate::conversation::compacted(
                old(self).context().log(),
                summary@,
            ),
            final(self).backend_state().model() == model,
            final(self).registry() == old(self).registry(),
    {
        self.context_manager.replace_with_summary(summary);
        self.backend.switch_model(model);
    }
}

} // verus!

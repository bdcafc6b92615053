//! The model backend: its settings, how its answers are read, and how
//! transport failures are classified and retried.

use vstd::prelude::*;

use crate::conversation::{invocation_views, InvocationV, ToolArg, ToolInvocation};
use crate::json::join;
use crate::json::lemma_join_push;
use crate::text::push_str;
use crate::wire::clone_args;

verus! {

/// Sets up the backends; they need nothing before use.
pub fn init() {
}

/// One content block of a provider response, as decoded from JSON.
pub struct ResponseBlock {
    pub content_type: String,
    pub text: Option<String>,
    pub id: Option<String>,
    pub name: Option<String>,
    pub input: Option<Vec<ToolArg>>,
}

/// A completion read from the provider: its text, the tools it asks for,
/// the model that wrote it, and the tokens the exchange used.
pub struct BackendResponse {
    pub content: String,
    pub model: String,
    pub tokens_used: Option<usize>,
    pub tool_calls: Vec<ToolInvocation>,
}

/// The texts of the text blocks of a response.
pub open spec fn response_texts(bs: Seq<ResponseBlock>) -> Seq<Seq<char>>
    decreases bs.len(),
{
    if bs.len() == 0 {
        Seq::empty()
    } else {
        let prev = response_texts(bs.drop_last());
        let b = bs.last();
        if b.content_type@ == "text"@ && b.text is Some {
            prev.push(b.text->0@)
        } else {
            prev
        }
    }
}

/// The tool invocations of the tool-use blocks of a response, identifiers
/// as they came.
pub open spec fn response_calls(bs: Seq<ResponseBlock>) -> Seq<InvocationV>
    decreases bs.len(),
{
    if bs.len() == 0 {
        Seq::empty()
    } else {
        let prev = response_calls(bs.drop_last());
        let b = bs.last();
        if b.content_type@ == "tool_use"@ && b.id is Some && b.name is Some && b.input is Some {
            prev.push(
                InvocationV { call_id: b.id->0@, tool_name: b.name->0@, arguments: b.input->0@ },
            )
        } else {
            prev
        }
    }
}

/// Reads a decoded response: the text blocks joined by newlines, and one
/// invocation per complete tool-use block, its identifier kept as it came.
/// Blocks of other types are passed over.
pub fn parse_response(
    blocks: &Vec<ResponseBlock>,
    model: String,
    input_tokens: usize,
    output_tokens: usize,
) -> (r: BackendResponse)
    ensures
        r.content@ == join(response_texts(blocks@), "\n"@),
        invocation_views(r.tool_calls@) == response_calls(blocks@),
        r.model == model,
        r.tokens_used == (if input_tokens + output_tokens <= usize::MAX {
            Some((input_tokens + output_tokens) as usize)
        } else {
            None::<usize>
        }),
{
    let mut content = String::new();
    let mut any = false;
    let mut calls: Vec<ToolInvocation> = Vec::new();
    let text_tag = "text".to_owned();
    let use_tag = "tool_use".to_owned();
    let mut i: usize = 0;
    while i < blocks.len()
        invariant
            i <= blocks.len(),
            text_tag@ == "text"@,
            use_tag@ == "tool_use"@,
            content@ == join(response_texts(blocks@.take(i as int)), "\n"@),
            any == (response_texts(blocks@.take(i as int)).len() > 0),
            invocation_views(calls@) == response_calls(blocks@.take(i as int)),
        decreases blocks.len() - i,
    {
        proof {
            assert(blocks@.take(i as int + 1).drop_last() =~= blocks@.take(i as int));
            reveal_strlit("text");
            reveal_strlit("tool_use");
            assert("text"@ != "tool_use"@) by {
                assert("text"@.len() != "tool_use"@.len());
            }
        }
        let b = &blocks[i];
        let ghost texts = response_texts(blocks@.take(i as int));
        if b.content_type == text_tag {
            match &b.text {
                Some(t) => {
                    if any {
                        push_str(&mut content, "\n");
                    }
                    push_str(&mut content, t.as_str());
                    any = true;
                    proof {
                        lemma_join_push(texts, "\n"@, t@);
                    }
                },
                None => {},
            }
        } else if b.content_type == use_tag {
            match (&b.id, &b.name, &b.input) {
                (Some(id), Some(name), Some(input)) => {
                    let ghost before = invocation_views(calls@);
                    calls.push(
                        ToolInvocation {
                            call_id: id.clone(),
                            tool_name: name.clone(),
                            arguments: clone_args(input),
                        },
                    );
                    assert(invocation_views(calls@) =~= before.push(calls@.last()@));
                },
                _ => {},
            }
        }
        i += 1;
    }
    assert(blocks@.take(blocks.len() as int) =~= blocks@);
    BackendResponse { content, model, tokens_used: input_tokens.checked_add(output_tokens), tool_calls: calls }
}

/// How a call to the provider failed.
#[derive(PartialEq, Eq, Debug)]
pub enum TransportError {
    AccessDenied(String),
    InternalServer(String),
    ModelNotReady(String),
    ModelTimeout(String),
    ResourceNotFound(String),
    ServiceQuotaExceeded(String),
    Throttling(String),
    Validation(String),
    UnknownService(String),
    Construction(String),
    Dispatch(String),
    Response(String),
    Timeout(String),
    Unknown(String),
}

/// Whether a failure may pass if the call is made again: throttling,
/// timeouts, server errors, a model still loading, a lost connection.
pub open spec fn transient(e: TransportError) -> bool {
    match e {
        TransportError::InternalServer(_) => true,
        TransportError::ModelNotReady(_) => true,
        TransportError::ModelTimeout(_) => true,
        TransportError::Throttling(_) => true,
        TransportError::Dispatch(_) => true,
        TransportError::Timeout(_) => true,
        _ => false,
    }
}

/// The label and the detail of a transport error.
pub open spec fn error_parts(e: TransportError) -> (Seq<char>, Seq<char>) {
    match e {
        TransportError::AccessDenied(d) => ("Access denied: "@, d@),
        TransportError::InternalServer(d) => ("Internal server error: "@, d@),
        TransportError::ModelNotReady(d) => ("Model not ready: "@, d@),
        TransportError::ModelTimeout(d) => ("Model timeout: "@, d@),
        TransportError::ResourceNotFound(d) => ("Resource not found: "@, d@),
        TransportError::ServiceQuotaExceeded(d) => ("Service quota exceeded: "@, d@),
        TransportError::Throttling(d) => ("Throttling error: "@, d@),
        TransportError::Validation(d) => ("Validation error: "@, d@),
        TransportError::UnknownService(d) => ("Unknown service error: "@, d@),
        TransportError::Construction(d) => ("Construction failure: "@, d@),
        TransportError::Dispatch(d) => ("Dispatch failure: "@, d@),
        TransportError::Response(d) => ("Response error: "@, d@),
        TransportError::Timeout(d) => ("Timeout error: "@, d@),
        TransportError::Unknown(d) => ("Unknown error: "@, d@),
    }
}

impl TransportError {
    /// Whether the call may be made again.
    pub fn is_transient(&self) -> (r: bool)
        ensures
            r == transient(*self),
    {
        match self {
            TransportError::InternalServer(_) => true,
            TransportError::ModelNotReady(_) => true,
            TransportError::ModelTimeout(_) => true,
            TransportError::Throttling(_) => true,
            TransportError::Dispatch(_) => true,
            TransportError::Timeout(_) => true,
            _ => false,
        }
    }

    /// The error as one line of text.
    pub fn message(&self) -> (r: String)
        ensures
            r@ == error_parts(*self).0 + error_parts(*self).1,
    {
        let (label, detail) = match self {
            TransportError::AccessDenied(d) => ("Access denied: ", d),
            TransportError::InternalServer(d) => ("Internal server error: ", d),
            TransportError::ModelNotReady(d) => ("Model not ready: ", d),
            TransportError::ModelTimeout(d) => ("Model timeout: ", d),
            TransportError::ResourceNotFound(d) => ("Resource not found: ", d),
            TransportError::ServiceQuotaExceeded(d) => ("Service quota exceeded: ", d),
            TransportError::Throttling(d) => ("Throttling error: ", d),
            TransportError::Validation(d) => ("Validation error: ", d),
            TransportError::UnknownService(d) => ("Unknown service error: ", d),
            TransportError::Construction(d) => ("Construction failure: ", d),
            TransportError::Dispatch(d) => ("Dispatch failure: ", d),
            TransportError::Response(d) => ("Response error: ", d),
            TransportError::Timeout(d) => ("Timeout error: ", d),
            TransportError::Unknown(d) => ("Unknown error: ", d),
        };
        let mut s = label.to_owned();
        push_str(&mut s, detail.as_str());
        s
    }
}

/// What to do after a failed call.
#[derive(PartialEq, Eq, Structural, Debug)]
pub enum RetryDecision {
    /// Wait this many milliseconds, then call again.
    Retry { delay_ms: u64 },
    /// Give up and report the failure.
    GiveUp,
}

/// The wait before retry number `n`: 100 ms doubled `n` times.
pub open spec fn backoff_ms(n: nat) -> int
    decreases n,
{
    if n == 0 {
        100
    } else {
        2 * backoff_ms((n - 1) as nat)
    }
}

/// Decides what follows the `failures`-th failed call in a row, with at
/// most `max_retries` retries: a transient failure is retried after an
/// exponential backoff while retries are left; any other failure ends the
/// call at once.
pub fn retry_decision(max_retries: usize, failures: usize, e: &TransportError) -> (r: RetryDecision)
    requires
        failures >= 1,
    ensures
        !transient(*e) || failures > max_retries ==> r == RetryDecision::GiveUp,
        transient(*e) && failures <= max_retries ==> r == (RetryDecision::Retry {
            delay_ms: if backoff_ms(failures as nat) <= u64::MAX {
                backoff_ms(failures as nat) as u64
            } else {
                u64::MAX
            },
        }),
{
    if !e.is_transient() || failures > max_retries {
        return RetryDecision::GiveUp;
    }
    let mut d: u64 = 100;
    let mut k: usize = 0;
    while k < failures
        invariant
            k <= failures,
            d == (if backoff_ms(k as nat) <= u64::MAX {
                backoff_ms(k as nat) as u64
            } else {
                u64::MAX
            }),
            backoff_ms(k as nat) >= 100,
        decreases failures - k,
    {
        d = if d > u64::MAX / 2 {
            u64::MAX
        } else {
            d * 2
        };
        k += 1;
    }
    RetryDecision::Retry { delay_ms: d }
}

/// The models the backend can use.
#[derive(PartialEq, Eq, Structural, Clone, Copy, Debug)]
pub enum BedrockModel {
    /// The main model, for conversation.
    Sonnet,
    /// The fast model, for summaries.
    Haiku,
}

/// Settings of the backend. Temperatures are in hundredths; the model
/// identifiers are the provider's names of the main and the fast model.
pub struct BedrockConfig {
    pub region: String,
    pub sonnet_model_id: String,
    pub haiku_model_id: String,
    pub sonnet_token_limit: usize,
    pub haiku_token_limit: usize,
    pub sonnet_temperature: u64,
    pub haiku_temperature: u64,
    pub max_tokens: u64,
    pub use_profile: bool,
    pub profile_name: Option<String>,
    pub max_retries: usize,
}

/// `c` holds the default settings.
pub open spec fn is_default_config(c: BedrockConfig) -> bool {
    &&& c.region@ == "us-west-2"@
    &&& c.sonnet_model_id@.len() == 0
    &&& c.haiku_model_id@.len() == 0
    &&& c.sonnet_token_limit == 28000
    &&& c.haiku_token_limit == 28000
    &&& c.sonnet_temperature == 70
    &&& c.haiku_temperature == 30
    &&& c.max_tokens == 4096
    &&& c.use_profile
    &&& c.profile_name is None
    &&& c.max_retries == 3
}

impl BedrockConfig {
    /// Region us-west-2, no model identifiers yet, 28000-token contexts,
    /// temperatures 0.70 and 0.30, 4096 output tokens, the default profile,
    /// and three retries.
    pub fn default_config() -> (r: Self)
        ensures
            is_default_config(r),
    {
        BedrockConfig {
            region: "us-west-2".to_owned(),
            sonnet_model_id: String::new(),
            haiku_model_id: String::new(),
            sonnet_token_limit: 28000,
            haiku_token_limit: 28000,
            sonnet_temperature: 70,
            haiku_temperature: 30,
            max_tokens: 4096,
            use_profile: true,
            profile_name: None,
            max_retries: 3,
        }
    }
}

/// The settings of the backend and the model in use. The connection to the
/// provider is held by the caller.
pub struct BedrockBackend {
    config: BedrockConfig,
    current_model: BedrockModel,
}

impl BedrockBackend {
    /// The default settings, with the main model.
    pub fn new() -> (r: Self)
        ensures
            r.model() == BedrockModel::Sonnet,
            is_default_config(r.settings()),
    {
        BedrockBackend { config: BedrockConfig::default_config(), current_model: BedrockModel::Sonnet }
    }

    /// The given settings, with the main model.
    pub fn with_config(config: BedrockConfig) -> (r: Self)
        ensures
            r.model() == BedrockModel::Sonnet,
            r.settings() == config,
    {
        BedrockBackend { config, current_model: BedrockModel::Sonnet }
    }

    /// The model in use.
    pub closed spec fn model(&self) -> BedrockModel {
        self.current_model
    }

    /// The settings.
    pub closed spec fn settings(&self) -> BedrockConfig {
        self.config
    }

    /// The settings.
    pub fn config(&self) -> (r: &BedrockConfig)
        ensures
            *r == self.settings(),
    {
        &self.config
    }

    /// The model in use.
    pub fn current_model(&self) -> (r: BedrockModel)
        ensures
            r == self.model(),
    {
        self.current_model
    }

    /// Uses `model` from now on.
    pub fn switch_model(&mut self, model: BedrockModel)
        ensures
            final(self).model() == model,
            final(self).settings() == old(self).settings(),
    {
        self.current_model = model;
    }

    /// The context size of the model in use.
    pub fn current_model_token_limit(&self) -> (r: usize)
        ensures
            r == match self.model() {
                BedrockModel::Sonnet => self.settings().sonnet_token_limit,
                BedrockModel::Haiku => self.settings().haiku_token_limit,
            },
    {
        match self.current_model {
            BedrockModel::Sonnet => self.config.sonnet_token_limit,
            BedrockModel::Haiku => self.config.haiku_token_limit,
        }
    }

    /// The temperature of the model in use, in hundredths.
    pub fn current_model_temperature(&self) -> (r: u64)
        ensures
            r == match self.model() {
                BedrockModel::Sonnet => self.settings().sonnet_temperature,
                BedrockModel::Haiku => self.settings().haiku_temperature,
            },
    {
        match self.current_model {
            BedrockModel::Sonnet => self.config.sonnet_temperature,
            BedrockModel::Haiku => self.config.haiku_temperature,
        }
    }

    /// The provider's identifier of the model in use.
    pub fn current_model_name(&self) -> (r: &str)
        ensures
            r@ == match self.model() {
                BedrockModel::Sonnet => self.settings().sonnet_model_id@,
                BedrockModel::Haiku => self.settings().haiku_model_id@,
            },
    {
        match self.current_model {
            BedrockModel::Sonnet => self.config.sonnet_model_id.as_str(),
            BedrockModel::Haiku => self.config.haiku_model_id.as_str(),
        }
    }

    /// The context size of the model in use.
    pub open spec fn current_model_token_limit_spec(&self) -> usize {
        match self.model() {
            BedrockModel::Sonnet => self.settings().sonnet_token_limit,
            BedrockModel::Haiku => self.settings().haiku_token_limit,
        }
    }
}


/// What every model backend tells about itself.
pub trait BackendCore {
    /// The context size of the model in use.
    spec fn spec_context_window(&self) -> usize;

    /// The backend's name.
    spec fn spec_name(&self) -> Seq<char>;

    /// The backend's name.
    fn name(&self) -> (r: &'static str)
        ensures
            r@ == self.spec_name(),
    ;

    /// The context size of the model in use.
    fn context_window(&self) -> (r: usize)
        ensures
            r == self.spec_context_window(),
    ;
}

impl BackendCore for BedrockBackend {
    open spec fn spec_context_window(&self) -> usize {
        self.current_model_token_limit_spec()
    }

    open spec fn spec_name(&self) -> Seq<char> {
        "AWS Bedrock"@
    }

    fn name(&self) -> (r: &'static str) {
        "AWS Bedrock"
    }

    fn context_window(&self) -> (r: usize) {
        self.current_model_token_limit()
    }
}

} // verus!

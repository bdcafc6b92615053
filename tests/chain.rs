use gamecode::agent::{AgentConfig, AgentManager};
use gamecode::backend::BackendResponse;
use gamecode::chain::{ChainPhase, ChainStep, ToolChain, ToolChainConfig, ToolOutput};
use gamecode::conversation::{ContextManager, MessageRole, ToolInvocation};
use gamecode::tools::ListDirectoryTool;

fn completion(text: &str, calls: Vec<ToolInvocation>) -> BackendResponse {
    BackendResponse { content: text.to_string(), model: "m".to_string(), tokens_used: None, tool_calls: calls }
}

fn call(id: &str, name: &str) -> ToolInvocation {
    ToolInvocation { call_id: id.to_string(), tool_name: name.to_string(), arguments: vec![] }
}

#[test]
fn end_to_end_list_files() {
    let mut agent = AgentManager::with_config(AgentConfig::default_config());
    agent.register_tool(&ListDirectoryTool);
    agent.set_working_directory("/work");
    assert_eq!(
        agent.process_input("list files", ToolChainConfig::default_config()).err(),
        Some("Backend not initialized. Call init() first.".to_string())
    );
    assert_eq!(agent.context_manager().messages().len(), 1);
    let settings = agent.backend_settings();
    agent.mark_initialized(settings);
    let mut chain = agent.process_input("list files", ToolChainConfig::default_config()).unwrap();
    let step = agent.on_completion(&mut chain, completion("Let me look.", vec![call("a1", "list_directory")]));
    let calls = match step {
        ChainStep::Execute(calls) => calls,
        _ => panic!("expected tool calls"),
    };
    assert_eq!(calls.len(), 1);
    let action = agent.plan_call(&calls[0]).unwrap();
    match action {
        gamecode::actions::ToolAction::ListDirectory { ref path } => assert_eq!(path, "/work"),
        _ => panic!("expected a listing"),
    }
    let entries = vec![gamecode::actions::DirEntry { name: "src".to_string(), kind: gamecode::actions::EntryKind::Dir }];
    let (text, names) = gamecode::actions::format_listing("/work", &entries);
    assert_eq!(text, "Contents of /work:\nsrc (dir)\n");
    let step = agent.on_tool_outcomes(&mut chain, vec![Ok(ToolOutput::Listing { text, names })]);
    assert!(matches!(step, ChainStep::Solicit { delay_ms: 200 }));
    let body = agent.request();
    assert!(body.contains("\"tool_use_id\":\"a1\""));
    let step = agent.on_completion(&mut chain, completion("There is a src directory.", vec![]));
    assert!(matches!(step, ChainStep::Done));
    let response = chain.finish();
    assert_eq!(response.content, "Let me look.\n\nThere is a src directory.");
    assert_eq!(response.tool_results.len(), 1);
    assert_eq!(response.tool_results[0].tool_call_id.as_deref(), Some("a1"));
    assert_eq!(response.tool_results[0].tool_name, "list_directory");
}

#[test]
fn depth_limit_drops_remaining_calls() {
    let mut ctx = ContextManager::new();
    let mut chain = ToolChain::begin(ToolChainConfig::single_round(), &mut ctx, "go");
    let step = chain.on_completion(&mut ctx, completion("a", vec![call("x1", "echo")]));
    assert!(matches!(step, ChainStep::Execute(_)));
    let step = chain.on_tool_outcomes(&mut ctx, vec![Err("boom".to_string())]);
    assert!(matches!(step, ChainStep::Solicit { delay_ms: 0 }));
    assert_eq!(chain.follow_ups(), 1);
    let step = chain.on_completion(&mut ctx, completion("b", vec![call("x2", "echo"), call("x3", "read_file")]));
    assert!(matches!(step, ChainStep::Done));
    assert_eq!(chain.current_phase(), ChainPhase::Done);
    assert_eq!(chain.follow_ups(), 1);
    assert_eq!(chain.dropped_calls(), &vec!["echo".to_string(), "read_file".to_string()]);
    let response = chain.finish();
    assert_eq!(response.tool_results.len(), 1);
    assert_eq!(response.tool_results[0].result, "Error: boom");
    assert_eq!(response.tool_results[0].tool_call_id.as_deref(), Some("x1"));
}

#[test]
fn results_keep_identifiers_exactly() {
    let mut ctx = ContextManager::new();
    let mut chain = ToolChain::begin(ToolChainConfig::default_config(), &mut ctx, "go");
    let odd = "toolu_01 \u{e9}\"x\" ";
    chain.on_completion(&mut ctx, completion("", vec![call(odd, "echo"), call("B", "echo")]));
    chain.on_tool_outcomes(
        &mut ctx,
        vec![Ok(ToolOutput::Text("1".to_string())), Ok(ToolOutput::Text("2".to_string()))],
    );
    let last = ctx.messages().last().unwrap();
    assert_eq!(last.role, MessageRole::Tool);
    assert_eq!(last.results[0].call_id, odd);
    assert_eq!(last.results[1].call_id, "B");
    let response = chain.finish();
    assert_eq!(response.tool_results[0].tool_call_id.as_deref(), Some(odd));
}

#[test]
fn exchange_without_tools_is_done_at_once() {
    let mut ctx = ContextManager::new();
    let mut chain = ToolChain::begin(ToolChainConfig::default_config(), &mut ctx, "hello");
    let step = chain.on_completion(&mut ctx, completion("hi there", vec![]));
    assert!(matches!(step, ChainStep::Done));
    assert_eq!(ctx.messages().len(), 3);
    assert_eq!(chain.finish().content, "hi there");
}

#[test]
fn compaction_prompt_and_summary() {
    let mut config = AgentConfig::default_config();
    config.max_context_length = 3;
    let mut agent = AgentManager::with_config(config);
    let settings = agent.backend_settings();
    assert_eq!(settings.region, "us-east-1");
    agent.mark_initialized(settings);
    let _chain = agent.process_input("one two three four", ToolChainConfig::default_config()).unwrap();
    assert!(agent.needs_compaction());
    let (prompt, model) = agent.begin_compaction();
    assert!(prompt.starts_with("Please summarize the following conversation"));
    assert!(prompt.contains("<user>\none two three four\n</user>"));
    assert_eq!(agent.backend().current_model(), gamecode::backend::BedrockModel::Haiku);
    agent.apply_summary("short", model);
    assert_eq!(agent.backend().current_model(), gamecode::backend::BedrockModel::Sonnet);
    assert_eq!(agent.context_manager().messages()[1].content, "Summary of previous conversation:\nshort\n");
}

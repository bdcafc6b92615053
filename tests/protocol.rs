use gamecode::backend::{parse_response, BackendCore, retry_decision, BedrockBackend, BedrockModel, ResponseBlock, RetryDecision, TransportError};
use gamecode::conversation::{ArgValue, ContextManager, ToolArg};
use gamecode::json::quote;
use gamecode::protocol::build_request;
use gamecode::registry::ToolRegistry;
use gamecode::tools::EchoTool;

fn text_block(t: &str) -> ResponseBlock {
    ResponseBlock { content_type: "text".to_string(), text: Some(t.to_string()), id: None, name: None, input: None }
}

#[test]
fn quote_escapes_like_json() {
    assert_eq!(quote("plain"), "\"plain\"");
    assert_eq!(quote("a\"b\\c\nd\te\u{1}"), "\"a\\\"b\\\\c\\nd\\te\\u0001\"");
    assert_eq!(quote(""), "\"\"");
}

#[test]
fn request_body_is_the_expected_json() {
    let mut ctx = ContextManager::new();
    ctx.add_user_message("hi");
    let mut tools = ToolRegistry::new();
    tools.register_tool(&EchoTool);
    let body = build_request(&ctx, &tools, 4096, 70);
    let expected = [
        "{\"messages\":[{\"role\":\"user\",\"content\":[{\"type\":\"text\",\"text\":\"hi\"}]}],",
        "\"system\":\"You are a helpful assistant with access to tools that can run on the user's computer. Respond to the user's queries directly when possible, and use tools when appropriate to complete tasks.\",",
        "\"max_tokens\":4096,\"temperature\":0.70,",
        "\"tools\":[{\"name\":\"echo\",\"description\":\"Echoes back the input text\",\"input_schema\":{\"type\":\"object\",\"properties\":{\"text\":{\"type\":\"string\",\"description\":\"The text to echo back\"}},\"required\":[\"text\"]}}],",
        "\"tool_choice\":{\"type\":\"auto\"},\"anthropic_version\":\"bedrock-2023-05-31\"}",
    ]
    .join("");
    assert_eq!(body, expected);
    let parsed: serde_json::Value = serde_json::from_str(&body).unwrap();
    assert_eq!(parsed["temperature"].as_f64(), Some(0.7));
}

#[test]
fn request_with_tool_round_trip_is_valid_json() {
    let mut ctx = ContextManager::new();
    ctx.add_user_message("list");
    ctx.add_assistant_turn(
        "",
        vec![gamecode::conversation::ToolInvocation {
            call_id: "toolu_\"01".to_string(),
            tool_name: "list_directory".to_string(),
            arguments: vec![
                ToolArg { key: "path".to_string(), value: ArgValue::Text("src".to_string()) },
                ToolArg { key: "depth".to_string(), value: ArgValue::Json("2".to_string()) },
            ],
        }],
    );
    ctx.add_tool_results(&[gamecode::conversation::ToolResult {
        tool_name: "list_directory".to_string(),
        result: "Contents of src:\nmain.rs (file)\n".to_string(),
        tool_call_id: Some("toolu_\"01".to_string()),
        listing: Some(vec!["main.rs".to_string()]),
    }]);
    let tools = ToolRegistry::new();
    let body = build_request(&ctx, &tools, 10, 5);
    let v: serde_json::Value = serde_json::from_str(&body).unwrap();
    let msgs = v["messages"].as_array().unwrap();
    assert_eq!(msgs.len(), 3);
    assert_eq!(msgs[1]["content"][0]["type"], "tool_use");
    assert_eq!(msgs[1]["content"][0]["id"], "toolu_\"01");
    assert_eq!(msgs[1]["content"][0]["input"]["depth"], 2);
    assert_eq!(msgs[2]["content"][0]["tool_use_id"], "toolu_\"01");
    assert_eq!(msgs[2]["content"][0]["content"][0]["text"], "main.rs");
    assert_eq!(v["temperature"].as_f64(), Some(0.05));
}

#[test]
fn response_text_and_calls_are_read() {
    let blocks = vec![
        text_block("first"),
        ResponseBlock {
            content_type: "tool_use".to_string(),
            text: None,
            id: Some(" a1 ".to_string()),
            name: Some("list_directory".to_string()),
            input: Some(vec![]),
        },
        ResponseBlock { content_type: "thinking".to_string(), text: Some("hidden".to_string()), id: None, name: None, input: None },
        ResponseBlock { content_type: "tool_use".to_string(), text: None, id: None, name: Some("echo".to_string()), input: Some(vec![]) },
        text_block("second"),
    ];
    let r = parse_response(&blocks, "m".to_string(), 3, 4);
    assert_eq!(r.content, "first\nsecond");
    assert_eq!(r.tool_calls.len(), 1);
    assert_eq!(r.tool_calls[0].call_id, " a1 ");
    assert_eq!(r.tool_calls[0].tool_name, "list_directory");
    assert_eq!(r.model, "m");
    assert_eq!(r.tokens_used, Some(7));
    assert_eq!(parse_response(&vec![], "m".to_string(), usize::MAX, 1).tokens_used, None);
}

#[test]
fn transient_failures_are_retried_with_backoff() {
    let e = TransportError::Throttling("slow down".to_string());
    assert_eq!(retry_decision(3, 1, &e), RetryDecision::Retry { delay_ms: 200 });
    assert_eq!(retry_decision(3, 2, &e), RetryDecision::Retry { delay_ms: 400 });
    assert_eq!(retry_decision(3, 3, &e), RetryDecision::Retry { delay_ms: 800 });
    assert_eq!(retry_decision(3, 4, &e), RetryDecision::GiveUp);
    assert_eq!(retry_decision(200, 100, &e), RetryDecision::Retry { delay_ms: u64::MAX });
}

#[test]
fn permanent_failures_are_not_retried() {
    let e = TransportError::AccessDenied("no".to_string());
    assert_eq!(retry_decision(3, 1, &e), RetryDecision::GiveUp);
    assert!(!TransportError::Validation("x".to_string()).is_transient());
    assert!(TransportError::ModelNotReady("x".to_string()).is_transient());
    assert_eq!(e.message(), "Access denied: no");
}

#[test]
fn backend_settings_follow_the_model() {
    let mut b = BedrockBackend::new();
    assert_eq!(b.current_model(), BedrockModel::Sonnet);
    assert_eq!(b.current_model_temperature(), 70);
    assert_eq!(b.current_model_name(), "");
    b.switch_model(BedrockModel::Haiku);
    assert_eq!(b.current_model_temperature(), 30);
    let mut config = gamecode::backend::BedrockConfig::default_config();
    config.haiku_model_id = "fast-model".to_string();
    let mut c = BedrockBackend::with_config(config);
    c.switch_model(BedrockModel::Haiku);
    assert_eq!(c.current_model_name(), "fast-model");
    assert_eq!(b.context_window(), 28000);
    assert_eq!(b.name(), "AWS Bedrock");
}

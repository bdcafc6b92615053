use gamecode::conversation::{
    ArgValue, ContextManager, MessageRole, ToolArg, ToolInvocation, ToolResult,
};
use gamecode::text::count_words;
use gamecode::wire::{render_window, ContentBlock, WireRole};

fn call(id: &str, name: &str) -> ToolInvocation {
    ToolInvocation {
        call_id: id.to_string(),
        tool_name: name.to_string(),
        arguments: vec![ToolArg { key: "path".to_string(), value: ArgValue::Text(".".to_string()) }],
    }
}

fn result(id: Option<&str>, name: &str, text: &str) -> ToolResult {
    ToolResult {
        tool_name: name.to_string(),
        result: text.to_string(),
        tool_call_id: id.map(|s| s.to_string()),
        listing: None,
    }
}

#[test]
fn round_trip_render_keeps_turns_in_order() {
    let mut ctx = ContextManager::new();
    ctx.add_user_message("hi");
    ctx.add_assistant_message("hello");
    let first = ctx.get_context();
    let user_at = first.find("<user>\nhi\n</user>\n\n").expect("user turn rendered");
    let assistant_at = first.find("<assistant>\nhello\n</assistant>\n\n").expect("assistant turn rendered");
    assert!(user_at < assistant_at);
    assert!(first.starts_with("<system>\nYou are a helpful assistant"));
    let second = ctx.get_context();
    assert_eq!(first, second);
}

#[test]
fn word_count_follows_split_whitespace() {
    assert_eq!(count_words(""), 0);
    assert_eq!(count_words("   "), 0);
    assert_eq!(count_words("one"), 1);
    assert_eq!(count_words("  two\twords\n"), 2);
    assert_eq!(count_words("a\u{a0}b\u{3000}c"), 3);
    let mut ctx = ContextManager::new();
    let start = ctx.context_length();
    ctx.add_user_message("list the files here");
    assert_eq!(ctx.context_length(), start + 4);
}

#[test]
fn tool_results_follow_their_invocations_in_order() {
    let mut ctx = ContextManager::new();
    ctx.add_user_message("go");
    ctx.add_assistant_turn("working", vec![call("a1", "read_file"), call("b2", "echo")]);
    ctx.add_tool_results(&[
        result(Some("b2"), "echo", "two"),
        result(None, "echo", "lost"),
        result(Some("zz"), "echo", "stray"),
        result(Some("a1"), "read_file", "one"),
    ]);
    let msgs = ctx.messages();
    assert_eq!(msgs.len(), 4);
    let turn = &msgs[3];
    assert_eq!(turn.role, MessageRole::Tool);
    assert_eq!(turn.results.len(), 2);
    assert_eq!(turn.results[0].call_id, "a1");
    assert_eq!(turn.results[0].content, "\"one\"");
    assert_eq!(turn.results[1].call_id, "b2");
    assert_eq!(turn.tool_name.as_deref(), Some("read_file"));
    assert_eq!(
        turn.content,
        "{\"type\": \"tool_result\", \"tool_use_id\": \"a1\", \"content\": \"one\"}\n{\"type\": \"tool_result\", \"tool_use_id\": \"b2\", \"content\": \"two\"}"
    );
}

#[test]
fn tool_results_without_pending_calls_are_dropped() {
    let mut ctx = ContextManager::new();
    ctx.add_user_message("go");
    let before = ctx.context_length();
    ctx.add_tool_results(&[result(Some("a1"), "echo", "x y")]);
    assert_eq!(ctx.messages().len(), 2);
    assert_eq!(ctx.context_length(), before);
}

#[test]
fn listing_results_become_text_blocks() {
    let mut ctx = ContextManager::new();
    ctx.add_assistant_turn("", vec![call("a1", "list_directory")]);
    ctx.add_tool_results(&[ToolResult {
        tool_name: "list_directory".to_string(),
        result: "Contents of /w:\nsrc (dir)\n".to_string(),
        tool_call_id: Some("a1".to_string()),
        listing: Some(vec!["src".to_string(), "a\"b".to_string()]),
    }]);
    let turn = &ctx.messages()[2];
    assert_eq!(
        turn.results[0].content,
        "[{\"text\":\"src\",\"type\":\"text\"},{\"text\":\"a\\\"b\",\"type\":\"text\"}]"
    );
}

#[test]
fn compaction_keeps_system_turns_summary_and_recent_turns() {
    let mut ctx = ContextManager::new();
    ctx.add_system_message("rules here");
    for i in 0..6 {
        ctx.add_user_message(&format!("question {}", i));
        ctx.add_assistant_message(&format!("answer {}", i));
    }
    ctx.replace_with_summary("they talked");
    let msgs = ctx.messages();
    assert_eq!(msgs.len(), 2 + 1 + 4);
    assert_eq!(msgs[0].role, MessageRole::System);
    assert!(msgs[0].content.starts_with("You are a helpful assistant"));
    assert_eq!(msgs[1].content, "rules here");
    assert_eq!(msgs[2].role, MessageRole::System);
    assert_eq!(msgs[2].content, "Summary of previous conversation:\nthey talked\n");
    assert_eq!(msgs[3].content, "question 4");
    assert_eq!(msgs[4].content, "answer 4");
    assert_eq!(msgs[5].content, "question 5");
    assert_eq!(msgs[6].content, "answer 5");
    let total: usize = msgs.iter().map(|m| m.content.split_whitespace().count()).sum();
    assert_eq!(ctx.context_length(), total);
}

#[test]
fn compaction_of_a_short_log_keeps_every_turn() {
    let mut ctx = ContextManager::new();
    ctx.add_user_message("hi");
    ctx.replace_with_summary("s");
    let msgs = ctx.messages();
    assert_eq!(msgs.len(), 3);
    assert_eq!(msgs[2].content, "hi");
}

#[test]
fn window_pairs_each_tool_use_with_its_result() {
    let mut ctx = ContextManager::new();
    ctx.add_user_message("go");
    ctx.add_assistant_turn("sure", vec![call("a1", "read_file"), call("b2", "echo")]);
    ctx.add_tool_results(&[result(Some("a1"), "read_file", "one"), result(Some("b2"), "echo", "two")]);
    ctx.add_assistant_turn("", vec![call("c3", "echo")]);
    let w = render_window(ctx.messages());
    assert_eq!(w.len(), 3);
    assert_eq!(w[0].role, WireRole::User);
    assert_eq!(w[1].role, WireRole::Assistant);
    assert_eq!(w[2].role, WireRole::User);
    let ids: Vec<String> = w[1]
        .content
        .iter()
        .filter_map(|b| match b {
            ContentBlock::ToolUse { id, .. } => Some(id.clone()),
            _ => None,
        })
        .collect();
    let answered: Vec<String> = w[2]
        .content
        .iter()
        .map(|b| match b {
            ContentBlock::ToolResult { tool_use_id, .. } => tool_use_id.clone(),
            _ => panic!("only results follow a tool use"),
        })
        .collect();
    assert_eq!(ids, vec!["a1".to_string(), "b2".to_string()]);
    assert_eq!(ids, answered);
}

#[test]
fn window_drops_results_cut_off_by_compaction() {
    let mut ctx = ContextManager::new();
    for i in 0..3 {
        ctx.add_user_message(&format!("q{}", i));
    }
    ctx.add_assistant_turn("", vec![call("a1", "echo")]);
    ctx.add_tool_results(&[result(Some("a1"), "echo", "x")]);
    ctx.add_user_message("u1");
    ctx.add_user_message("u2");
    ctx.add_user_message("u3");
    ctx.replace_with_summary("s");
    let w = render_window(ctx.messages());
    for m in &w {
        for b in &m.content {
            assert!(matches!(b, ContentBlock::Text { .. }));
        }
    }
    assert_eq!(w.len(), 3);
}

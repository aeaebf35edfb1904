use jcowork::logs::{build_llm_input, build_llm_output, truncate, ToolCallEntry, MAX_CONTENT_LEN};

#[test]
fn truncate_short_and_long() {
    assert_eq!(truncate("abc"), "abc");
    let long = "y".repeat(MAX_CONTENT_LEN + 5);
    assert_eq!(truncate(&long), format!("{}...", "y".repeat(MAX_CONTENT_LEN)));
    // 3-byte chars: 666 chars = 1998 bytes fit, the 667th would exceed
    let cn = "字".repeat(700);
    assert_eq!(truncate(&cn), format!("{}...", "字".repeat(666)));
}

#[test]
fn llm_input_summary() {
    let msgs = vec![
        ("system".to_string(), "sys".to_string()),
        ("user".to_string(), "first".to_string()),
        ("assistant".to_string(), "reply".to_string()),
        ("user".to_string(), "second".to_string()),
        ("tool".to_string(), "out".to_string()),
    ];
    let input = build_llm_input(&msgs);
    assert_eq!(input.message_count, 5);
    assert_eq!(input.last_user_message, "second");
    assert_eq!(input.messages[2].role, "assistant");
    assert_eq!(input.messages[2].content, "reply");
    let none = build_llm_input(&[("system".to_string(), "s".to_string())]);
    assert_eq!(none.last_user_message, "");
}

#[test]
fn llm_output_summary() {
    let out = build_llm_output("text", 2, vec!["a".to_string(), "b".to_string()], Some((1, 2, 3)));
    assert_eq!(out.content, "text");
    assert_eq!(out.tool_call_count, 2);
    assert_eq!(out.usage.total_tokens, 3);
    let out = build_llm_output("", 0, Vec::new(), None);
    assert_eq!(out.usage.prompt_tokens, 0);
}

#[test]
fn tool_call_entry_new() {
    let e = ToolCallEntry::new("u1", "shell");
    assert_eq!(e.user_id, "u1");
    assert_eq!(e.tool, "shell");
    assert_eq!(e.duration_ms, 0);
    assert!(e.input.is_empty() && e.output.is_empty());
}

#[test]
fn tool_call_entry_into_log_line() {
    let mut e = jcowork::logs::ToolCallEntry::new("u1", "web_search");
    e.duration_ms = 42;
    e.input = "{\"q\":\"x\"}".to_string();
    e.output = "y".repeat(2500);
    match e.into_log_entry("2026-01-01T00:00:00.000Z".to_string()) {
        jcowork::logs::LogEntry::ToolCall { timestamp, user_id, tool, duration_ms, input, output } => {
            assert_eq!(timestamp, "2026-01-01T00:00:00.000Z");
            assert_eq!(user_id, "u1");
            assert_eq!(tool, "web_search");
            assert_eq!(duration_ms, 42);
            assert_eq!(input, "{\"q\":\"x\"}");
            assert_eq!(output, format!("{}...", "y".repeat(2000)));
        },
        _ => panic!("expected a tool call line"),
    }
    let e2 = jcowork::logs::ToolCallEntry::new("u2", "shell");
    match e2.into_log_entry_with("t".to_string(), "ls", "a b", 7) {
        jcowork::logs::LogEntry::ToolCall { user_id, tool, duration_ms, input, output, .. } => {
            assert_eq!((user_id.as_str(), tool.as_str(), duration_ms), ("u2", "shell", 7));
            assert_eq!((input.as_str(), output.as_str()), ("ls", "a b"));
        },
        _ => panic!("expected a tool call line"),
    }
}

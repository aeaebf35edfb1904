use jcowork::llm::{ChatMessage, StreamChunk, ToolCall, Usage};
use jcowork::turn::{tools_status, AgentTurn, ToolStep, TurnPhase};

fn msg(role: &str, content: &str) -> ChatMessage {
    ChatMessage { role: role.to_string(), content: content.to_string(), tool_calls: None, tool_call_id: None, reasoning_content: None }
}

fn usage(p: i32, c: i32) -> Usage {
    Usage { prompt_tokens: p, completion_tokens: c, total_tokens: p + c }
}

#[test]
fn turn_without_tools_completes() {
    let mut t = AgentTurn::new(vec![msg("system", "sys"), msg("user", "hi")], None, 3);
    let h = t.begin_round().expect("first round");
    assert_eq!(h.len(), 2);
    assert_eq!(t.status_text("mock"), "\u{1f916} 正在调用 mock ...");
    assert_eq!(t.on_chunk(&StreamChunk::Delta("Hel".into())), Some("Hel".to_string()));
    assert_eq!(t.on_chunk(&StreamChunk::Delta("lo".into())), Some("lo".to_string()));
    assert_eq!(t.on_chunk(&StreamChunk::ReasoningDelta("think".into())), None);
    assert_eq!(t.on_chunk(&StreamChunk::Done(usage(3, 4))), None);
    let calls = t.end_stream();
    assert!(calls.is_empty());
    let (history, result) = t.finish();
    assert_eq!(history.len(), 3);
    assert_eq!(history[2].role, "assistant");
    assert_eq!(history[2].content, "Hello");
    assert_eq!(history[2].reasoning_content.as_deref(), Some("think"));
    assert!(history[2].tool_calls.is_none());
    assert_eq!(result.response, "Hello");
    assert_eq!(result.usage, Some((3, 4, 7)));
    assert_eq!(result.turns_used, 1);
    assert!(result.completed);
}

#[test]
fn tool_round_then_answer() {
    let pre = msg("user", "[Context] reminders");
    let mut t = AgentTurn::new(vec![msg("system", "sys"), msg("user", "find x")], Some(pre), 5);
    let h = t.begin_round().unwrap();
    assert_eq!(h.len(), 3);
    assert_eq!(h[1].content, "[Context] reminders");
    t.on_chunk(&StreamChunk::ToolCallDelta("c1".into(), "search".into(), "{\"q\":".into()));
    t.on_chunk(&StreamChunk::ToolCallDelta("c2".into(), "  ".into(), "{}".into()));
    t.on_chunk(&StreamChunk::ToolCallDelta("c1".into(), "".into(), "\"x\"}".into()));
    t.on_chunk(&StreamChunk::ToolCallDelta("c3".into(), "read".into(), " ".into()));
    let calls: Vec<ToolCall> = t.end_stream();
    assert_eq!(calls.len(), 3);
    assert_eq!(calls[0].id, "c1");
    assert_eq!(calls[0].kind, "function");
    assert_eq!(calls[0].function.name, "search");
    assert_eq!(calls[0].function.arguments, "{\"q\":\"x\"}");
    assert_eq!(tools_status(&calls), "\u{1f527} 正在执行工具: search, , read");
    match t.next_tool() {
        ToolStep::Dispatch(tc) => assert_eq!(tc.id, "c1"),
        _ => panic!("expected dispatch"),
    }
    assert_eq!(t.tool_finished(Ok("found".to_string())), "found");
    match t.next_tool() {
        ToolStep::Skipped(text) => assert_eq!(text, "Error: tool call had empty name, skipped"),
        _ => panic!("expected skip"),
    }
    match t.next_tool() {
        ToolStep::Skipped(text) => assert_eq!(text, "Error: tool call had empty arguments, skipped"),
        _ => panic!("expected skip"),
    }
    assert!(matches!(t.next_tool(), ToolStep::RoundDone));
    let h2 = t.begin_round().unwrap();
    assert_eq!(t.status_text("mock"), "\u{1f504} 工具调用完成，继续思考 (第2轮)...");
    // system, pre-context, user, assistant, three tool answers
    assert_eq!(h2.len(), 7);
    assert_eq!(h2[4].tool_call_id.as_deref(), Some("c1"));
    assert_eq!(h2[4].content, "found");
    t.on_chunk(&StreamChunk::Delta("done".into()));
    assert!(t.end_stream().is_empty());
    let (history, result) = t.finish();
    assert_eq!(history.len(), 7);
    assert_eq!(result.turns_used, 2);
    assert!(result.completed);
}

#[test]
fn tool_error_text_and_turn_limit() {
    let mut t = AgentTurn::new(vec![msg("system", "sys")], None, 1);
    t.begin_round().unwrap();
    t.on_chunk(&StreamChunk::ToolCallDelta("a".into(), "run".into(), "{}".into()));
    assert_eq!(t.end_stream().len(), 1);
    assert!(matches!(t.next_tool(), ToolStep::Dispatch(_)));
    assert_eq!(t.tool_finished(Err("Tool call timed out".to_string())), "Error: Tool call timed out");
    assert!(matches!(t.next_tool(), ToolStep::RoundDone));
    assert!(t.begin_round().is_none());
    let (_, result) = t.finish();
    assert!(!result.completed);
    assert_eq!(result.turns_used, 1);
    assert_eq!(result.response, "");
}

#[test]
fn stream_failure_keeps_partial_text() {
    let mut t = AgentTurn::new(vec![msg("system", "sys")], None, 2);
    t.begin_round().unwrap();
    t.on_chunk(&StreamChunk::Delta("partial".into()));
    t.stream_failed();
    let (history, result) = t.finish();
    assert_eq!(history.len(), 1);
    assert_eq!(result.response, "partial");
    assert!(!result.completed);
    let _ = TurnPhase::Ready;
}

use jcowork::agent::AgentOutput;
use jcowork::agent_loop::AgentRun;
use jcowork::llm::{ChatMessage, StreamChunk, Usage};

fn msg(role: &str, content: &str) -> ChatMessage {
    ChatMessage { role: role.to_string(), content: content.to_string(), tool_calls: None, tool_call_id: None, reasoning_content: None }
}

#[test]
fn run_sets_system_prompt_and_user_message() {
    let r = AgentRun::start(vec![], "SYS", "hello", 3);
    let c = r.conversation();
    assert_eq!(c.len(), 2);
    assert_eq!(c[0].role, "system");
    assert_eq!(c[0].content, "SYS");
    assert_eq!(c[1].content, "hello");
    let r2 = AgentRun::start(vec![msg("system", "old"), msg("user", "a"), msg("assistant", "b")], "NEW", "c", 3);
    let c2 = r2.conversation();
    assert_eq!(c2.len(), 4);
    assert_eq!(c2[0].content, "NEW");
    assert_eq!(c2[3].content, "c");
}

#[test]
fn run_with_tool_round() {
    let mut r = AgentRun::start(vec![], "SYS", "go", 5);
    assert!(r.begin_round().is_none());
    assert!(matches!(r.on_chunk(&StreamChunk::Delta("x".into())), Some(AgentOutput::TextDelta(t)) if t == "x"));
    assert!(matches!(
        r.on_chunk(&StreamChunk::ToolCallDelta("c1".into(), "search".into(), "{\"q\":".into())),
        Some(AgentOutput::ToolCallStart { name, call_id }) if name == "search" && call_id == "c1"
    ));
    // Later fragments keep the first name.
    r.on_chunk(&StreamChunk::ToolCallDelta("c1".into(), "other".into(), "1}".into()));
    let usage = Usage { prompt_tokens: 1, completion_tokens: 1, total_tokens: 2 };
    assert!(matches!(r.on_chunk(&StreamChunk::Done(usage)), Some(AgentOutput::Done { usage: u }) if u.total_tokens == 2));
    let calls = r.end_stream();
    assert_eq!(calls.len(), 1);
    assert_eq!(calls[0].function.name, "search");
    assert_eq!(calls[0].function.arguments, "{\"q\":1}");
    let tc = r.next_tool().unwrap();
    assert_eq!(tc.id, "c1");
    assert!(matches!(r.tool_finished(Err("boom".into())), AgentOutput::ToolCallEnd { name, result } if name == "search" && result == "Error: boom"));
    assert!(r.next_tool().is_none());
    assert!(r.begin_round().is_none());
    r.on_chunk(&StreamChunk::Delta("done".into()));
    assert!(r.end_stream().is_empty());
    let ms = r.into_messages();
    assert_eq!(ms.len(), 5);
    assert_eq!(ms[3].tool_call_id.as_deref(), Some("c1"));
    assert_eq!(ms[3].content, "Error: boom");
    assert_eq!(ms[4].content, "done");
}

#[test]
fn run_errors() {
    let mut r = AgentRun::start(vec![], "SYS", "go", 0);
    assert!(matches!(r.begin_round(), Some(AgentOutput::Error(m)) if m == "Max turns reached"));
    let mut r2 = AgentRun::start(vec![], "SYS", "go", 1);
    assert!(r2.begin_round().is_none());
    assert!(matches!(r2.stream_failed("eof"), AgentOutput::Error(m) if m == "Stream error: eof"));
    assert!(matches!(r2.call_failed("down"), AgentOutput::Error(m) if m == "LLM error: down"));
}

#[test]
fn run_compresses_a_long_conversation() {
    let mut history = vec![msg("system", "old")];
    for i in 0..10 {
        history.push(msg(if i % 2 == 0 { "user" } else { "assistant" }, &format!("m{}", i)));
    }
    let mut r = AgentRun::start(history, "SYS", "latest", 5);
    assert!(r.begin_round().is_none());
    r.compress(3, 6);
    let c = r.conversation();
    assert_eq!(c.len(), 10);
    assert_eq!(c[0].content, "SYS");
    assert_eq!(c[2].content, "m1");
    assert_eq!(c[3].role, "assistant");
    assert_eq!(c[3].content, "[Context compressed: 3 messages summarized. 9 messages preserved.]");
    assert_eq!(c[4].content, "m5");
    assert_eq!(c[9].content, "latest");
    r.compress(3, 6);
    assert_eq!(r.conversation().len(), 10);
}

use jcowork::llm::StreamChunk;
use jcowork::sse::{api_error_text, is_done_payload, ChoiceDelta, DeltaAssembler, SseFramer, StreamEvent, ToolCallFragment};

fn delta(content: Option<&str>) -> ChoiceDelta {
    ChoiceDelta { content: content.map(String::from), reasoning_content: None, tool_calls: None, finish_reason: None }
}

fn frag(index: i32, id: Option<&str>, name: Option<&str>, args: Option<&str>) -> ToolCallFragment {
    ToolCallFragment {
        index: Some(index),
        id: id.map(String::from),
        name: name.map(String::from),
        arguments: args.map(String::from),
    }
}

#[test]
fn framer_splits_events_across_chunks() {
    let mut f = SseFramer::new();
    assert!(f.push_text("data: {\"a\"").is_empty());
    assert_eq!(f.push_text(":1}\n\ndata:[DONE]\n\n"), vec!["{\"a\":1}".to_string(), "[DONE]".to_string()]);
    assert_eq!(f.push_bytes(b"event: x\r\ndata: one\r\ndata: two\n\n"), vec!["one".to_string(), "two".to_string()]);
    assert!(f.push_bytes(b": comment\n\n").is_empty());
}

#[test]
fn done_payload() {
    assert!(is_done_payload("[DONE]"));
    assert!(!is_done_payload("[DONE] "));
}

#[test]
fn text_reasoning_and_finish() {
    let mut a = DeltaAssembler::new();
    let ev = StreamEvent {
        choices: vec![ChoiceDelta {
            content: Some("Hi".into()),
            reasoning_content: Some("hmm".into()),
            tool_calls: None,
            finish_reason: Some("stop".into()),
        }],
        usage: Some((1, 2, 3)),
    };
    let out = a.on_event(&ev);
    assert_eq!(out.len(), 3);
    assert!(matches!(&out[0], StreamChunk::Delta(t) if t == "Hi"));
    assert!(matches!(&out[1], StreamChunk::ReasoningDelta(t) if t == "hmm"));
    assert!(matches!(&out[2], StreamChunk::Done(u) if u.prompt_tokens == 1 && u.total_tokens == 3));
    let ev2 = StreamEvent { choices: vec![ChoiceDelta { finish_reason: Some("length".into()), ..delta(None) }], usage: None };
    assert!(a.on_event(&ev2).is_empty());
}

#[test]
fn tool_calls_assembled_from_fragments() {
    let mut a = DeltaAssembler::new();
    let ev = |fs: Vec<ToolCallFragment>| StreamEvent {
        choices: vec![ChoiceDelta { content: None, reasoning_content: None, tool_calls: Some(fs), finish_reason: None }],
        usage: None,
    };
    // Arguments before the name are held back until the call has an id and a name.
    assert!(a.on_event(&ev(vec![frag(0, Some("call_1"), None, Some("{\"q\""))])).is_empty());
    let out = a.on_event(&ev(vec![frag(0, None, Some("search"), Some(":1}"))]));
    assert_eq!(out.len(), 1);
    assert!(matches!(&out[0], StreamChunk::ToolCallDelta(i, n, args) if i == "call_1" && n == "search" && args == "{\"q\":1}"));
    let out = a.on_event(&ev(vec![frag(0, Some(""), None, Some(" ")), frag(1, Some("call_2"), Some("read"), None)]));
    assert_eq!(out.len(), 1);
    assert!(matches!(&out[0], StreamChunk::ToolCallDelta(i, _, args) if i == "call_1" && args == " "));
    let out = a.on_event(&ev(vec![frag(1, None, None, Some("{}"))]));
    assert!(matches!(&out[0], StreamChunk::ToolCallDelta(i, n, args) if i == "call_2" && n == "read" && args == "{}"));
}

#[test]
fn api_errors_from_payloads() {
    assert_eq!(api_error_text("{\"error\":{\"message\":\"quota\"}}"), Some("API error: quota".to_string()));
    assert_eq!(api_error_text("{\"error\":{\"code\":1}}"), Some("API error: Unknown API error".to_string()));
    assert_eq!(api_error_text("{\"ok\":true}"), None);
    assert_eq!(api_error_text("garbage"), None);
}

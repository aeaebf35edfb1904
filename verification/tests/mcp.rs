use jcowork::connectors::parse_args;
use jcowork::mcp::parse_sse_response;

#[test]
fn test_parse_sse_response_single_event() {
    let body = "event: message\ndata: {\"jsonrpc\":\"2.0\",\"id\":1,\"result\":{\"tools\":[]}}\n\n";
    let msg: serde_json::Value = serde_json::from_str(&parse_sse_response(body).unwrap()).unwrap();
    assert_eq!(msg["id"], 1);
    assert!(msg["result"]["tools"].is_array());
}

#[test]
fn test_parse_sse_response_ignores_non_jsonrpc_data() {
    let body = "data: {\"hello\":1}\ndata: {\"jsonrpc\":\"2.0\",\"id\":2,\"result\":{}}\n";
    let msg: serde_json::Value = serde_json::from_str(&parse_sse_response(body).unwrap()).unwrap();
    assert_eq!(msg["id"], 2);
}

#[test]
fn test_parse_sse_response_no_message() {
    assert!(parse_sse_response("").is_none());
    assert!(parse_sse_response("event: ping\ndata: {}\n").is_none());
}

#[test]
fn sse_data_is_trimmed_and_crlf_tolerated() {
    let body = "  data:   {\"jsonrpc\":\"2.0\",\"id\":3}  \r\ndata: not json\r\n";
    assert_eq!(parse_sse_response(body), Some("{\"jsonrpc\":\"2.0\",\"id\":3}".to_string()));
    assert_eq!(parse_sse_response("data:\ndata: nope"), None);
}

#[test]
fn test_parse_args_variants() {
    let args = parse_args(r#"{"city": "sh", "n": 5, "flag": true}"#).unwrap();
    let get = |k: &str| args.iter().find(|(n, _)| n == k).map(|(_, v)| v.clone()).unwrap();
    assert_eq!(get("city"), "sh");
    assert_eq!(get("n"), "5");
    assert_eq!(get("flag"), "true");
    assert!(parse_args("").unwrap().is_empty());
    assert!(parse_args("not json").is_err());
    assert!(parse_args("[1,2]").is_err());
}

#[test]
fn parse_args_error_texts() {
    assert_eq!(parse_args("[1,2]"), Err("Tool arguments must be a JSON object".to_string()));
    assert!(parse_args("{").unwrap_err().starts_with("Invalid tool arguments JSON: "));
    assert!(parse_args("   ").unwrap().is_empty());
}

#[test]
fn test_extract_rpc_result_ok_and_error() {
    let ok = r#"{"jsonrpc": "2.0", "id": 5, "result": {"a": 1}}"#;
    let result: serde_json::Value = serde_json::from_str(&jcowork::mcp::extract_rpc_result(5, ok).unwrap()).unwrap();
    assert_eq!(result["a"], 1);

    let err = r#"{"jsonrpc": "2.0", "id": 5, "error": {"code": -1, "message": "boom"}}"#;
    let e = jcowork::mcp::extract_rpc_result(5, err).unwrap_err();
    assert!(e.contains("boom"));

    let mismatch = r#"{"jsonrpc": "2.0", "id": 6, "result": {}}"#;
    assert!(jcowork::mcp::extract_rpc_result(5, mismatch).is_err());
}

#[test]
fn mcp_client_test_extract_text() {
    let result = r#"{
        "content": [
            {"type": "text", "text": "hello"},
            {"type": "image", "data": "xxx"},
            {"type": "text", "text": "world"}
        ]
    }"#;
    assert_eq!(jcowork::mcp::extract_text(result), "hello\nworld");
    assert_eq!(jcowork::mcp::extract_text("{}"), "");
}

#[test]
fn rpc_result_details() {
    assert_eq!(jcowork::mcp::extract_rpc_result(1, r#"{"jsonrpc":"2.0","id":1}"#).unwrap(), "null");
    assert_eq!(
        jcowork::mcp::extract_rpc_result(1, r#"{"id":"x","result":1}"#).unwrap_err(),
        "MCP response id mismatch: expected 1, got \"x\""
    );
    assert_eq!(jcowork::mcp::extract_rpc_result(1, r#"{"error":{}}"#).unwrap_err(), "MCP error: unknown MCP error");
    assert_eq!(jcowork::mcp::extract_rpc_result(7, r#"{"result":[1,2]}"#).unwrap(), "[1,2]");
    assert_eq!(jcowork::mcp::extract_text(r#"{"content":"nope"}"#), "");
    assert_eq!(jcowork::mcp::extract_text(r#"{"content":[{"type":"text"},{"type":"text","text":"a"}]}"#), "a");
}

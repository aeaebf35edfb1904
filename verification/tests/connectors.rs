use jcowork::connectors::{
    global_tool_name, is_connector_tool, parse_global_tool_name, render_template, sanitize_tool_name,
    template_placeholders, to_tool_definitions, truncate_response, validate_api_tool, ApiToolDef, Connector,
    ConnectorToolInfo, McpConfig, MAX_RESPONSE_BYTES,
};

fn make_tool(url: &str, params: &str, body_template: Option<String>) -> ApiToolDef {
    ApiToolDef {
        name: "t".to_string(),
        description: "d".to_string(),
        method: "GET".to_string(),
        url: url.to_string(),
        headers: Vec::new(),
        params: params.to_string(),
        body_template,
        enabled: true,
    }
}

fn mcp(transport: &str, command: &str, url: &str) -> McpConfig {
    McpConfig {
        transport: transport.to_string(),
        command: command.to_string(),
        args: Vec::new(),
        env: Vec::new(),
        url: url.to_string(),
        headers: Vec::new(),
    }
}

#[test]
fn test_sanitize_tool_name() {
    assert_eq!(sanitize_tool_name("get_weather"), "get_weather");
    assert_eq!(sanitize_tool_name("search.docs"), "search_docs");
    assert_eq!(sanitize_tool_name("搜索"), "__");
    assert_eq!(sanitize_tool_name(""), "tool");
    assert_eq!(sanitize_tool_name("a-b_c9"), "a-b_c9");
}

#[test]
fn test_global_tool_name_roundtrip() {
    let id = "01234567-89ab-cdef-0123-456789abcdef";
    let global = global_tool_name(id, "get_weather");
    assert_eq!(global, "connector_01234567_get_weather");
    let (prefix, tool) = parse_global_tool_name(&global).unwrap();
    assert_eq!(prefix, "01234567");
    assert_eq!(tool, "get_weather");
}

#[test]
fn test_parse_global_tool_name_rejects_foreign_names() {
    assert!(parse_global_tool_name("shell").is_none());
    assert!(parse_global_tool_name("connector_short_x").is_none());
    assert!(parse_global_tool_name("connector_").is_none());
}

#[test]
fn parse_global_tool_name_counts_bytes_of_prefix() {
    // "测试ab" is 3 + 3 + 1 + 1 = 8 bytes
    assert_eq!(parse_global_tool_name("connector_测试ab_x"), Some(("测试ab", "x")));
    assert_eq!(global_tool_name("abc", "t t"), "connector_abc_t_t");
}

#[test]
fn test_is_connector_tool() {
    assert!(is_connector_tool("connector_abcd1234_foo"));
    assert!(!is_connector_tool("shell"));
    assert!(!is_connector_tool("connector_short_foo"));
}

#[test]
fn test_render_template_basic() {
    let args = vec![
        ("city".to_string(), "beijing".to_string()),
        ("day".to_string(), "3".to_string()),
    ];
    let out = render_template("https://x.com/w?city={{city}}&d={{day}}", &args).unwrap();
    assert_eq!(out, "https://x.com/w?city=beijing&d=3");
}

#[test]
fn test_render_template_missing_param() {
    let args = Vec::new();
    let err = render_template("https://x.com/{{q}}", &args).unwrap_err();
    assert!(err.contains("q"));
    assert_eq!(err, "Missing required parameter: q");
}

#[test]
fn test_render_template_no_placeholders() {
    let args = Vec::new();
    assert_eq!(render_template("https://x.com/plain", &args).unwrap(), "https://x.com/plain");
}

#[test]
fn render_template_keeps_unclosed_and_trims_keys() {
    let args = vec![("a".to_string(), "1".to_string())];
    assert_eq!(render_template("x{{ a }}y{{b", &args).unwrap(), "x1y{{b");
}

#[test]
fn test_template_placeholders() {
    let names = template_placeholders("{{a}}/x/{{ b }}/{{c}}");
    assert_eq!(names, vec!["a", "b", "c"]);
    assert!(template_placeholders("no placeholders").is_empty());
}

#[test]
fn test_truncate_response() {
    assert_eq!(truncate_response("short"), "short");
    let big = "x".repeat(MAX_RESPONSE_BYTES + 100);
    let out = truncate_response(&big);
    assert!(out.ends_with("... [truncated]"));
    assert!(out.len() <= MAX_RESPONSE_BYTES + 32);

    let cn = "测".repeat(MAX_RESPONSE_BYTES);
    let out = truncate_response(&cn);
    assert!(out.starts_with("测"));
    assert!(out.ends_with("... [truncated]"));
}

#[test]
fn truncate_response_exact_cut() {
    let big = "x".repeat(MAX_RESPONSE_BYTES + 1);
    let out = truncate_response(&big);
    assert_eq!(out, format!("{}\n... [truncated]", "x".repeat(MAX_RESPONSE_BYTES)));
    let exact = "x".repeat(MAX_RESPONSE_BYTES);
    assert_eq!(truncate_response(&exact), exact);
}

#[test]
fn test_mcp_config_validate() {
    let mut stdio_ok = mcp("stdio", "npx", "");
    stdio_ok.args = vec!["-y".to_string(), "server".to_string()];
    assert!(stdio_ok.validate().is_ok());
    assert!(mcp("stdio", "", "").validate().is_err());
    assert!(mcp("http", "", "ftp://x").validate().is_err());
    assert!(mcp("carrier-pigeon", "", "").validate().is_err());
}

#[test]
fn mcp_config_validate_messages() {
    assert_eq!(mcp("stdio", "   ", "").validate().unwrap_err(), "stdio transport requires a non-empty command");
    assert!(mcp("http", "", "https://h/mcp").validate().is_ok());
    assert_eq!(mcp("ws", "", "").validate().unwrap_err(), "unknown MCP transport: ws");
}

#[test]
fn test_validate_api_tool_ok() {
    let tool = make_tool(
        "https://x.com/w?city={{city}}",
        r#"{"type":"object","properties":{"city":{"type":"string"}},"required":["city"]}"#,
        None,
    );
    assert!(validate_api_tool(&tool).is_ok());
}

#[test]
fn test_validate_api_tool_undeclared_placeholder() {
    let tool = make_tool("https://x.com/w?city={{city}}", r#"{"type":"object"}"#, None);
    let err = validate_api_tool(&tool).unwrap_err();
    assert!(err.contains("city"));
    assert_eq!(err, "Placeholder '{{city}}' is not declared in the parameter schema");
}

#[test]
fn test_validate_api_tool_bad_url_and_empty_name() {
    let mut tool = make_tool("ftp://x", r#"{"type":"object"}"#, None);
    assert!(validate_api_tool(&tool).is_err());
    tool.url = "https://x.com".to_string();
    tool.name = "  ".to_string();
    assert!(validate_api_tool(&tool).is_err());
}

#[test]
fn test_validate_api_tool_body_template_placeholder() {
    let tool = make_tool(
        "https://x.com/post",
        r#"{"type":"object","properties":{"q":{"type":"string"}}}"#,
        Some(r#"{"query":"{{missing}}"}"#.to_string()),
    );
    let err = validate_api_tool(&tool).unwrap_err();
    assert!(err.contains("missing"));
}

#[test]
fn test_connector_tool_enabled_default() {
    let c = Connector::default();
    assert!(c.tool_enabled("anything"));
    let mut c = c;
    c.tool_states.push(("x".to_string(), false));
    assert!(!c.tool_enabled("x"));
}

#[test]
fn test_to_tool_definitions() {
    let infos = vec![ConnectorToolInfo {
        name: "echo".to_string(),
        description: "Echo".to_string(),
        parameters: r#"{"type": "object"}"#.to_string(),
        enabled: true,
    }];
    let defs = to_tool_definitions("abcd1234-0000", &infos);
    assert_eq!(defs.len(), 1);
    assert_eq!(defs[0].function.name, "connector_abcd1234_echo");
    assert_eq!(defs[0].kind, "function");
}

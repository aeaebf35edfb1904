use jcowork::connector_requests::{
    build_connector, check_request, merge_update, switch_tool, ApiConnectorConfig, ConnectorRequest, ParsedConfig,
    ToolSwitch,
};
use jcowork::connectors::{ApiToolDef, McpConfig};

fn tool(name: &str, url: &str) -> ApiToolDef {
    ApiToolDef {
        name: name.to_string(),
        description: "d".to_string(),
        method: "GET".to_string(),
        url: url.to_string(),
        headers: Vec::new(),
        params: r#"{"type":"object","properties":{"city":{"type":"string"}}}"#.to_string(),
        body_template: None,
        enabled: true,
    }
}

fn mcp(transport: &str, command: &str, url: &str) -> McpConfig {
    McpConfig {
        transport: transport.to_string(),
        command: command.to_string(),
        args: Vec::new(),
        env: Vec::new(),
        url: url.to_string(),
        headers: Vec::new(),
    }
}

fn request(name: &str, ctype: &str) -> ConnectorRequest {
    ConnectorRequest { name: name.to_string(), ctype: ctype.to_string(), description: "desc".to_string(), config: "{}".to_string() }
}

#[test]
fn request_checks() {
    assert_eq!(check_request("  ", "api", None).unwrap_err(), "Connector name must not be empty");
    assert_eq!(check_request("x", "grpc", None).unwrap_err(), "Unknown connector type: grpc");
    let bad = ParsedConfig::Api(Err("missing field `tools`".to_string()));
    assert_eq!(check_request("x", "api", Some(&bad)).unwrap_err(), "Invalid API connector config: missing field `tools`");
    let tools = ParsedConfig::Api(Ok(ApiConnectorConfig {
        tools: vec![tool("weather", "https://w.example/{{city}}"), tool("news", "ftp://n.example")],
    }));
    assert_eq!(check_request("x", "api", Some(&tools)).unwrap_err(), "Tool 'news': Tool URL must start with http:// or https://");
    let good = ParsedConfig::Api(Ok(ApiConnectorConfig { tools: vec![tool("weather", "https://w.example/{{city}}")] }));
    assert!(check_request("x", "api", Some(&good)).is_ok());
    let undeclared = ParsedConfig::Api(Ok(ApiConnectorConfig { tools: vec![tool("w", "https://w.example/{{zip}}")] }));
    assert_eq!(
        check_request("x", "api", Some(&undeclared)).unwrap_err(),
        "Tool 'w': Placeholder '{{zip}}' is not declared in the parameter schema"
    );
    let stdio = ParsedConfig::Mcp(Ok(mcp("stdio", "", "")));
    assert_eq!(check_request("x", "mcp", Some(&stdio)).unwrap_err(), "Invalid MCP config: stdio transport requires a non-empty command");
    let http = ParsedConfig::Mcp(Ok(mcp("http", "", "https://mcp.example")));
    assert!(check_request("x", "mcp", Some(&http)).is_ok());
    let unreadable = ParsedConfig::Mcp(Err("expected value".to_string()));
    assert_eq!(check_request("x", "mcp", Some(&unreadable)).unwrap_err(), "Invalid MCP config: expected value");
}

#[test]
fn build_and_merge() {
    let c = build_connector("u1", &request("  Weather  ", "api"), "{\"tools\":[]}".to_string());
    assert_eq!(c.name, "Weather");
    assert_eq!(c.user_id, "u1");
    assert!(c.enabled);
    assert!(c.id.is_empty());
    let mut existing = build_connector("u1", &request("Old", "mcp"), "{}".to_string());
    existing.enabled = false;
    existing.tool_states = vec![("search".to_string(), false)];
    let same_type = merge_update(build_connector("u1", &request("New", "mcp"), "{}".to_string()), &existing, "c1".to_string());
    assert_eq!(same_type.id, "c1");
    assert!(!same_type.enabled);
    assert_eq!(same_type.tool_states, vec![("search".to_string(), false)]);
    assert_eq!(same_type.name, "New");
    let other_type = merge_update(c, &existing, "c1".to_string());
    assert!(other_type.tool_states.is_empty());
    assert!(!other_type.enabled);
}

#[test]
fn switch_api_tool_changes_first_match_only() {
    let tools = vec![tool("a", "http://x"), tool("b", "http://y"), tool("b", "http://z")];
    match switch_tool("api", &tools, &Vec::new(), "b", false).unwrap() {
        ToolSwitch::Api(v) => {
            assert_eq!(v.len(), 3);
            assert!(v[0].enabled);
            assert!(!v[1].enabled);
            assert_eq!(v[1].url, "http://y");
            assert!(v[2].enabled);
        }
        ToolSwitch::Mcp(_) => panic!("expected API tools"),
    }
    assert_eq!(switch_tool("api", &tools, &Vec::new(), "missing", true).err().unwrap(), "Tool not found: missing");
}

#[test]
fn switch_mcp_tool_state_updates_or_adds() {
    let states = vec![("read".to_string(), false), ("write".to_string(), true)];
    match switch_tool("mcp", &Vec::new(), &states, "read", true).unwrap() {
        ToolSwitch::Mcp(v) => assert_eq!(v, vec![("read".to_string(), true), ("write".to_string(), true)]),
        ToolSwitch::Api(_) => panic!("expected tool states"),
    }
    match switch_tool("mcp", &Vec::new(), &states, "delete", false).unwrap() {
        ToolSwitch::Mcp(v) => assert_eq!(
            v,
            vec![("read".to_string(), false), ("write".to_string(), true), ("delete".to_string(), false)]
        ),
        ToolSwitch::Api(_) => panic!("expected tool states"),
    }
    assert_eq!(switch_tool("grpc", &Vec::new(), &states, "x", true).err().unwrap(), "Unknown connector type: grpc");
}

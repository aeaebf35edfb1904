use jcowork::connectors::{ApiToolDef, Connector};
use jcowork::sync::{desired_registry, ConnectorListing, ListedTool, ResolvedTool};
use jcowork::tool_calls::{check_tool_owner, dispatch_tool, ToolDispatch};

fn resolved(user: &str, ctype: &str, name: &str) -> ResolvedTool {
    ResolvedTool { user_id: user.to_string(), connector_id: "c1".to_string(), ctype: ctype.to_string(), original_name: name.to_string() }
}

fn connector(enabled: bool, states: Vec<(&str, bool)>) -> Connector {
    Connector {
        id: "c1".to_string(),
        user_id: "u1".to_string(),
        name: "Weather".to_string(),
        ctype: "api".to_string(),
        description: String::new(),
        config: "{}".to_string(),
        tool_states: states.into_iter().map(|(n, e)| (n.to_string(), e)).collect(),
        enabled,
        created_at: String::new(),
        updated_at: String::new(),
    }
}

fn connector_of(id: &str, user: &str) -> Connector {
    let mut c = connector(true, vec![]);
    c.id = id.to_string();
    c.user_id = user.to_string();
    c
}

fn tool(name: &str, enabled: bool) -> ApiToolDef {
    ApiToolDef {
        name: name.to_string(),
        description: "d".to_string(),
        method: "GET".to_string(),
        url: "https://w.example".to_string(),
        headers: Vec::new(),
        params: "{}".to_string(),
        body_template: None,
        enabled,
    }
}

#[test]
fn test_execute_tool_rejects_wrong_user() {
    let listings = vec![ConnectorListing {
        connector: connector_of("c9aaaaaaaa-bbbb-cccc-dddd-eeeeeeeeeeee", "u1"),
        tools: Some(vec![ListedTool {
            name: "my_tool".to_string(),
            enabled: true,
            description: "d".to_string(),
            parameters: "{}".to_string(),
        }]),
    }];
    let registry = desired_registry(&listings);
    let entry = registry.iter().find(|(n, _)| n == "connector_c9aaaaaa_my_tool").map(|(_, r)| r);
    assert!(entry.is_some());

    // Wrong user cannot execute even if the tool is registered
    let err = check_tool_owner(entry, "u2", "connector_c9aaaaaa_my_tool").unwrap_err();
    assert!(err.contains("another user"));
    assert!(check_tool_owner(entry, "u1", "connector_c9aaaaaa_my_tool").is_ok());
}

#[test]
fn api_tools_are_dispatched_when_enabled() {
    let tools = vec![tool("forecast", true), tool("alerts", false)];
    match dispatch_tool(&resolved("u1", "api", "forecast"), &connector(true, vec![]), &tools, "{}").unwrap() {
        ToolDispatch::Api(t) => assert_eq!(t.name, "forecast"),
        _ => panic!("expected an API tool"),
    }
    assert_eq!(
        dispatch_tool(&resolved("u1", "api", "alerts"), &connector(true, vec![]), &tools, "{}").unwrap_err(),
        "Tool 'alerts' is disabled"
    );
    assert_eq!(
        dispatch_tool(&resolved("u1", "api", "gone"), &connector(true, vec![]), &tools, "{}").unwrap_err(),
        "API tool 'gone' no longer exists"
    );
    assert_eq!(
        dispatch_tool(&resolved("u1", "api", "forecast"), &connector(false, vec![]), &tools, "{}").unwrap_err(),
        "Connector 'Weather' is disabled"
    );
}

#[test]
fn mcp_tools_get_json_arguments() {
    match dispatch_tool(&resolved("u1", "mcp", "search"), &connector(true, vec![]), &vec![], r#" {"q": "x"} "#).unwrap() {
        ToolDispatch::Mcp { tool, arguments } => {
            assert_eq!(tool, "search");
            assert_eq!(arguments, r#"{"q":"x"}"#);
        },
        _ => panic!("expected an MCP call"),
    }
    match dispatch_tool(&resolved("u1", "mcp", "search"), &connector(true, vec![]), &vec![], "  ").unwrap() {
        ToolDispatch::Mcp { arguments, .. } => assert_eq!(arguments, "{}"),
        _ => panic!("expected an MCP call"),
    }
    let bad = dispatch_tool(&resolved("u1", "mcp", "search"), &connector(true, vec![]), &vec![], "{oops").unwrap_err();
    assert!(bad.starts_with("Invalid tool arguments JSON: "));
    assert_eq!(
        dispatch_tool(&resolved("u1", "mcp", "search"), &connector(true, vec![("search", false)]), &vec![], "{}").unwrap_err(),
        "Tool 'search' is disabled"
    );
    assert_eq!(
        dispatch_tool(&resolved("u1", "grpc", "x"), &connector(true, vec![]), &vec![], "{}").unwrap_err(),
        "Unknown connector type: grpc"
    );
}

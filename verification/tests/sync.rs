use jcowork::connectors::Connector;
use jcowork::sync::{desired_registry, stale_tools, tool_details, ConnectorListing, ListedTool, ResolvedTool};

fn connector(id: &str, ctype: &str, states: Vec<(String, bool)>) -> Connector {
    Connector {
        id: id.to_string(),
        user_id: "u1".to_string(),
        name: "conn".to_string(),
        ctype: ctype.to_string(),
        description: String::new(),
        config: "{}".to_string(),
        tool_states: states,
        enabled: true,
        created_at: String::new(),
        updated_at: String::new(),
    }
}

fn tool(name: &str, enabled: bool) -> ListedTool {
    ListedTool {
        name: name.to_string(),
        enabled,
        description: format!("{} description", name),
        parameters: "{\"type\":\"object\",\"properties\":{}}".to_string(),
    }
}

fn names(v: &[(String, ResolvedTool)]) -> Vec<String> {
    v.iter().map(|(n, _)| n.clone()).collect()
}

#[test]
fn sync_registers_only_enabled_api_tools() {
    let listings = vec![ConnectorListing {
        connector: connector("c1aaaaaaaa-bbbb-cccc-dddd-eeeeeeeeeeee", "api", vec![]),
        tools: Some(vec![tool("enabled_tool", true), tool("disabled_tool", false)]),
    }];
    let desired = desired_registry(&listings);
    assert_eq!(names(&desired), vec!["connector_c1aaaaaa_enabled_tool".to_string()]);
    let r = &desired[0].1;
    assert_eq!(r.user_id, "u1");
    assert_eq!(r.connector_id, "c1aaaaaaaa-bbbb-cccc-dddd-eeeeeeeeeeee");
    assert_eq!(r.ctype, "api");
    assert_eq!(r.original_name, "enabled_tool");
    let (desc, params) = tool_details(&listings, r);
    assert_eq!(desc, "enabled_tool description");
    assert_eq!(params, "{\"type\":\"object\",\"properties\":{}}");
}

#[test]
fn sync_mcp_tool_states_and_unreachable_servers() {
    let listings = vec![
        ConnectorListing {
            connector: connector("m1aaaaaaaa", "mcp", vec![("off".to_string(), false)]),
            tools: Some(vec![tool("on", false), tool("off", true)]),
        },
        ConnectorListing { connector: connector("m2aaaaaaaa", "mcp", vec![]), tools: None },
        ConnectorListing { connector: connector("x1aaaaaaaa", "other", vec![]), tools: Some(vec![tool("t", true)]) },
    ];
    let desired = desired_registry(&listings);
    assert_eq!(names(&desired), vec!["connector_m1aaaaaa_on".to_string()]);
    let index = vec![
        "connector_m1aaaaaa_on".to_string(),
        "connector_m1aaaaaa_off".to_string(),
        "connector_m2aaaaaa_gone".to_string(),
    ];
    assert_eq!(
        stale_tools(&index, &desired),
        vec!["connector_m1aaaaaa_off".to_string(), "connector_m2aaaaaa_gone".to_string()]
    );
}

#[test]
fn sync_later_duplicate_replaces_earlier() {
    let listings = vec![ConnectorListing {
        connector: connector("d1aaaaaaaa", "api", vec![]),
        tools: Some(vec![tool("dup", true), tool("dup", true)]),
    }];
    let desired = desired_registry(&listings);
    assert_eq!(desired.len(), 1);
    let missing = ResolvedTool {
        user_id: "u1".to_string(),
        connector_id: "nobody".to_string(),
        ctype: "api".to_string(),
        original_name: "x".to_string(),
    };
    assert_eq!(tool_details(&listings, &missing), (String::new(), "{\"type\":\"object\"}".to_string()));
}

fn find<'a>(registry: &'a [(String, ResolvedTool)], name: &str) -> Option<&'a ResolvedTool> {
    registry.iter().find(|(n, _)| n == name).map(|(_, r)| r)
}

#[test]
fn test_sync_registry_respects_two_level_enablement() {
    let mut c2 = connector("c2aaaaaaaa-bbbb-cccc-dddd-eeeeeeeeeeee", "api", vec![]);
    c2.enabled = false;
    let stored = vec![
        ConnectorListing {
            connector: connector("c1aaaaaaaa-bbbb-cccc-dddd-eeeeeeeeeeee", "api", vec![]),
            tools: Some(vec![tool("enabled_tool", true), tool("disabled_tool", false)]),
        },
        ConnectorListing { connector: c2, tools: Some(vec![tool("offline_tool", true)]) },
    ];
    let listings = stored;
    let registry = desired_registry(&listings);
    assert!(find(&registry, "connector_c1aaaaaa_enabled_tool").is_some());
    assert!(find(&registry, "connector_c1aaaaaa_disabled_tool").is_none());
    assert!(find(&registry, "connector_c2aaaaaa_offline_tool").is_none());

    // Disable the remaining tool -> sync removes it
    let listings2 = vec![ConnectorListing {
        connector: connector("c1aaaaaaaa-bbbb-cccc-dddd-eeeeeeeeeeee", "api", vec![]),
        tools: Some(vec![tool("enabled_tool", false), tool("disabled_tool", false)]),
    }];
    let registry2 = desired_registry(&listings2);
    assert!(find(&registry2, "connector_c1aaaaaa_enabled_tool").is_none());

    // Executing an unregistered tool is rejected
    let err = jcowork::tool_calls::check_tool_owner(
        find(&registry2, "connector_c1aaaaaa_enabled_tool"),
        "u1",
        "connector_c1aaaaaa_enabled_tool",
    )
    .unwrap_err();
    assert!(err.contains("disabled"));
}

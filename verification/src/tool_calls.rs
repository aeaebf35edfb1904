//! Routing a model's call of a connector tool: whose tool it is, whether
//! the connector and the tool are enabled, and what is run.
//!
//! The caller looks the tool up in the registry index and loads its
//! connector from the store; the functions here decide, and the caller runs
//! the API request or the MCP call they name.
use vstd::prelude::*;
use crate::api_call::{compact_json, json_compact};
use crate::connectors::{same_tool, tool_state, ApiToolDef, Connector};
use crate::sync::ResolvedTool;
use crate::text::{chars_eq, chars_of, push_str, string_of, trim, trim_chars};

verus! {

/// What a tool call runs.
#[derive(Debug)]
pub enum ToolDispatch {
    /// The API connector tool with this definition.
    Api(ApiToolDef),
    /// The MCP tool `tool` with the arguments as JSON text.
    Mcp { tool: String, arguments: String },
}

/// The check of the registry entry of `global_name` for `user_id`.
pub open spec fn owner_check(entry: Option<ResolvedTool>, user_id: Seq<char>, global_name: Seq<char>) -> Result<(), Seq<char>> {
    match entry {
        None => Err("Connector tool is disabled or no longer exists: "@ + global_name),
        Some(e) => if e.user_id@ != user_id {
            Err("Connector tool belongs to another user"@)
        } else {
            Ok(())
        },
    }
}

/// The registry entry of a tool must exist and belong to the caller.
pub fn check_tool_owner(entry: Option<&ResolvedTool>, user_id: &str, global_name: &str) -> (r: Result<(), String>)
    ensures
        match owner_check(match entry {
            Some(e) => Some(*e),
            None => None,
        }, user_id@, global_name@) {
            Ok(_) => r is Ok,
            Err(m) => r matches Err(e) && e@ == m,
        },
{
    match entry {
        None => {
            let mut m = chars_of("Connector tool is disabled or no longer exists: ");
            push_str(&mut m, global_name);
            Err(string_of(&m))
        },
        Some(e) => if !chars_eq(&chars_of(e.user_id.as_str()), &chars_of(user_id)) {
            Err(string_of(&chars_of("Connector tool belongs to another user")))
        } else {
            Ok(())
        },
    }
}

/// The position of the first API tool named `name`.
pub open spec fn tool_named(tools: Seq<ApiToolDef>, name: Seq<char>) -> Option<int>
    decreases tools.len(),
{
    if tools.len() == 0 {
        None
    } else if tools[0].name@ == name {
        Some(0)
    } else {
        match tool_named(tools.drop_first(), name) {
            Some(k) => Some(k + 1),
            None => None,
        }
    }
}

proof fn lemma_tool_named_bound(tools: Seq<ApiToolDef>, name: Seq<char>)
    ensures
        tool_named(tools, name) matches Some(k) ==> 0 <= k < tools.len() && tools[k].name@ == name,
    decreases tools.len(),
{
    if tools.len() > 0 && tools[0].name@ != name {
        lemma_tool_named_bound(tools.drop_first(), name);
    }
}

/// The arguments an MCP call passes: `{}` for blank text, else the text
/// read and written back as JSON.
pub open spec fn mcp_arguments(args: Seq<char>) -> Result<Seq<char>, Seq<char>> {
    if trim(args).len() == 0 {
        Ok("{}"@)
    } else {
        match json_compact(args) {
            Ok(j) => Ok(j),
            Err(e) => Err("Invalid tool arguments JSON: "@ + e),
        }
    }
}

/// What calling the tool `resolved` of `connector` runs, where `api_tools`
/// are the tools of an API connector's configuration: nothing for a
/// disabled connector or tool, a missing API tool, unreadable MCP arguments
/// or an unknown connector type.
pub fn dispatch_tool(resolved: &ResolvedTool, connector: &Connector, api_tools: &Vec<ApiToolDef>, args: &str) -> (r: Result<ToolDispatch, String>)
    ensures
        !connector.enabled ==> (r matches Err(e) && e@ == "Connector '"@ + connector.name@ + "' is disabled"@),
        connector.enabled && resolved.ctype@ == "api"@ ==> match tool_named(api_tools@, resolved.original_name@) {
            None => r matches Err(e) && e@ == "API tool '"@ + resolved.original_name@ + "' no longer exists"@,
            Some(k) => if api_tools@[k].enabled {
                r matches Ok(ToolDispatch::Api(t)) && same_tool(t, api_tools@[k])
            } else {
                r matches Err(e) && e@ == "Tool '"@ + api_tools@[k].name@ + "' is disabled"@
            },
        },
        connector.enabled && resolved.ctype@ == "mcp"@ ==> if !tool_state(connector.tool_states@, resolved.original_name@).unwrap_or(true) {
            r matches Err(e) && e@ == "Tool '"@ + resolved.original_name@ + "' is disabled"@
        } else {
            match mcp_arguments(args@) {
                Ok(a) => r matches Ok(ToolDispatch::Mcp { tool, arguments }) && tool@ == resolved.original_name@ && arguments@ == a,
                Err(m) => r matches Err(e) && e@ == m,
            }
        },
        connector.enabled && resolved.ctype@ != "api"@ && resolved.ctype@ != "mcp"@ ==> (r matches Err(e) && e@
            == "Unknown connector type: "@ + resolved.ctype@),
{
    if !connector.enabled {
        let mut m = chars_of("Connector '");
        push_str(&mut m, connector.name.as_str());
        push_str(&mut m, "' is disabled");
        return Err(string_of(&m));
    }
    let ctype = chars_of(resolved.ctype.as_str());
    proof {
        reveal_strlit("api");
        reveal_strlit("mcp");
        assert("api"@ != "mcp"@) by {
            assert("api"@[0] != "mcp"@[0]);
        }
    }
    if chars_eq(&ctype, &chars_of("api")) {
        let name = chars_of(resolved.original_name.as_str());
        let mut i: usize = 0;
        assert(api_tools@.skip(0) =~= api_tools@);
        while i < api_tools.len()
            invariant
                connector.enabled,
                resolved.ctype@ == "api"@,
                "api"@ != "mcp"@,
                i <= api_tools@.len(),
                name@ == resolved.original_name@,
                forall|k: int| 0 <= k < i ==> api_tools@[k].name@ != name@,
                tool_named(api_tools@, name@) == match tool_named(api_tools@.skip(i as int), name@) {
                    Some(k) => Some(k + i),
                    None => None,
                },
            decreases api_tools@.len() - i,
        {
            assert(api_tools@.skip(i as int)[0] == api_tools@[i as int]);
            assert(api_tools@.skip(i as int).drop_first() =~= api_tools@.skip(i + 1));
            if chars_eq(&chars_of(api_tools[i].name.as_str()), &name) {
                let t = &api_tools[i];
                if !t.enabled {
                    let mut m = chars_of("Tool '");
                    push_str(&mut m, t.name.as_str());
                    push_str(&mut m, "' is disabled");
                    return Err(string_of(&m));
                }
                return Ok(ToolDispatch::Api(t.clone()));
            }
            i += 1;
        }
        assert(api_tools@.skip(i as int) =~= Seq::<ApiToolDef>::empty());
        let mut m = chars_of("API tool '");
        push_str(&mut m, resolved.original_name.as_str());
        push_str(&mut m, "' no longer exists");
        return Err(string_of(&m));
    }
    if chars_eq(&ctype, &chars_of("mcp")) {
        if !connector.tool_enabled(resolved.original_name.as_str()) {
            let mut m = chars_of("Tool '");
            push_str(&mut m, resolved.original_name.as_str());
            push_str(&mut m, "' is disabled");
            return Err(string_of(&m));
        }
        let arguments = if trim_chars(&chars_of(args)).len() == 0 {
            string_of(&chars_of("{}"))
        } else {
            match compact_json(args) {
                Ok(j) => j,
                Err(e) => {
                    let mut m = chars_of("Invalid tool arguments JSON: ");
                    push_str(&mut m, e.as_str());
                    return Err(string_of(&m));
                },
            }
        };
        return Ok(ToolDispatch::Mcp { tool: resolved.original_name.clone(), arguments });
    }
    let mut m = chars_of("Unknown connector type: ");
    push_str(&mut m, resolved.ctype.as_str());
    Err(string_of(&m))
}

} // verus!

//! Checking a request to create or update a connector, and the connector it
//! makes.
//!
//! The caller reads the request's configuration as the type it names (API
//! tools or an MCP server) and passes the outcome here.
use vstd::prelude::*;
use crate::connectors::{
    api_tool_check, json_property_names, mcp_validate_spec, opt_view, same_tool, tool_state, validate_api_tool,
    ApiToolDef, Connector, McpConfig,
};
use crate::text::{chars_eq, chars_of, push_str, string_of, trim, trim_chars};

verus! {

/// A request to create or update a connector.
#[derive(Debug)]
pub struct ConnectorRequest {
    pub name: String,
    /// `api` or `mcp`.
    pub ctype: String,
    pub description: String,
    /// The configuration as JSON text.
    pub config: String,
}

/// The configuration of an API connector: its tools.
#[derive(Debug)]
pub struct ApiConnectorConfig {
    pub tools: Vec<ApiToolDef>,
}

/// What reading a request's configuration as its type gave: the config, or
/// the reader's error.
pub enum ParsedConfig {
    Api(Result<ApiConnectorConfig, String>),
    Mcp(Result<McpConfig, String>),
}

/// The check of one API tool, with its name in front of an error.
pub open spec fn tool_error(t: ApiToolDef) -> Option<Seq<char>> {
    match api_tool_check(t.name@, t.url@, opt_view(t.body_template), json_property_names(t.params@)) {
        Ok(_) => None,
        Err(e) => Some("Tool '"@ + t.name@ + "': "@ + e),
    }
}

/// The error of the first API tool that fails its check.
pub open spec fn first_tool_error(tools: Seq<ApiToolDef>) -> Option<Seq<char>>
    decreases tools.len(),
{
    if tools.len() == 0 {
        None
    } else {
        match tool_error(tools[0]) {
            Some(e) => Some(e),
            None => first_tool_error(tools.drop_first()),
        }
    }
}

/// The check of a request with connector name `name`, type `ctype` and, for
/// a known type, the configuration read as that type.
pub open spec fn request_check(name: Seq<char>, ctype: Seq<char>, parsed: Option<ParsedConfig>) -> Result<(), Seq<char>> {
    if trim(name).len() == 0 {
        Err("Connector name must not be empty"@)
    } else if ctype == "api"@ {
        match parsed {
            Some(ParsedConfig::Api(Err(e))) => Err("Invalid API connector config: "@ + e@),
            Some(ParsedConfig::Api(Ok(cfg))) => match first_tool_error(cfg.tools@) {
                Some(e) => Err(e),
                None => Ok(()),
            },
            _ => Ok(()),
        }
    } else if ctype == "mcp"@ {
        match parsed {
            Some(ParsedConfig::Mcp(Err(e))) => Err("Invalid MCP config: "@ + e@),
            Some(ParsedConfig::Mcp(Ok(cfg))) => match mcp_validate_spec(cfg.transport@, cfg.command@, cfg.url@) {
                Err(m) => Err("Invalid MCP config: "@ + m),
                Ok(_) => Ok(()),
            },
            _ => Ok(()),
        }
    } else {
        Err("Unknown connector type: "@ + ctype)
    }
}

/// The configuration of a request of type `ctype` was read as that type.
pub open spec fn parsed_as(ctype: Seq<char>, parsed: Option<ParsedConfig>) -> bool {
    &&& ctype == "api"@ ==> (parsed matches Some(ParsedConfig::Api(_)))
    &&& ctype == "mcp"@ ==> (parsed matches Some(ParsedConfig::Mcp(_)))
}

fn prefixed(prefix: &str, text: &str) -> (r: String)
    ensures
        r@ == prefix@ + text@,
{
    let mut m = chars_of(prefix);
    push_str(&mut m, text);
    string_of(&m)
}

fn check_tools(tools: &Vec<ApiToolDef>) -> (r: Result<(), String>)
    ensures
        match first_tool_error(tools@) {
            Some(e) => r matches Err(m) && m@ == e,
            None => r is Ok,
        },
{
    let mut i: usize = 0;
    assert(tools@.skip(0) =~= tools@);
    while i < tools.len()
        invariant
            i <= tools@.len(),
            first_tool_error(tools@) == first_tool_error(tools@.skip(i as int)),
        decreases tools@.len() - i,
    {
        assert(tools@.skip(i as int)[0] == tools@[i as int]);
        assert(tools@.skip(i as int).drop_first() =~= tools@.skip(i + 1));
        match validate_api_tool(&tools[i]) {
            Err(e) => {
                let mut m = chars_of("Tool '");
                push_str(&mut m, tools[i].name.as_str());
                push_str(&mut m, "': ");
                push_str(&mut m, e.as_str());
                return Err(string_of(&m));
            },
            Ok(()) => {},
        }
        i += 1;
    }
    assert(tools@.skip(i as int) =~= Seq::<ApiToolDef>::empty());
    Ok(())
}

/// Checks a connector request: a non-blank name, a known type, and a
/// configuration that reads as that type and passes its checks.
pub fn check_request(name: &str, ctype: &str, parsed: Option<&ParsedConfig>) -> (r: Result<(), String>)
    requires
        parsed_as(ctype@, match parsed {
            Some(p) => Some(*p),
            None => None,
        }),
    ensures
        match request_check(name@, ctype@, match parsed {
            Some(p) => Some(*p),
            None => None,
        }) {
            Ok(_) => r is Ok,
            Err(e) => r matches Err(m) && m@ == e,
        },
{
    if trim_chars(&chars_of(name)).len() == 0 {
        return Err(string_of(&chars_of("Connector name must not be empty")));
    }
    let t = chars_of(ctype);
    if chars_eq(&t, &chars_of("api")) {
        match parsed {
            Some(ParsedConfig::Api(Err(e))) => Err(prefixed("Invalid API connector config: ", e.as_str())),
            Some(ParsedConfig::Api(Ok(cfg))) => check_tools(&cfg.tools),
            _ => Ok(()),
        }
    } else if chars_eq(&t, &chars_of("mcp")) {
        match parsed {
            Some(ParsedConfig::Mcp(Err(e))) => Err(prefixed("Invalid MCP config: ", e.as_str())),
            Some(ParsedConfig::Mcp(Ok(cfg))) => match cfg.validate() {
                Err(m) => Err(prefixed("Invalid MCP config: ", m.as_str())),
                Ok(()) => Ok(()),
            },
            _ => Ok(()),
        }
    } else {
        Err(prefixed("Unknown connector type: ", ctype))
    }
}

/// The connector a checked request makes for `user_id`, with the stored
/// form `config` of its configuration: enabled, no tool states, no id or
/// times yet.
pub fn build_connector(user_id: &str, req: &ConnectorRequest, config: String) -> (r: Connector)
    ensures
        r.id@.len() == 0 && r.user_id@ == user_id@ && r.name@ == trim(req.name@) && r.ctype == req.ctype,
        r.description == req.description && r.config == config,
        r.tool_states@.len() == 0 && r.enabled,
        r.created_at@.len() == 0 && r.updated_at@.len() == 0,
{
    Connector {
        id: String::new(),
        user_id: string_of(&chars_of(user_id)),
        name: string_of(&trim_chars(&chars_of(req.name.as_str()))),
        ctype: req.ctype.clone(),
        description: req.description.clone(),
        config,
        tool_states: Vec::new(),
        enabled: true,
        created_at: String::new(),
        updated_at: String::new(),
    }
}

/// The connector an update stores: the checked request's connector under
/// the existing id, keeping the existing enabled flag, and its tool states
/// when the type is unchanged.
pub fn merge_update(updated: Connector, existing: &Connector, id: String) -> (r: Connector)
    ensures
        r.id == id && r.enabled == existing.enabled,
        updated.ctype@ == existing.ctype@ ==> r.tool_states@ == existing.tool_states@,
        updated.ctype@ != existing.ctype@ ==> r.tool_states@.len() == 0,
        r.user_id == updated.user_id && r.name == updated.name && r.ctype == updated.ctype,
        r.description == updated.description && r.config == updated.config,
        r.created_at == updated.created_at && r.updated_at == updated.updated_at,
{
    let same = chars_eq(&chars_of(updated.ctype.as_str()), &chars_of(existing.ctype.as_str()));
    let mut states: Vec<(String, bool)> = Vec::new();
    if same {
        let mut i: usize = 0;
        while i < existing.tool_states.len()
            invariant
                i <= existing.tool_states@.len(),
                states@ == existing.tool_states@.take(i as int),
            decreases existing.tool_states@.len() - i,
        {
            states.push((existing.tool_states[i].0.clone(), existing.tool_states[i].1));
            assert(states@ =~= existing.tool_states@.take(i + 1));
            i += 1;
        }
        assert(existing.tool_states@.take(i as int) =~= existing.tool_states@);
    }
    Connector {
        id,
        user_id: updated.user_id,
        name: updated.name,
        ctype: updated.ctype,
        description: updated.description,
        config: updated.config,
        tool_states: states,
        enabled: existing.enabled,
        created_at: updated.created_at,
        updated_at: updated.updated_at,
    }
}


/// What switching one tool on or off writes back: the API connector's tool
/// definitions, or the MCP connector's tool states.
pub enum ToolSwitch {
    Api(Vec<ApiToolDef>),
    Mcp(Vec<(String, bool)>),
}

/// Position of the first tool named `name`.
pub open spec fn first_named(tools: Seq<ApiToolDef>, name: Seq<char>) -> Option<int>
    decreases tools.len(),
{
    if tools.len() == 0 {
        None
    } else {
        match first_named(tools.drop_last(), name) {
            Some(i) => Some(i),
            None => if tools.last().name@ == name {
                Some(tools.len() - 1)
            } else {
                None
            },
        }
    }
}

/// `b` is `a` with its enabled flag set to `enabled`.
pub open spec fn switched_tool(a: ApiToolDef, b: ApiToolDef, enabled: bool) -> bool {
    &&& b.name == a.name && b.description == a.description && b.method == a.method && b.url == a.url
    &&& b.headers@ == a.headers@ && b.params == a.params && b.body_template == a.body_template
    &&& b.enabled == enabled
}

/// `v` is `tools` with the tool at `i` switched to `enabled`, the others kept.
pub open spec fn tools_switched(tools: Seq<ApiToolDef>, v: Seq<ApiToolDef>, i: int, enabled: bool) -> bool {
    &&& v.len() == tools.len()
    &&& switched_tool(tools[i], v[i], enabled)
    &&& forall|k: int| 0 <= k < tools.len() && k != i ==> same_tool(#[trigger] v[k], tools[k])
}

/// The tool states with `name` set to `enabled`: an entry for `name` is
/// changed in place, else one is added at the end.
pub open spec fn states_switched(states: Seq<(String, bool)>, v: Seq<(String, bool)>, name: Seq<char>, enabled: bool) -> bool {
    let n = states.len();
    &&& v.len() == if tool_state(states, name) is Some { n } else { n + 1 }
    &&& forall|k: int| 0 <= k < n ==> (#[trigger] v[k]).0@ == states[k].0@ && v[k].1 == if states[k].0@ == name {
        enabled
    } else {
        states[k].1
    }
    &&& tool_state(states, name) is None ==> v[n as int].0@ == name && v[n as int].1 == enabled
}

/// The error for a connector type that is neither `api` nor `mcp`.
pub open spec fn unknown_type_error(ctype: Seq<char>) -> Seq<char> {
    "Unknown connector type: "@ + ctype
}

/// The error for an API tool that the connector does not define.
pub open spec fn tool_not_found_error(name: Seq<char>) -> Seq<char> {
    "Tool not found: "@ + name
}

proof fn lemma_tool_state_none(states: Seq<(String, bool)>, name: Seq<char>)
    ensures
        tool_state(states, name) is None <==> forall|k: int| 0 <= k < states.len() ==> (#[trigger] states[k]).0@ != name,
    decreases states.len(),
{
    if states.len() > 0 {
        lemma_tool_state_none(states.drop_first(), name);
        assert forall|k: int| 1 <= k < states.len() implies states[k] == #[trigger] states.drop_first()[k - 1] by {}
        if tool_state(states.drop_first(), name) is None && states[0].0@ != name {
            assert forall|k: int| 0 <= k < states.len() implies (#[trigger] states[k]).0@ != name by {
                if k > 0 {
                    assert(states[k] == states.drop_first()[k - 1]);
                }
            }
        }
    }
}

/// Reading a state back after a switch: `name` reads `enabled` where it had
/// an entry, and every other tool reads as before.
proof fn lemma_read_updated(states: Seq<(String, bool)>, v: Seq<(String, bool)>, name: Seq<char>, enabled: bool, other: Seq<char>)
    requires
        v.len() == states.len(),
        forall|k: int| 0 <= k < states.len() ==> (#[trigger] v[k]).0@ == states[k].0@ && v[k].1 == if states[k].0@ == name {
            enabled
        } else {
            states[k].1
        },
    ensures
        tool_state(v, other) == if other == name {
            match tool_state(states, other) {
                Some(_) => Some(enabled),
                None => None,
            }
        } else {
            tool_state(states, other)
        },
    decreases states.len(),
{
    if states.len() > 0 {
        assert(v[0].0@ == states[0].0@);
        assert forall|k: int| 0 <= k < states.drop_first().len() implies (#[trigger] v.drop_first()[k]).0@
            == states.drop_first()[k].0@ && v.drop_first()[k].1 == if states.drop_first()[k].0@ == name {
            enabled
        } else {
            states.drop_first()[k].1
        } by {
            assert(v.drop_first()[k] == v[k + 1]);
            assert(states.drop_first()[k] == states[k + 1]);
        }
        lemma_read_updated(states.drop_first(), v.drop_first(), name, enabled, other);
    }
}

/// Reading a state after an entry was added at the end: an earlier entry
/// wins, else the added one.
proof fn lemma_read_pushed(v: Seq<(String, bool)>, e: (String, bool), other: Seq<char>)
    ensures
        tool_state(v.push(e), other) == match tool_state(v, other) {
            Some(b) => Some(b),
            None => if e.0@ == other {
                Some(e.1)
            } else {
                None
            },
        },
    decreases v.len(),
{
    if v.len() > 0 {
        assert(v.push(e)[0] == v[0]);
        assert(v.push(e).drop_first() =~= v.drop_first().push(e));
        lemma_read_pushed(v.drop_first(), e, other);
    } else {
        assert(v.push(e)[0] == e);
        assert(v.push(e).drop_first() =~= Seq::<(String, bool)>::empty());
        assert(tool_state(Seq::<(String, bool)>::empty(), other) is None);
    }
}

/// Switches one tool of a connector on or off. An API connector's tool
/// definitions (`api_tools`, its configuration read as API tools) get the
/// first tool named `tool_name` switched, an error when there is none; an
/// MCP connector's tool states (`states`) get the entry for the tool set. The
/// new state reads back through the tool states: `tool_name` reads
/// `enabled`, every other tool as before.
pub fn switch_tool(ctype: &str, api_tools: &Vec<ApiToolDef>, states: &Vec<(String, bool)>, tool_name: &str, enabled: bool) -> (r: Result<ToolSwitch, String>)
    ensures
        ctype@ == "api"@ ==> match first_named(api_tools@, tool_name@) {
            Some(i) => (r matches Ok(ToolSwitch::Api(v)) && tools_switched(api_tools@, v@, i, enabled)),
            None => (r matches Err(e) && e@ == tool_not_found_error(tool_name@)),
        },
        ctype@ == "mcp"@ ==> (r matches Ok(ToolSwitch::Mcp(v)) && states_switched(states@, v@, tool_name@, enabled)
            && tool_state(v@, tool_name@) == Some(enabled)
            && forall|other: Seq<char>| other != tool_name@ ==> tool_state(v@, other) == tool_state(states@, other)),
        ctype@ != "api"@ && ctype@ != "mcp"@ ==> (r matches Err(e) && e@ == unknown_type_error(ctype@)),
{
    let c = chars_of(ctype);
    let name = chars_of(tool_name);
    proof {
        reveal_strlit("api");
        reveal_strlit("mcp");
        assert("api"@ != "mcp"@) by {
            assert("api"@[0] != "mcp"@[0]);
        }
    }
    if chars_eq(&c, &chars_of("api")) {
        let mut out: Vec<ApiToolDef> = Vec::new();
        let mut found: Option<usize> = None;
        let mut i: usize = 0;
        while i < api_tools.len()
            invariant
                i <= api_tools.len(),
                name@ == tool_name@,
                out@.len() == i,
                match found {
                    Some(f) => first_named(api_tools@.take(i as int), tool_name@) == Some(f as int),
                    None => first_named(api_tools@.take(i as int), tool_name@) is None,
                },
                found matches Some(f) ==> f < i && switched_tool(api_tools@[f as int], out@[f as int], enabled),
                forall|k: int| 0 <= k < i && found != Some(k as usize) ==> same_tool(#[trigger] out@[k], api_tools@[k]),
            decreases api_tools.len() - i,
        {
            let ghost pre = api_tools@.take(i as int);
            assert(api_tools@.take(i + 1).drop_last() =~= pre);
            let mut t = api_tools[i].clone();
            if found.is_none() && chars_eq(&chars_of(api_tools[i].name.as_str()), &name) {
                t.enabled = enabled;
                found = Some(i);
            }
            out.push(t);
            i += 1;
        }
        assert(api_tools@.take(api_tools.len() as int) =~= api_tools@);
        match found {
            Some(f) => {
                assert forall|k: int| 0 <= k < api_tools@.len() && k != f implies same_tool(#[trigger] out@[k], api_tools@[k]) by {
                    assert(found != Some(k as usize));
                }
                Ok(ToolSwitch::Api(out))
            },
            None => {
                let mut msg: Vec<char> = Vec::new();
                push_str(&mut msg, "Tool not found: ");
                push_str(&mut msg, tool_name);
                Err(string_of(&msg))
            },
        }
    } else if chars_eq(&c, &chars_of("mcp")) {
        let mut out: Vec<(String, bool)> = Vec::new();
        let mut seen = false;
        let mut i: usize = 0;
        while i < states.len()
            invariant
                i <= states.len(),
                name@ == tool_name@,
                out@.len() == i,
                seen == (tool_state(states@.take(i as int), tool_name@) is Some),
                forall|k: int| 0 <= k < i ==> (#[trigger] out@[k]).0@ == states@[k].0@ && out@[k].1 == if states@[k].0@
                    == tool_name@ {
                    enabled
                } else {
                    states@[k].1
                },
            decreases states.len() - i,
        {
            let same = chars_eq(&chars_of(states[i].0.as_str()), &name);
            proof {
                let ghost a = states@.take(i as int);
                let ghost b = states@.take(i + 1);
                lemma_tool_state_none(a, tool_name@);
                lemma_tool_state_none(b, tool_name@);
                if same {
                    assert(b[i as int].0@ == tool_name@);
                } else if !seen {
                    assert forall|k: int| 0 <= k < b.len() implies (#[trigger] b[k]).0@ != tool_name@ by {
                        if k < i {
                            assert(b[k] == a[k]);
                        }
                    }
                } else {
                    let k = choose|k: int| 0 <= k < a.len() && (#[trigger] a[k]).0@ == tool_name@;
                    assert(b[k] == a[k]);
                }
            }
            let value = if same { enabled } else { states[i].1 };
            if same {
                seen = true;
            }
            out.push((states[i].0.clone(), value));
            i += 1;
        }
        assert(states@.take(states.len() as int) =~= states@);
        proof {
            lemma_read_updated(states@, out@, tool_name@, enabled, tool_name@);
            assert forall|other: Seq<char>| other != tool_name@ implies tool_state(out@, other) == tool_state(states@, other) by {
                lemma_read_updated(states@, out@, tool_name@, enabled, other);
            }
        }
        if !seen {
            let ghost before = out@;
            out.push((string_of(&name), enabled));
            proof {
                assert(out@ == before.push((out@[before.len() as int].0, enabled)));
                lemma_read_pushed(before, out@[before.len() as int], tool_name@);
                assert forall|other: Seq<char>| other != tool_name@ implies tool_state(out@, other) == tool_state(states@, other) by {
                    lemma_read_updated(states@, before, tool_name@, enabled, other);
                    lemma_read_pushed(before, out@[before.len() as int], other);
                }
                assert forall|k: int| 0 <= k < states@.len() implies (#[trigger] out@[k]).0@ == states@[k].0@ && out@[k].1
                    == if states@[k].0@ == tool_name@ {
                    enabled
                } else {
                    states@[k].1
                } by {
                    assert(out@[k] == before[k]);
                }
            }
        }
        Ok(ToolSwitch::Mcp(out))
    } else {
        let mut msg: Vec<char> = Vec::new();
        push_str(&mut msg, "Unknown connector type: ");
        push_str(&mut msg, ctype);
        Err(string_of(&msg))
    }
}

} // verus!

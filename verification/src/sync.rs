//! Which connector tools the tool registry should hold: the decisions of a
//! registry sync. Listing the connectors and their tools, and registering
//! the result, is the caller's work.
use vstd::prelude::*;
use crate::connectors::{global_name_spec, tool_state, Connector};
use crate::text::{chars_eq, chars_of, string_of};

verus! {

/// A tool offered by a connector: for an API connector as configured, for an
/// MCP connector as its server lists it. `enabled` is the API tool's own
/// flag; MCP tools are enabled through the connector's tool states.
pub struct ListedTool {
    pub name: String,
    pub enabled: bool,
    pub description: String,
    /// JSON Schema text of the parameters.
    pub parameters: String,
}

/// A connector with the tools it offers; `None` when an MCP server could
/// not be reached.
pub struct ConnectorListing {
    pub connector: Connector,
    pub tools: Option<Vec<ListedTool>>,
}

/// Where a registered tool comes from.
pub struct ResolvedTool {
    pub user_id: String,
    pub connector_id: String,
    pub ctype: String,
    pub original_name: String,
}

/// A resolved tool by its user, connector id, connector type and tool name.
pub type ResolvedView = (Seq<char>, Seq<char>, Seq<char>, Seq<char>);

impl View for ResolvedTool {
    type V = ResolvedView;

    open spec fn view(&self) -> ResolvedView {
        (self.user_id@, self.connector_id@, self.ctype@, self.original_name@)
    }
}

/// The tool is to be registered: an enabled API tool, or an MCP tool not
/// switched off in the connector's tool states.
pub open spec fn tool_active(c: Connector, t: ListedTool) -> bool {
    if c.ctype@ == "api"@ {
        t.enabled
    } else {
        tool_state(c.tool_states@, t.name@).unwrap_or(true)
    }
}

/// The registry entries one connector contributes, in listing order.
pub open spec fn connector_entries(c: Connector, tools: Seq<ListedTool>) -> Seq<(Seq<char>, ResolvedView)>
    decreases tools.len(),
{
    if tools.len() == 0 {
        seq![]
    } else {
        let prev = connector_entries(c, tools.drop_last());
        let t = tools.last();
        if tool_active(c, t) {
            prev.push((global_name_spec(c.id@, t.name@), (c.user_id@, c.id@, c.ctype@, t.name@)))
        } else {
            prev
        }
    }
}

/// The registry entries of all listings, in order; disabled connectors,
/// connectors of another type and unreachable MCP servers contribute none.
pub open spec fn all_entries(ls: Seq<ConnectorListing>) -> Seq<(Seq<char>, ResolvedView)>
    decreases ls.len(),
{
    if ls.len() == 0 {
        seq![]
    } else {
        let l = ls.last();
        let own = if l.connector.enabled && (l.connector.ctype@ == "api"@ || l.connector.ctype@ == "mcp"@)
            && l.tools is Some {
            connector_entries(l.connector, l.tools->0@)
        } else {
            seq![]
        };
        all_entries(ls.drop_last()) + own
    }
}

/// Entries inserted into a map one after the other; a later entry replaces
/// an earlier one with the same name.
pub open spec fn entries_map(es: Seq<(Seq<char>, ResolvedView)>) -> Map<Seq<char>, ResolvedView>
    decreases es.len(),
{
    if es.len() == 0 {
        Map::empty()
    } else {
        entries_map(es.drop_last()).insert(es.last().0, es.last().1)
    }
}

/// The tools the registry should hold, by global name.
pub open spec fn desired_tools(ls: Seq<ConnectorListing>) -> Map<Seq<char>, ResolvedView> {
    entries_map(all_entries(ls))
}

/// The entries of a list of resolved tools by their views.
pub open spec fn resolved_view(v: Seq<(String, ResolvedTool)>) -> Seq<(Seq<char>, ResolvedView)> {
    v.map_values(|e: (String, ResolvedTool)| (e.0@, e.1@))
}

/// No two entries share a name.
pub open spec fn names_unique(es: Seq<(Seq<char>, ResolvedView)>) -> bool {
    forall|i: int, j: int| 0 <= i < j < es.len() ==> es[i].0 != es[j].0
}

pub proof fn lemma_entries_map_update(es: Seq<(Seq<char>, ResolvedView)>, i: int, v: ResolvedView)
    requires
        names_unique(es),
        0 <= i < es.len(),
    ensures
        entries_map(es.update(i, (es[i].0, v))) == entries_map(es).insert(es[i].0, v),
    decreases es.len(),
{
    let k = es[i].0;
    let es2 = es.update(i, (k, v));
    if i == es.len() - 1 {
        assert(es2.drop_last() =~= es.drop_last());
        assert(entries_map(es).insert(k, v) =~= entries_map(es.drop_last()).insert(k, v));
    } else {
        assert(es2.drop_last() =~= es.drop_last().update(i, (k, v)));
        lemma_entries_map_update(es.drop_last(), i, v);
        assert(es.last().0 != k);
        assert(entries_map(es2) =~= entries_map(es).insert(k, v));
    }
}

pub proof fn lemma_entries_map_keys(es: Seq<(Seq<char>, ResolvedView)>, k: Seq<char>)
    ensures
        entries_map(es).dom().contains(k) <==> exists|i: int| 0 <= i < es.len() && es[i].0 == k,
    decreases es.len(),
{
    if es.len() > 0 {
        lemma_entries_map_keys(es.drop_last(), k);
        if entries_map(es).dom().contains(k) && es.last().0 != k {
            let i = choose|i: int| 0 <= i < es.drop_last().len() && es.drop_last()[i].0 == k;
            assert(es[i].0 == k);
        }
        if exists|i: int| 0 <= i < es.len() && es[i].0 == k {
            let i = choose|i: int| 0 <= i < es.len() && es[i].0 == k;
            if i < es.len() - 1 {
                assert(es.drop_last()[i].0 == k);
            }
        }
    }
}

/// Inserts or replaces the entry named `name`.
fn upsert(out: &mut Vec<(String, ResolvedTool)>, name: String, tool: ResolvedTool)
    requires
        names_unique(resolved_view(old(out)@)),
    ensures
        names_unique(resolved_view(final(out)@)),
        entries_map(resolved_view(final(out)@)) == entries_map(resolved_view(old(out)@)).insert(name@, tool@),
{
    let key = chars_of(name.as_str());
    let ghost es = resolved_view(out@);
    let mut i: usize = 0;
    while i < out.len()
        invariant
            i <= out@.len(),
            es == resolved_view(out@),
            es == resolved_view(old(out)@),
            names_unique(es),
            key@ == name@,
            forall|j: int| 0 <= j < i ==> es[j].0 != name@,
        decreases out.len() - i,
    {
        let k = chars_of(out[i].0.as_str());
        if chars_eq(&k, &key) {
            let ghost v = tool@;
            let ghost n = name@;
            out.set(i, (name, tool));
            proof {
                assert(resolved_view(out@) =~= es.update(i as int, (es[i as int].0, v)));
                lemma_entries_map_update(es, i as int, v);
                assert(es[i as int].0 == name@);
                assert(entries_map(resolved_view(out@)) == entries_map(es).insert(name@, v));
            }
            return;
        }
        i += 1;
    }
    let ghost v = tool@;
    out.push((name, tool));
    proof {
        assert(resolved_view(out@) =~= es.push((name@, v)));
        assert(resolved_view(out@).drop_last() =~= es);
    }
}

fn clone_resolved(c: &Connector, name: &String) -> (r: ResolvedTool)
    ensures
        r@ == (c.user_id@, c.id@, c.ctype@, name@),
{
    ResolvedTool {
        user_id: c.user_id.clone(),
        connector_id: c.id.clone(),
        ctype: c.ctype.clone(),
        original_name: name.clone(),
    }
}

/// The tools the registry should hold after a sync, each once, by global
/// tool name.
pub fn desired_registry(listings: &Vec<ConnectorListing>) -> (r: Vec<(String, ResolvedTool)>)
    ensures
        names_unique(resolved_view(r@)),
        entries_map(resolved_view(r@)) == desired_tools(listings@),
{
    let mut out: Vec<(String, ResolvedTool)> = Vec::new();
    let mut li: usize = 0;
    assert(listings@.take(0) =~= Seq::<ConnectorListing>::empty());
    while li < listings.len()
        invariant
            li <= listings@.len(),
            names_unique(resolved_view(out@)),
            entries_map(resolved_view(out@)) == entries_map(all_entries(listings@.take(li as int))),
        decreases listings.len() - li,
    {
        let l = &listings[li];
        let c = &l.connector;
        let api = chars_eq(&chars_of(c.ctype.as_str()), &chars_of(crate::connectors::TYPE_API));
        let mcp = chars_eq(&chars_of(c.ctype.as_str()), &chars_of(crate::connectors::TYPE_MCP));
        let ghost before = all_entries(listings@.take(li as int));
        assert(listings@.take(li + 1).drop_last() =~= listings@.take(li as int));
        if c.enabled && (api || mcp) {
            match &l.tools {
                Some(tools) => {
                    let mut ti: usize = 0;
                    assert(tools@.take(0) =~= Seq::<ListedTool>::empty());
                    while ti < tools.len()
                        invariant
                            ti <= tools@.len(),
                            names_unique(resolved_view(out@)),
                            entries_map(resolved_view(out@)) == entries_map(before + connector_entries(*c,
                                tools@.take(ti as int))),
                            api == (c.ctype@ == "api"@),
                        decreases tools.len() - ti,
                    {
                        let t = &tools[ti];
                        assert(tools@.take(ti + 1).drop_last() =~= tools@.take(ti as int));
                        let active = if api { t.enabled } else { c.tool_enabled(t.name.as_str()) };
                        let ghost prev = before + connector_entries(*c, tools@.take(ti as int));
                        if active {
                            let name = crate::connectors::global_tool_name(c.id.as_str(), t.name.as_str());
                            let resolved = clone_resolved(c, &t.name);
                            upsert(&mut out, name, resolved);
                            let ghost x = (global_name_spec(c.id@, t.name@), (c.user_id@, c.id@, c.ctype@, t.name@));
                            assert(before + connector_entries(*c, tools@.take(ti + 1)) =~= prev.push(x));
                            assert(prev.push(x).drop_last() =~= prev);
                        } else {
                            assert(before + connector_entries(*c, tools@.take(ti + 1)) =~= prev);
                        }
                        ti += 1;
                    }
                    assert(tools@.take(tools@.len() as int) =~= tools@);
                },
                None => {
                    assert(before + seq![] =~= before);
                },
            }
        } else {
            assert(before + seq![] =~= before);
        }
        li += 1;
    }
    assert(listings@.take(listings@.len() as int) =~= listings@);
    out
}

/// Registered names that are no longer wanted, in registry order.
pub open spec fn stale_names(index: Seq<Seq<char>>, desired: Map<Seq<char>, ResolvedView>) -> Seq<Seq<char>>
    decreases index.len(),
{
    if index.len() == 0 {
        seq![]
    } else {
        let prev = stale_names(index.drop_last(), desired);
        if desired.dom().contains(index.last()) {
            prev
        } else {
            prev.push(index.last())
        }
    }
}

/// The views of a list of strings.
pub open spec fn strings_view(v: Seq<String>) -> Seq<Seq<char>> {
    v.map_values(|s: String| s@)
}

fn has_name(desired: &Vec<(String, ResolvedTool)>, name: &String) -> (b: bool)
    ensures
        b == entries_map(resolved_view(desired@)).dom().contains(name@),
{
    let key = chars_of(name.as_str());
    let ghost es = resolved_view(desired@);
    let mut i: usize = 0;
    while i < desired.len()
        invariant
            i <= desired@.len(),
            es == resolved_view(desired@),
            key@ == name@,
            forall|j: int| 0 <= j < i ==> es[j].0 != name@,
        decreases desired.len() - i,
    {
        if chars_eq(&chars_of(desired[i].0.as_str()), &key) {
            assert(es[i as int].0 == name@);
            proof {
                lemma_entries_map_keys(es, name@);
            }
            return true;
        }
        i += 1;
    }
    proof {
        lemma_entries_map_keys(es, name@);
    }
    false
}

/// The registered names to drop: those the desired registry lacks.
pub fn stale_tools(index: &Vec<String>, desired: &Vec<(String, ResolvedTool)>) -> (r: Vec<String>)
    ensures
        strings_view(r@) == stale_names(strings_view(index@), entries_map(resolved_view(desired@))),
{
    let ghost iv = strings_view(index@);
    let ghost m = entries_map(resolved_view(desired@));
    let mut out: Vec<String> = Vec::new();
    let mut i: usize = 0;
    assert(iv.take(0) =~= Seq::<Seq<char>>::empty());
    while i < index.len()
        invariant
            i <= index@.len(),
            iv == strings_view(index@),
            m == entries_map(resolved_view(desired@)),
            strings_view(out@) == stale_names(iv.take(i as int), m),
        decreases index.len() - i,
    {
        assert(iv.take(i + 1).drop_last() =~= iv.take(i as int));
        if !has_name(desired, &index[i]) {
            let ghost before = out@;
            out.push(index[i].clone());
            assert(strings_view(out@) =~= strings_view(before).push(iv[i as int]));
        }
        i += 1;
    }
    assert(iv.take(index@.len() as int) =~= iv);
    out
}

/// The first listed tool named `name`.
pub open spec fn first_tool(tools: Seq<ListedTool>, name: Seq<char>) -> Option<ListedTool>
    decreases tools.len(),
{
    if tools.len() == 0 {
        None
    } else if tools[0].name@ == name {
        Some(tools[0])
    } else {
        first_tool(tools.drop_first(), name)
    }
}

/// The first listing of the connector with id `id`.
pub open spec fn first_listing(ls: Seq<ConnectorListing>, id: Seq<char>) -> Option<ConnectorListing>
    decreases ls.len(),
{
    if ls.len() == 0 {
        None
    } else if ls[0].connector.id@ == id {
        Some(ls[0])
    } else {
        first_listing(ls.drop_first(), id)
    }
}

/// The parameter schema of a tool without one.
pub open spec fn default_parameters() -> Seq<char> {
    "{\"type\":\"object\"}"@
}

/// Description and parameter schema of a registered tool, from the first
/// listing of its connector and the first tool there with its name; an empty
/// description and an object schema when there is none.
pub open spec fn tool_details_spec(ls: Seq<ConnectorListing>, connector_id: Seq<char>, name: Seq<char>) -> (Seq<char>, Seq<char>) {
    match first_listing(ls, connector_id) {
        Some(l) => match l.tools {
            Some(ts) => match first_tool(ts@, name) {
                Some(t) => (t.description@, t.parameters@),
                None => (seq![], default_parameters()),
            },
            None => (seq![], default_parameters()),
        },
        None => (seq![], default_parameters()),
    }
}

fn find_tool(tools: &Vec<ListedTool>, name: &Vec<char>) -> (r: Option<usize>)
    ensures
        r matches Some(k) ==> k < tools@.len() && first_tool(tools@, name@) == Some(tools@[k as int]),
        r is None ==> first_tool(tools@, name@) is None,
{
    let mut i: usize = 0;
    assert(tools@.skip(0) =~= tools@);
    while i < tools.len()
        invariant
            i <= tools@.len(),
            first_tool(tools@, name@) == first_tool(tools@.skip(i as int), name@),
        decreases tools.len() - i,
    {
        assert(tools@.skip(i as int).drop_first() =~= tools@.skip(i + 1));
        if chars_eq(&chars_of(tools[i].name.as_str()), name) {
            return Some(i);
        }
        i += 1;
    }
    assert(tools@.skip(i as int) =~= Seq::<ListedTool>::empty());
    None
}

/// Description and parameter schema to register a tool with.
pub fn tool_details(listings: &Vec<ConnectorListing>, tool: &ResolvedTool) -> (r: (String, String))
    ensures
        (r.0@, r.1@) == tool_details_spec(listings@, tool.connector_id@, tool.original_name@),
{
    let id = chars_of(tool.connector_id.as_str());
    let name = chars_of(tool.original_name.as_str());
    let mut i: usize = 0;
    assert(listings@.skip(0) =~= listings@);
    while i < listings.len()
        invariant
            i <= listings@.len(),
            id@ == tool.connector_id@,
            name@ == tool.original_name@,
            first_listing(listings@, id@) == first_listing(listings@.skip(i as int), id@),
        decreases listings.len() - i,
    {
        assert(listings@.skip(i as int).drop_first() =~= listings@.skip(i + 1));
        assert(listings@.skip(i as int)[0] == listings@[i as int]);
        if chars_eq(&chars_of(listings[i].connector.id.as_str()), &id) {
            if let Some(tools) = &listings[i].tools {
                if let Some(k) = find_tool(tools, &name) {
                    return (tools[k].description.clone(), tools[k].parameters.clone());
                }
            }
            return (String::new(), string_of(&chars_of("{\"type\":\"object\"}")));
        }
        i += 1;
    }
    assert(listings@.skip(i as int) =~= Seq::<ConnectorListing>::empty());
    (String::new(), string_of(&chars_of("{\"type\":\"object\"}")))
}

/// The listing counts for registration: an enabled API or MCP connector
/// whose tools are known.
pub open spec fn listing_usable(l: ConnectorListing) -> bool {
    l.connector.enabled && (l.connector.ctype@ == "api"@ || l.connector.ctype@ == "mcp"@) && l.tools is Some
}

/// Some usable listing offers an active tool whose global name is `k`.
pub open spec fn offers(ls: Seq<ConnectorListing>, k: Seq<char>) -> bool {
    exists|i: int, j: int|
        0 <= i < ls.len() && listing_usable(ls[i]) && 0 <= j < ls[i].tools->0@.len() && tool_active(
            ls[i].connector, #[trigger] ls[i].tools->0@[j]) && global_name_spec(ls[i].connector.id@,
            ls[i].tools->0@[j].name@) == k
}

/// Some entry is named `k`.
pub open spec fn has_entry(es: Seq<(Seq<char>, ResolvedView)>, k: Seq<char>) -> bool {
    exists|i: int| 0 <= i < es.len() && #[trigger] es[i].0 == k
}

proof fn lemma_connector_entries_member(c: Connector, tools: Seq<ListedTool>, k: Seq<char>)
    ensures
        has_entry(connector_entries(c, tools), k) <==> exists|j: int| 0 <= j < tools.len() && tool_active(c,
            #[trigger] tools[j]) && global_name_spec(c.id@, tools[j].name@) == k,
    decreases tools.len(),
{
    if tools.len() > 0 {
        let prev = tools.drop_last();
        lemma_connector_entries_member(c, prev, k);
        let es = connector_entries(c, tools);
        let pes = connector_entries(c, prev);
        if has_entry(es, k) {
            let i = choose|i: int| 0 <= i < es.len() && #[trigger] es[i].0 == k;
            if i < pes.len() {
                assert(pes[i].0 == k);
                let j = choose|j: int| 0 <= j < prev.len() && tool_active(c, #[trigger] prev[j])
                    && global_name_spec(c.id@, prev[j].name@) == k;
                assert(tools[j] == prev[j]);
            } else {
                assert(tools[tools.len() - 1] == tools.last());
            }
        }
        if exists|j: int| 0 <= j < tools.len() && tool_active(c, #[trigger] tools[j]) && global_name_spec(c.id@,
            tools[j].name@) == k {
            let j = choose|j: int| 0 <= j < tools.len() && tool_active(c, #[trigger] tools[j]) && global_name_spec(
                c.id@, tools[j].name@) == k;
            if j < prev.len() {
                assert(prev[j] == tools[j]);
                let i = choose|i: int| 0 <= i < pes.len() && #[trigger] pes[i].0 == k;
                assert(es[i] == pes[i]);
            } else {
                assert(es[es.len() - 1].0 == k);
            }
        }
    }
}

proof fn lemma_all_entries_member(ls: Seq<ConnectorListing>, k: Seq<char>)
    ensures
        has_entry(all_entries(ls), k) <==> offers(ls, k),
    decreases ls.len(),
{
    if ls.len() > 0 {
        let prev = ls.drop_last();
        lemma_all_entries_member(prev, k);
        let l = ls.last();
        let own = if listing_usable(l) { connector_entries(l.connector, l.tools->0@) } else { seq![] };
        assert(all_entries(ls) == all_entries(prev) + own);
        let pes = all_entries(prev);
        let es = all_entries(ls);
        if listing_usable(l) {
            lemma_connector_entries_member(l.connector, l.tools->0@, k);
        }
        if has_entry(es, k) {
            let i = choose|i: int| 0 <= i < es.len() && #[trigger] es[i].0 == k;
            if i < pes.len() {
                assert(pes[i].0 == k);
                let (a, b) = choose|a: int, b: int|
                    0 <= a < prev.len() && listing_usable(prev[a]) && 0 <= b < prev[a].tools->0@.len()
                        && tool_active(prev[a].connector, #[trigger] prev[a].tools->0@[b]) && global_name_spec(
                        prev[a].connector.id@, prev[a].tools->0@[b].name@) == k;
                assert(ls[a] == prev[a]);
                assert(tool_active(ls[a].connector, ls[a].tools->0@[b]));
            } else {
                assert(own[i - pes.len()].0 == k);
                let j = choose|j: int| 0 <= j < l.tools->0@.len() && tool_active(l.connector,
                    #[trigger] l.tools->0@[j]) && global_name_spec(l.connector.id@, l.tools->0@[j].name@) == k;
                assert(ls[ls.len() - 1] == l);
                assert(tool_active(ls[ls.len() - 1].connector, ls[ls.len() - 1].tools->0@[j]));
            }
        }
        if offers(ls, k) {
            let (a, b) = choose|a: int, b: int|
                0 <= a < ls.len() && listing_usable(ls[a]) && 0 <= b < ls[a].tools->0@.len() && tool_active(
                    ls[a].connector, #[trigger] ls[a].tools->0@[b]) && global_name_spec(ls[a].connector.id@,
                    ls[a].tools->0@[b].name@) == k;
            if a < prev.len() {
                assert(prev[a] == ls[a]);
                assert(tool_active(prev[a].connector, prev[a].tools->0@[b]));
                let i = choose|i: int| 0 <= i < pes.len() && #[trigger] pes[i].0 == k;
                assert(es[i] == pes[i]);
            } else {
                assert(ls[a] == l);
                assert(tool_active(l.connector, l.tools->0@[b]));
                let i = choose|i: int| 0 <= i < own.len() && #[trigger] own[i].0 == k;
                assert(es[pes.len() + i] == own[i]);
            }
        }
    }
}

/// A sync registers exactly the active tools of usable listings, the two
/// levels of enablement together: nothing of a disabled connector; of an
/// enabled one, an API tool only when the tool itself is enabled, an MCP tool
/// unless switched off in the tool states, and nothing of an unreachable
/// server.
pub proof fn lemma_desired_is_active_tools(ls: Seq<ConnectorListing>, k: Seq<char>)
    ensures
        desired_tools(ls).dom().contains(k) <==> offers(ls, k),
{
    lemma_entries_map_keys(all_entries(ls), k);
    lemma_all_entries_member(ls, k);
}

} // verus!

//! Agent turn helpers: document and reminder context injection, skill-gated
//! tool filtering, history compression, and the agent's configuration and
//! output types.
use vstd::prelude::*;
use crate::cron::{CronJob, Reminder};
use crate::llm::{ChatMessage, ToolDefinition, Usage};
use crate::text::{
    byte_len, byte_prefix, byte_prefix_chars, chars_eq, chars_of, contains_seq, decimal, join, join_chars,
    push_chars, push_decimal, push_str, string_of,
};

verus! {

/// A user message sent to an agent session.
#[derive(Debug, Clone)]
pub struct UserMessage {
    pub session_id: String,
    pub content: String,
}

/// Events an agent sends back to the client.
#[derive(Debug, Clone)]
pub enum AgentOutput {
    TextDelta(String),
    ToolCallStart { name: String, call_id: String },
    ToolCallEnd { name: String, result: String },
    Done { usage: Usage },
    Error(String),
}

/// Configuration of an agent instance.
#[derive(Debug, Clone)]
pub struct AgentConfig {
    pub user_id: String,
    pub workspace_root: String,
    pub model: String,
    pub max_turns: usize,
}

impl Default for AgentConfig {
    fn default() -> (r: Self)
        ensures
            r.user_id@.len() == 0,
            r.workspace_root@.len() == 0,
            r.model@ == "openai:gpt-4o"@,
            r.max_turns == 20,
    {
        AgentConfig {
            user_id: String::new(),
            workspace_root: String::new(),
            model: string_of(&chars_of("openai:gpt-4o")),
            max_turns: 20,
        }
    }
}

/// Outcome of one agent turn.
#[derive(Debug, Clone)]
pub struct AgentTurnResult {
    /// Final text response of the model.
    pub response: String,
    /// Token usage of the final model call.
    pub usage: Option<(i32, i32, i32)>,
    /// Number of model calls made.
    pub turns_used: usize,
    /// Whether the turn ended normally (not at the turn limit).
    pub completed: bool,
}

/// A task for a sub-agent.
#[derive(Debug, Clone)]
pub struct DelegateTask {
    pub task_description: String,
    pub workspace: String,
}

/// Spawns sub-agent tasks for a user.
#[derive(Debug, Clone)]
pub struct DelegateSpawner {
    user_id: String,
    workspace_root: String,
}

impl DelegateSpawner {
    pub closed spec fn spec_user_id(&self) -> Seq<char> {
        self.user_id@
    }

    pub closed spec fn spec_workspace_root(&self) -> Seq<char> {
        self.workspace_root@
    }

    /// A spawner for `user_id` working in `workspace_root`.
    pub fn new(user_id: String, workspace_root: String) -> (r: Self)
        ensures
            r.spec_user_id() == user_id@,
            r.spec_workspace_root() == workspace_root@,
    {
        DelegateSpawner { user_id, workspace_root }
    }
}

/// Longest attached document content kept in the prompt, in bytes.
pub const MAX_DOC_BYTES: usize = 15000;

/// A document's content as shown in the prompt.
pub open spec fn shown_content(c: Seq<char>) -> Seq<char> {
    if byte_len(c) > MAX_DOC_BYTES {
        byte_prefix(c, MAX_DOC_BYTES as nat) + "\n\n[... content truncated, "@ + decimal(byte_len(c))
            + " chars total ...]"@
    } else {
        c
    }
}

/// The prompt block of one attached document.
pub open spec fn doc_part(name: Seq<char>, path: Option<Seq<char>>, content: Seq<char>) -> Seq<char> {
    "=== "@ + name + " (path: "@ + path.unwrap_or(Seq::<char>::empty()) + ") ===\n"@ + shown_content(content)
        + "\n=== END ==="@
}

/// View of an attached document (name, optional path, content).
pub open spec fn doc_view(d: (String, Option<String>, String)) -> (Seq<char>, Option<Seq<char>>, Seq<char>) {
    (d.0@, match d.1 { Some(p) => Some(p@), None => None }, d.2@)
}

/// Blocks of the documents with content, in order.
pub open spec fn doc_parts(docs: Seq<(Seq<char>, Option<Seq<char>>, Seq<char>)>) -> Seq<Seq<char>>
    decreases docs.len(),
{
    if docs.len() == 0 {
        seq![]
    } else {
        let d = docs.last();
        let prev = doc_parts(docs.drop_last());
        if d.2.len() > 0 {
            prev.push(doc_part(d.0, d.1, d.2))
        } else {
            prev
        }
    }
}

/// The text appended to the system prompt for attached documents.
pub open spec fn doc_block(docs: Seq<(Seq<char>, Option<Seq<char>>, Seq<char>)>) -> Seq<char> {
    "\n\n## ATTACHED REFERENCE DOCUMENTS\nThe user has attached "@ + decimal(docs.len())
        + " document(s) to this conversation: "@
        + join(docs.map_values(|d: (Seq<char>, Option<Seq<char>>, Seq<char>)| d.0), ", "@)
        + "\nRelevant sections have been retrieved using semantic search.\n\n⚠️ CRITICAL RULES — YOU MUST FOLLOW THESE:\n1. Use the document content below to answer questions.\n2. If the relevant sections don't contain the answer, say so.\n3. You can use doc_retrieve tool for more specific searches.\n4. Do NOT call pdf_parse, file_read to access these files - content is already provided.\n\n"@ + join(doc_parts(docs), "\n\n"@) + "\n"@
}

fn doc_part_exec(d: &(String, Option<String>, String)) -> (r: Vec<char>)
    ensures
        r@ == doc_part(doc_view(*d).0, doc_view(*d).1, doc_view(*d).2),
{
    let mut out: Vec<char> = Vec::new();
    push_str(&mut out, "=== ");
    push_str(&mut out, d.0.as_str());
    push_str(&mut out, " (path: ");
    match &d.1 {
        Some(p) => push_str(&mut out, p.as_str()),
        None => {},
    }
    push_str(&mut out, ") ===\n");
    let ghost head = out@;
    assert(head =~= "=== "@ + d.0@ + " (path: "@ + doc_view(*d).1.unwrap_or(Seq::<char>::empty()) + ") ===\n"@);
    let cs = chars_of(d.2.as_str());
    let (prefix, whole) = byte_prefix_chars(&cs, MAX_DOC_BYTES);
    if whole {
        push_chars(&mut out, &cs);
        assert(out@ =~= head + shown_content(d.2@));
    } else {
        push_chars(&mut out, &prefix);
        push_str(&mut out, "\n\n[... content truncated, ");
        proof {
            crate::text::lemma_encode_utf8_len(d.2@);
        }
        push_decimal(&mut out, d.2.as_str().as_bytes().len() as u64);
        push_str(&mut out, " chars total ...]");
        assert(out@ =~= head + shown_content(d.2@));
    }
    push_str(&mut out, "\n=== END ===");
    assert(out@ =~= head + shown_content(d.2@) + "\n=== END ==="@);
    out
}

/// Appends the attached documents to the system prompt (`history[0]`); the
/// history is unchanged when it or `docs` is empty or no document has content.
pub fn inject_documents_to_system_prompt(
    history: &mut Vec<ChatMessage>,
    docs: &[(String, Option<String>, String)],
)
    ensures
        ({
            let dv = docs@.map_values(|d: (String, Option<String>, String)| doc_view(d));
            if docs@.len() == 0 || old(history)@.len() == 0 || doc_parts(dv).len() == 0 {
                final(history)@ == old(history)@
            } else {
                &&& final(history)@.len() == old(history)@.len()
                &&& forall|k: int| 1 <= k < old(history)@.len() ==> final(history)@[k] == old(history)@[k]
                &&& final(history)@[0].role == old(history)@[0].role
                &&& final(history)@[0].tool_calls == old(history)@[0].tool_calls
                &&& final(history)@[0].tool_call_id == old(history)@[0].tool_call_id
                &&& final(history)@[0].reasoning_content == old(history)@[0].reasoning_content
                &&& final(history)@[0].content@ == old(history)@[0].content@ + doc_block(dv)
            }
        }),
{
    let ghost dv = docs@.map_values(|d: (String, Option<String>, String)| doc_view(d));
    if docs.len() == 0 || history.len() == 0 {
        return;
    }
    let mut parts: Vec<Vec<char>> = Vec::new();
    let mut names: Vec<char> = Vec::new();
    let mut i: usize = 0;
    while i < docs.len()
        invariant
            i <= docs.len(),
            dv == docs@.map_values(|d: (String, Option<String>, String)| doc_view(d)),
            parts@.map_values(|x: Vec<char>| x@) == doc_parts(dv.take(i as int)),
            names@ == join(dv.take(i as int).map_values(|d: (Seq<char>, Option<Seq<char>>, Seq<char>)| d.0), ", "@),
        decreases docs.len() - i,
    {
        let ghost before = parts@.map_values(|x: Vec<char>| x@);
        let ghost nb = dv.take(i as int).map_values(|d: (Seq<char>, Option<Seq<char>>, Seq<char>)| d.0);
        assert(dv.take(i + 1).drop_last() =~= dv.take(i as int));
        assert(dv.take(i + 1).last() == doc_view(docs@[i as int]));
        assert(dv.take(i + 1).map_values(|d: (Seq<char>, Option<Seq<char>>, Seq<char>)| d.0).drop_last() =~= nb);
        if i > 0 {
            push_str(&mut names, ", ");
        } else {
            assert(nb =~= Seq::<Seq<char>>::empty());
        }
        push_str(&mut names, docs[i].0.as_str());
        if !docs[i].2.as_str().is_empty() {
            let p = doc_part_exec(&docs[i]);
            parts.push(p);
            assert(parts@.map_values(|x: Vec<char>| x@) =~= before.push(p@));
        }
        i += 1;
    }
    assert(dv.take(docs.len() as int) =~= dv);
    if parts.len() == 0 {
        return;
    }
    let ghost pv = parts@.map_values(|x: Vec<char>| x@);
    let mut block: Vec<char> = Vec::new();
    push_str(&mut block, "\n\n## ATTACHED REFERENCE DOCUMENTS\nThe user has attached ");
    push_decimal(&mut block, docs.len() as u64);
    push_str(&mut block, " document(s) to this conversation: ");
    push_chars(&mut block, &names);
    push_str(&mut block, "\nRelevant sections have been retrieved using semantic search.\n\n⚠️ CRITICAL RULES — YOU MUST FOLLOW THESE:\n1. Use the document content below to answer questions.\n2. If the relevant sections don't contain the answer, say so.\n3. You can use doc_retrieve tool for more specific searches.\n4. Do NOT call pdf_parse, file_read to access these files - content is already provided.\n\n");
    let mut k: usize = 0;
    let ghost base = block@;
    while k < parts.len()
        invariant
            k <= parts.len(),
            pv == parts@.map_values(|x: Vec<char>| x@),
            block@ == base + join(pv.take(k as int), "\n\n"@),
        decreases parts.len() - k,
    {
        assert(pv.take(k + 1).drop_last() =~= pv.take(k as int));
        if k > 0 {
            push_str(&mut block, "\n\n");
        } else {
            assert(pv.take(0) =~= Seq::<Seq<char>>::empty());
        }
        push_chars(&mut block, &parts[k]);
        assert(block@ =~= base + join(pv.take(k + 1), "\n\n"@));
        k += 1;
    }
    assert(pv.take(parts.len() as int) =~= pv);
    push_str(&mut block, "\n");
    assert(block@ =~= doc_block(dv));
    let mut first = history.remove(0);
    let mut content = chars_of(first.content.as_str());
    push_chars(&mut content, &block);
    first.content = string_of(&content);
    history.insert(0, first);
}

/// The Excel guidance text.
pub const EXCEL_GUIDANCE: &'static str = "\n\nExcel analysis guidance:\n- If the user asks about an uploaded Excel file, prefer using excel_db first. Start with action=\"list\" to find the imported database, then inspect schema if needed, then run focused SELECT queries.\n- Do not call file_list, file_search, or doc_list unless excel_db clearly shows the workbook/database is missing or you need to locate the source file after excel_db fails.\n- Avoid repeated exploratory tool loops. Once you have enough rows or aggregates to answer, stop calling tools and provide a concise conclusion.\n- For questions like '大家都在问什么' or query analysis, summarize recurring intents/themes, representative examples, and notable frequencies/patterns from the data instead of only dumping raw rows.";

/// Whether the user's message mentions spreadsheets.
pub open spec fn mentions_excel(s: Seq<char>) -> bool {
    contains_seq(s, "xlsx"@) || contains_seq(s, "xls"@) || contains_seq(s, "Excel"@) || contains_seq(s, "表格"@)
        || contains_seq(s, "工作表"@) || contains_seq(s, "query"@)
}

fn contains_str(s: &Vec<char>, p: &str) -> (r: bool)
    ensures
        r == contains_seq(s@, p@),
{
    let pc = chars_of(p);
    proof {
        crate::text::lemma_find_from_correct(s@, pc@, 0);
    }
    crate::text::find_from_exec(s, &pc, 0).is_some()
}

/// Guidance for spreadsheet analysis, when the message mentions spreadsheets
/// or Excel documents are attached.
pub fn build_excel_analysis_guidance(user_content: &str, has_excel_docs: bool) -> (r: Option<String>)
    ensures
        (mentions_excel(user_content@) || has_excel_docs) ==> (r matches Some(g) && g@ == EXCEL_GUIDANCE@),
        !(mentions_excel(user_content@) || has_excel_docs) ==> r is None,
{
    let s = chars_of(user_content);
    let mentions = contains_str(&s, "xlsx") || contains_str(&s, "xls") || contains_str(&s, "Excel")
        || contains_str(&s, "表格") || contains_str(&s, "工作表") || contains_str(&s, "query");
    if !mentions && !has_excel_docs {
        return None;
    }
    Some(string_of(&chars_of(EXCEL_GUIDANCE)))
}

/// One reminder line of the context message.
pub open spec fn reminder_line(r: Reminder) -> Seq<char> {
    "- [id: "@ + r.id@ + "] \""@ + r.message@ + "\" (triggers at: "@ + r.fire_at@ + ")"@
}

/// One cron job line of the context message.
pub open spec fn cron_line(j: CronJob) -> Seq<char> {
    "- [id: "@ + j.id@ + "] \""@ + j.prompt@ + "\" (Schedule: "@ + j.schedule@ + ")"@
}

/// Content of the reminder context message.
pub open spec fn reminder_context(reminders: Seq<Reminder>, jobs: Seq<CronJob>) -> Seq<char> {
    let r = if reminders.len() > 0 {
        seq!["User's active reminders:\n"@ + join(reminders.map_values(|x: Reminder| reminder_line(x)), "\n"@)]
    } else {
        seq![]
    };
    let c = if jobs.len() > 0 {
        seq!["User's active cron jobs:\n"@ + join(jobs.map_values(|x: CronJob| cron_line(x)), "\n"@)]
    } else {
        seq![]
    };
    "[Context] "@ + join(r + c, "\n\n"@)
}

/// A `user` message listing the active reminders and cron jobs; `None` when
/// there are neither.
pub fn build_reminder_context_msg(reminders: &[Reminder], cron_jobs: &[CronJob]) -> (r: Option<ChatMessage>)
    ensures
        (reminders@.len() == 0 && cron_jobs@.len() == 0) ==> r is None,
        !(reminders@.len() == 0 && cron_jobs@.len() == 0) ==> (r matches Some(m) && m.role@ == "user"@
            && m.content@ == reminder_context(reminders@, cron_jobs@) && m.tool_calls is None
            && m.tool_call_id is None && m.reasoning_content is None),
{
    if reminders.len() == 0 && cron_jobs.len() == 0 {
        return None;
    }
    let mut sections: Vec<Vec<char>> = Vec::new();
    if reminders.len() > 0 {
        let mut lines: Vec<Vec<char>> = Vec::new();
        let mut i: usize = 0;
        while i < reminders.len()
            invariant
                i <= reminders.len(),
                lines@.map_values(|x: Vec<char>| x@) == reminders@.take(i as int).map_values(|x: Reminder| reminder_line(x)),
            decreases reminders.len() - i,
        {
            let r = &reminders[i];
            let mut l: Vec<char> = Vec::new();
            push_str(&mut l, "- [id: ");
            push_str(&mut l, r.id.as_str());
            push_str(&mut l, "] \"");
            push_str(&mut l, r.message.as_str());
            push_str(&mut l, "\" (triggers at: ");
            push_str(&mut l, r.fire_at.as_str());
            push_str(&mut l, ")");
            let ghost before = lines@.map_values(|x: Vec<char>| x@);
            lines.push(l);
            assert(reminders@.take(i + 1) =~= reminders@.take(i as int).push(reminders@[i as int]));
            assert(lines@.map_values(|x: Vec<char>| x@) =~= before.push(l@));
            i += 1;
        }
        assert(reminders@.take(reminders.len() as int) =~= reminders@);
        let mut s = chars_of("User's active reminders:\n");
        let body = join_chars(&lines, "\n");
        push_chars(&mut s, &body);
        sections.push(s);
    }
    if cron_jobs.len() > 0 {
        let mut lines: Vec<Vec<char>> = Vec::new();
        let mut i: usize = 0;
        while i < cron_jobs.len()
            invariant
                i <= cron_jobs.len(),
                lines@.map_values(|x: Vec<char>| x@) == cron_jobs@.take(i as int).map_values(|x: CronJob| cron_line(x)),
            decreases cron_jobs.len() - i,
        {
            let j = &cron_jobs[i];
            let mut l: Vec<char> = Vec::new();
            push_str(&mut l, "- [id: ");
            push_str(&mut l, j.id.as_str());
            push_str(&mut l, "] \"");
            push_str(&mut l, j.prompt.as_str());
            push_str(&mut l, "\" (Schedule: ");
            push_str(&mut l, j.schedule.as_str());
            push_str(&mut l, ")");
            let ghost before = lines@.map_values(|x: Vec<char>| x@);
            lines.push(l);
            assert(cron_jobs@.take(i + 1) =~= cron_jobs@.take(i as int).push(cron_jobs@[i as int]));
            assert(lines@.map_values(|x: Vec<char>| x@) =~= before.push(l@));
            i += 1;
        }
        assert(cron_jobs@.take(cron_jobs.len() as int) =~= cron_jobs@);
        let mut s = chars_of("User's active cron jobs:\n");
        let body = join_chars(&lines, "\n");
        push_chars(&mut s, &body);
        sections.push(s);
    }
    let ghost rs = if reminders@.len() > 0 {
        seq!["User's active reminders:\n"@ + join(reminders@.map_values(|x: Reminder| reminder_line(x)), "\n"@)]
    } else {
        seq![]
    };
    let ghost cs = if cron_jobs@.len() > 0 {
        seq!["User's active cron jobs:\n"@ + join(cron_jobs@.map_values(|x: CronJob| cron_line(x)), "\n"@)]
    } else {
        seq![]
    };
    assert(sections@.map_values(|x: Vec<char>| x@) =~= rs + cs);
    let mut content = chars_of("[Context] ");
    let joined = join_chars(&sections, "\n\n");
    push_chars(&mut content, &joined);
    Some(ChatMessage {
        role: string_of(&chars_of("user")),
        content: string_of(&content),
        tool_calls: None,
        tool_call_id: None,
        reasoning_content: None,
    })
}

/// The skill that gates a tool, if any.
pub open spec fn required_skill(tool: Seq<char>) -> Option<Seq<char>> {
    if tool == "web_search"@ {
        Some("builtin:web_search"@)
    } else if tool == "excel_db"@ {
        Some("builtin:excel_data"@)
    } else if tool == "file_read"@ || tool == "file_write"@ || tool == "file_list"@ || tool == "file_delete"@
        || tool == "file_move"@ || tool == "file_copy"@ || tool == "file_search"@ || tool == "dir_create"@
        || tool == "dir_list"@ || tool == "file_info"@ || tool == "shell"@ {
        Some("builtin:code_engineer"@)
    } else {
        None
    }
}

/// Whether a tool is available with the given enabled skills.
pub open spec fn tool_allowed(tool: Seq<char>, enabled: Seq<Seq<char>>) -> bool {
    match required_skill(tool) {
        Some(s) => enabled.contains(s),
        None => true,
    }
}

/// The file and shell tools.
pub open spec fn file_or_shell_tool(name: Seq<char>) -> bool {
    name == "file_read"@ || name == "file_write"@ || name == "file_list"@ || name == "file_delete"@ || name
        == "file_move"@ || name == "file_copy"@ || name == "file_search"@ || name == "dir_create"@ || name
        == "dir_list"@ || name == "file_info"@ || name == "shell"@
}

/// Web search needs the web-search skill and the Excel database tool the
/// Excel-data skill; a tool that is neither of these nor a file or shell tool
/// is always offered.
pub proof fn lemma_other_tool_gates(name: Seq<char>, enabled: Seq<Seq<char>>)
    ensures
        name == "web_search"@ ==> (tool_allowed(name, enabled) <==> enabled.contains("builtin:web_search"@)),
        name == "excel_db"@ ==> (tool_allowed(name, enabled) <==> enabled.contains("builtin:excel_data"@)),
        name != "web_search"@ && name != "excel_db"@ && !file_or_shell_tool(name) ==> tool_allowed(name, enabled),
{
    reveal_strlit("web_search");
    reveal_strlit("excel_db");
    assert("web_search"@[0] != "excel_db"@[0]);
}

/// The tools offered with the skills `enabled`, in order.
pub open spec fn offered_tools(all: Seq<ToolDefinition>, enabled: Seq<Seq<char>>) -> Seq<ToolDefinition> {
    all.filter(|t: ToolDefinition| tool_allowed(t.function.name@, enabled))
}

/// Every file and shell tool is offered exactly when the code-engineering
/// skill is enabled: the offered tools hold a file or shell tool only with
/// `builtin:code_engineer` enabled, and with it enabled they keep every one.
pub proof fn lemma_file_tools_need_code_engineer(all: Seq<ToolDefinition>, enabled: Seq<Seq<char>>)
    ensures
        forall|name: Seq<char>|
            file_or_shell_tool(name) ==> (#[trigger] tool_allowed(name, enabled) <==> enabled.contains(
                "builtin:code_engineer"@,
            )),
        forall|i: int|
            0 <= i < offered_tools(all, enabled).len() && file_or_shell_tool(
                (#[trigger] offered_tools(all, enabled)[i]).function.name@,
            ) ==> enabled.contains("builtin:code_engineer"@),
        enabled.contains("builtin:code_engineer"@) ==> forall|i: int|
            0 <= i < all.len() && file_or_shell_tool(all[i].function.name@) ==> offered_tools(all, enabled).contains(
                #[trigger] all[i],
            ),
{
    let pred = |t: ToolDefinition| tool_allowed(t.function.name@, enabled);
    assert forall|name: Seq<char>| file_or_shell_tool(name) implies (#[trigger] tool_allowed(name, enabled)
        <==> enabled.contains("builtin:code_engineer"@)) by {
        reveal_strlit("web_search");
        reveal_strlit("excel_db");
        reveal_strlit("file_read");
        reveal_strlit("file_write");
        reveal_strlit("file_list");
        reveal_strlit("file_delete");
        reveal_strlit("file_move");
        reveal_strlit("file_copy");
        reveal_strlit("file_search");
        reveal_strlit("dir_create");
        reveal_strlit("dir_list");
        reveal_strlit("file_info");
        reveal_strlit("shell");
        assert("file_read"@[0] == 'f' && "file_write"@[0] == 'f' && "file_list"@[0] == 'f' && "file_delete"@[0]
            == 'f' && "file_move"@[0] == 'f' && "file_copy"@[0] == 'f' && "file_search"@[0] == 'f'
            && "file_info"@[0] == 'f' && "dir_create"@[0] == 'd' && "dir_list"@[0] == 'd' && "shell"@[0] == 's');
        assert(name.len() > 0 && (name[0] == 'f' || name[0] == 'd' || name[0] == 's'));
        assert("web_search"@[0] == 'w' && "excel_db"@[0] == 'e');
        assert(name != "web_search"@);
        assert(name != "excel_db"@);
    }
    assert forall|i: int|
        0 <= i < all.filter(pred).len() implies pred(#[trigger] all.filter(pred)[i]) by {
        all.lemma_filter_pred(pred, i);
    }
    if enabled.contains("builtin:code_engineer"@) {
        assert forall|i: int| 0 <= i < all.len() && file_or_shell_tool(all[i].function.name@) implies all.filter(
            pred,
        ).contains(#[trigger] all[i]) by {
            all.lemma_filter_contains(pred, i);
        }
    }
}

fn required_skill_exec(name: &Vec<char>) -> (r: Option<&'static str>)
    ensures
        r matches Some(s) ==> required_skill(name@) == Some(s@),
        r is None ==> required_skill(name@) is None,
{
    if chars_eq(name, &chars_of("web_search")) {
        Some("builtin:web_search")
    } else if chars_eq(name, &chars_of("excel_db")) {
        Some("builtin:excel_data")
    } else if chars_eq(name, &chars_of("file_read")) || chars_eq(name, &chars_of("file_write"))
        || chars_eq(name, &chars_of("file_list")) || chars_eq(name, &chars_of("file_delete"))
        || chars_eq(name, &chars_of("file_move")) || chars_eq(name, &chars_of("file_copy"))
        || chars_eq(name, &chars_of("file_search")) || chars_eq(name, &chars_of("dir_create"))
        || chars_eq(name, &chars_of("dir_list")) || chars_eq(name, &chars_of("file_info"))
        || chars_eq(name, &chars_of("shell")) {
        Some("builtin:code_engineer")
    } else {
        None
    }
}

/// The tools the user may use: those not gated by a skill, and those whose
/// skill is enabled; order is kept.
pub fn filter_tools_by_skill(all_schemas: &[ToolDefinition], enabled_skill_ids: &[String]) -> (r: Vec<ToolDefinition>)
    ensures
        r@ == offered_tools(all_schemas@, enabled_skill_ids@.map_values(|x: String| x@)),
{
    let ghost ev = enabled_skill_ids@.map_values(|x: String| x@);
    let ghost pred = |t: ToolDefinition| tool_allowed(t.function.name@, ev);
    let mut out: Vec<ToolDefinition> = Vec::new();
    let mut i: usize = 0;
    while i < all_schemas.len()
        invariant
            i <= all_schemas.len(),
            ev == enabled_skill_ids@.map_values(|x: String| x@),
            pred == (|t: ToolDefinition| tool_allowed(t.function.name@, ev)),
            out@ == all_schemas@.take(i as int).filter(pred),
        decreases all_schemas.len() - i,
    {
        let t = &all_schemas[i];
        let name = chars_of(t.function.name.as_str());
        let allowed = match required_skill_exec(&name) {
            Some(skill) => {
                let sk = chars_of(skill);
                let mut found = false;
                let mut j: usize = 0;
                while j < enabled_skill_ids.len()
                    invariant
                        j <= enabled_skill_ids.len(),
                        ev == enabled_skill_ids@.map_values(|x: String| x@),
                        found == ev.take(j as int).contains(sk@),
                    decreases enabled_skill_ids.len() - j,
                {
                    let e = chars_of(enabled_skill_ids[j].as_str());
                    assert(ev.take(j + 1) =~= ev.take(j as int).push(e@));
                    if chars_eq(&e, &sk) {
                        found = true;
                    }
                    proof {
                        if found && !ev.take(j as int).contains(sk@) {
                            assert(ev.take(j + 1)[j as int] == sk@);
                        }
                        if found && ev.take(j as int).contains(sk@) {
                            let w = choose|w: int| 0 <= w < j && #[trigger] ev.take(j as int)[w] == sk@;
                            assert(ev.take(j + 1)[w] == sk@);
                        }
                        if !found && ev.take(j + 1).contains(sk@) {
                            let w = choose|w: int| 0 <= w < j + 1 && #[trigger] ev.take(j + 1)[w] == sk@;
                            if w < j {
                                assert(ev.take(j as int)[w] == sk@);
                            }
                        }
                    }
                    j += 1;
                }
                assert(ev.take(enabled_skill_ids.len() as int) =~= ev);
                found
            },
            None => true,
        };
        assert(all_schemas@.take(i + 1).drop_last() =~= all_schemas@.take(i as int));
        reveal_with_fuel(Seq::<_>::filter, 1);
        if allowed {
            out.push(t.clone());
        }
        i += 1;
    }
    assert(all_schemas@.take(all_schemas.len() as int) =~= all_schemas@);
    out
}


/// The note that stands for the summarised middle of a compressed history.
pub open spec fn compression_note(summarized: nat, preserved: nat) -> Seq<char> {
    "[Context compressed: "@ + decimal(summarized) + " messages summarized. "@ + decimal(preserved)
        + " messages preserved.]"@
}

/// A conversation by its message views after compression: the first `f` and
/// the last `l` messages kept, an assistant note in place of the rest; a
/// conversation no longer than `f + l` stays as it is.
pub open spec fn compressed_view(h: Seq<crate::llm::MessageView>, f: nat, l: nat) -> Seq<crate::llm::MessageView> {
    if h.len() <= f + l {
        h
    } else {
        h.take(f as int) + seq![("assistant"@, compression_note((h.len() - f - l) as nat, f + l), None, None, None)]
            + h.skip(h.len() - l)
    }
}

/// Compressing keeps what `compressed_view` says of the message views.
pub proof fn lemma_compress_history_view(messages: Seq<ChatMessage>, r: Seq<ChatMessage>, f: nat, l: nat)
    requires
        messages.len() <= f + l ==> r == messages,
        messages.len() > f + l ==> {
            &&& r.len() == f + 1 + l
            &&& r.take(f as int) == messages.take(f as int)
            &&& r.skip(f + 1int) == messages.skip(messages.len() - l)
            &&& r[f as int].role@ == "assistant"@
            &&& r[f as int].content@ == compression_note((messages.len() - f - l) as nat, f + l)
            &&& r[f as int].tool_calls is None
            &&& r[f as int].tool_call_id is None
            &&& r[f as int].reasoning_content is None
        },
    ensures
        crate::llm::messages_view(r) == compressed_view(crate::llm::messages_view(messages), f, l),
{
    let h = crate::llm::messages_view(messages);
    if messages.len() > f + l {
        let c = compressed_view(h, f, l);
        let rv = crate::llm::messages_view(r);
        assert forall|i: int| 0 <= i < rv.len() implies rv[i] == c[i] by {
            if i < f {
                assert(r[i] == r.take(f as int)[i]);
                assert(messages[i] == messages.take(f as int)[i]);
            } else if i == f {
            } else {
                assert(r[i] == r.skip(f + 1int)[i - f - 1]);
                assert(messages[i - f - 1 + messages.len() - l] == messages.skip(messages.len() - l)[i - f - 1]);
            }
        }
        assert(rv =~= c);
    }
}

/// Compresses a conversation: keeps the first `protect_first_n` and the last
/// `protect_last_n` messages and puts an assistant note in place of the rest;
/// a history no longer than both together is returned unchanged.
pub fn compress_history(messages: Vec<ChatMessage>, protect_first_n: usize, protect_last_n: usize) -> (r: Vec<
    ChatMessage,
>)
    ensures
        messages@.len() <= protect_first_n + protect_last_n ==> r@ == messages@,
        messages@.len() > protect_first_n + protect_last_n ==> {
            &&& r@.len() == protect_first_n + 1 + protect_last_n
            &&& r@.take(protect_first_n as int) == messages@.take(protect_first_n as int)
            &&& r@.skip(protect_first_n + 1) == messages@.skip(messages@.len() - protect_last_n)
            &&& r@[protect_first_n as int].role@ == "assistant"@
            &&& r@[protect_first_n as int].content@ == compression_note(
                (messages@.len() - protect_first_n - protect_last_n) as nat,
                (protect_first_n + protect_last_n) as nat,
            )
            &&& r@[protect_first_n as int].tool_calls is None
            &&& r@[protect_first_n as int].tool_call_id is None
            &&& r@[protect_first_n as int].reasoning_content is None
        },
{
    let n = messages.len();
    if n <= protect_first_n || n - protect_first_n <= protect_last_n {
        return messages;
    }
    let mut v = messages;
    let mut tail = v.split_off(n - protect_last_n);
    v.truncate(protect_first_n);
    let mut note: Vec<char> = Vec::new();
    push_str(&mut note, "[Context compressed: ");
    push_decimal(&mut note, (n - protect_first_n - protect_last_n) as u64);
    push_str(&mut note, " messages summarized. ");
    push_decimal(&mut note, (protect_first_n + protect_last_n) as u64);
    push_str(&mut note, " messages preserved.]");
    v.push(ChatMessage {
        role: string_of(&chars_of("assistant")),
        content: string_of(&note),
        tool_calls: None,
        tool_call_id: None,
        reasoning_content: None,
    });
    let ghost mid = v@;
    v.append(&mut tail);
    assert(v@.take(protect_first_n as int) =~= messages@.take(protect_first_n as int));
    assert(v@.skip(protect_first_n + 1) =~= messages@.skip(n - protect_last_n));
    v
}

/// The identity used when no custom one is set.
pub const DEFAULT_IDENTITY: &'static str = "You are Jcowork Agent, an intelligent AI assistant.";

/// Text between the identity and the current time.
pub const PROMPT_AFTER_IDENTITY: &'static str = "\n\n**IMPORTANT: Current date and time: ";

/// Text between the current time and the current year.
pub const PROMPT_AFTER_TIME: &'static str = "**\nWhen searching for latest news or events, ALWAYS use the current year (";

/// The tool and memory guidance, up to today's date.
pub const PROMPT_TOOLS_GUIDE: &'static str = ") in your search queries. Do NOT use outdated years.\n\nYou have the following tools available:\n\n**reminder_add** — Set a one-time reminder. Use this when the user asks to set an alarm, reminder, or notification at a specific time.\n  Parameters: fire_at (北京时间，ISO 8601 格式，如 \"2026-05-15T11:41:00+08:00\"), message (the reminder text)\n\n**reminder_list** — List all active reminders for the current user.\n\n**reminder_remove** — Remove a reminder by ID.\n\n**cron_add** — Schedule a recurring task using cron syntax.\n\n**cron_list** — List cron jobs.\n\n**cron_remove** — Remove a cron job.\n\n**memory_save** — Save a durable fact or life event to persistent memory.\n  Parameters: content (declarative statement), category ('life_event' | 'preference' | 'environment' | 'convention' | 'person' | 'habit' | 'general')\n  Returns: the saved entry including its `id` (UUID) — keep this ID in mind for possible later update.\n  IMPORTANT: Call memory_save only ONCE per piece of information. Combine all related details into a single call. Do NOT make multiple memory_save calls for the same fact.\n\n**memory_update** — Update an existing memory entry with new or updated content.\n  Parameters: id (UUID from memory_save), content (full updated text), category (optional)\n\n**memory_recall** — Recall all saved memories (includes entry IDs).\n\n**memory_search** — Search memories by keyword (includes entry IDs).\n  Parameters: query (search terms), limit (max results, default 5)\n\nWhen to use memory:\n- The user explicitly tells you to remember something\n- The user shares a preference or fact useful in future conversations\n- **The user casually mentions a daily life event** — proactively save it with category='life_event':\n  - Dropping off / picking up kids (e.g., \"送孩子上学了\" → save \"2026-05-21 08:30 送孩子去学校\")\n  - Meals with someone (e.g., \"和张总吃了个饭\" → save \"2026-05-21 午饭 和张总在[地点]吃饭\")\n  - Going somewhere / doing something (e.g., \"去了趟医院\" → save \"2026-05-21 去医院看病\")\n  - Completing important tasks or meetings\n  Always include the current date/time in the content for life events. Ask for missing details (who, where) only if the event seems significant.\n- DO NOT save purely conversational context with no future value\n- **CRITICAL: Call memory_save only ONCE per fact or event.** If a user mentions multiple related details (e.g., name + family info, preference + condition), combine them into a SINGLE memory_save call. NEVER make duplicate or parallel memory_save calls for the same information.\n\nLife event memory rules:\n- **Never mention the saving action in your reply.** Do NOT say things like \"已记录\"、\"我帮你记下来了\"、\"已保存\" etc. Just respond naturally to what the user said.\n- **If the event is in the future** (e.g., \"明天要去开会\", \"下周送孩子去夏令营\"), after saving it ask: \"需要到时提醒你吗？\" — if the user says yes, use reminder_add or cron_add to set a reminder.\n- **If the conversation continues on the same topic** and adds new details (location, people, outcome etc.), call memory_update with the original entry's id to enrich the content rather than saving a duplicate.\n\nWhen the user asks you to set a reminder or alarm:\n1. Parse the time they mentioned. If they say \"11:41\", assume today at 11:41 北京时间 (UTC+8)。所有时间均使用北京时间，fire_at 的时区偏移固定为 +08:00。\n2. If the time has already passed today, use tomorrow's date.\n3. Call the reminder_add tool with the full ISO 8601 datetime and the reminder message.\n4. Only AFTER the tool returns success, confirm to the user that the reminder has been set.\n\nCRITICAL REMINDER RULES:\n- You MUST call the reminder_add tool to actually set reminders. NEVER claim a reminder is set without calling the tool.\n- Do NOT describe reminders in text and pretend they are set. Text descriptions are NOT reminders.\n- When setting multiple reminders, call reminder_add for EACH one separately (one tool call per reminder).\n- After all reminder_add calls return success, briefly confirm the total count to the user.\n\nDocument search guidance:\n- **If the user attached documents to this conversation, the content is already provided above.** Read it directly — do NOT call doc_retrieve for attached documents.\n- Use **doc_retrieve** for all document searches. It automatically tries semantic search first, then falls back to keyword search. One tool call handles everything.\n- Keep the doc_retrieve `query` argument short and copied from the user's original words (e.g. 用户问\"雨的四季全文\" → query 就是\"雨的四季\"). NEVER add author names, synonyms, or filler words like 全文/内容/课文 — extra words dilute the embedding and hurt recall.\n- When fragments are not enough (e.g. the user asks for the full text 完整全文 or broader context): each doc_retrieve result carries its Offset in the document — call doc_content with that file_path and offset to read forward from the fragment's position. Read only until you have enough to answer, then stop; do NOT read the whole document unnecessarily, and do NOT piece together an answer from scattered fragments alone.\n- If doc_retrieve returns no results, use doc_list to see what documents are available, then inform the user.\n- Avoid repeated tool loops. After 1-2 search attempts, provide your best answer or tell the user what you found.\n\nFile path rules:\n- All file tools (file_read, file_write, file_list, etc.) use paths RELATIVE to the workspace root. NEVER use absolute paths like /Users/xxx/... — they will be rejected.\n- When the user mentions a file they uploaded, use just the filename (e.g. 江家现金流.xlsx) or the relative path shown by file_list.\n- For Excel files, prefer excel_db tool over file_read. Excel files are binary and file_read cannot display their data.\n\n今天是 ";

/// Text between today's date and the current year.
pub const PROMPT_TODAY_AFTER_TIME: &'static str = "。当前年份是 ";

/// Text between the two mentions of the current year.
pub const PROMPT_TODAY_AFTER_YEAR: &'static str = "，搜索最新消息时务必使用 ";

/// The closing reminder rule, before the skill prompt.
pub const PROMPT_CLOSING: &'static str = " 年而非其他年份。\n\nIMPORTANT: When the user asks to set a reminder or alarm, DO NOT give instructions on how to use their phone's clock app. Instead, USE the reminder_add tool to actually set the reminder in the system. NEVER write out a list of reminders in text without calling the tool — that is a hallucination, not a real reminder.";

/// The identity line: a custom identity unless blank, else the default.
pub open spec fn identity_line(custom: Option<Seq<char>>) -> Seq<char> {
    match custom {
        Some(id) => if crate::text::trim(id).len() > 0 { id } else { DEFAULT_IDENTITY@ },
        None => DEFAULT_IDENTITY@,
    }
}

/// The system prompt with identity, the current local time and year, and the
/// skill prompt.
pub open spec fn system_prompt_spec(custom: Option<Seq<char>>, skill_prompt: Seq<char>, current_time: Seq<char>, current_year: Seq<char>) -> Seq<char> {
    identity_line(custom) + PROMPT_AFTER_IDENTITY@ + current_time + PROMPT_AFTER_TIME@ + current_year
        + PROMPT_TOOLS_GUIDE@ + current_time + PROMPT_TODAY_AFTER_TIME@ + current_year + PROMPT_TODAY_AFTER_YEAR@
        + current_year + PROMPT_CLOSING@ + skill_prompt
}

/// The system prompt of an agent turn. The current time is formatted by the
/// caller from the local clock.
pub fn build_system_prompt_with_identity(custom_identity: Option<&str>, skill_prompt: &str, current_time: &str, current_year: &str) -> (r: String)
    ensures
        r@ == system_prompt_spec(match custom_identity {
            Some(s) => Some(s@),
            None => None,
        }, skill_prompt@, current_time@, current_year@),
{
    let mut out: Vec<char> = Vec::new();
    match custom_identity {
        Some(id) => {
            if crate::text::trim_chars(&chars_of(id)).len() > 0 {
                push_str(&mut out, id);
            } else {
                push_str(&mut out, DEFAULT_IDENTITY);
            }
        },
        None => push_str(&mut out, DEFAULT_IDENTITY),
    }
    push_str(&mut out, PROMPT_AFTER_IDENTITY);
    push_str(&mut out, current_time);
    push_str(&mut out, PROMPT_AFTER_TIME);
    push_str(&mut out, current_year);
    push_str(&mut out, PROMPT_TOOLS_GUIDE);
    push_str(&mut out, current_time);
    push_str(&mut out, PROMPT_TODAY_AFTER_TIME);
    push_str(&mut out, current_year);
    push_str(&mut out, PROMPT_TODAY_AFTER_YEAR);
    push_str(&mut out, current_year);
    push_str(&mut out, PROMPT_CLOSING);
    push_str(&mut out, skill_prompt);
    string_of(&out)
}

/// The custom identity among the memories: the content of the first entry
/// in the `agent_identity` category.
pub open spec fn identity_of(entries: Seq<crate::memory::MemoryEntry>) -> Option<Seq<char>>
    decreases entries.len(),
{
    if entries.len() == 0 {
        None
    } else if entries[0].category@ == "agent_identity"@ {
        Some(entries[0].content@)
    } else {
        identity_of(entries.drop_first())
    }
}

/// The custom agent identity from a memory recall; none when the recall
/// failed.
pub fn load_agent_identity(recalled: Option<&Vec<crate::memory::MemoryEntry>>) -> (r: Option<String>)
    ensures
        match recalled {
            Some(v) => match identity_of(v@) {
                Some(c) => r matches Some(x) && x@ == c,
                None => r is None,
            },
            None => r is None,
        },
{
    let v = match recalled {
        Some(v) => v,
        None => {
            return None;
        },
    };
    let key = chars_of("agent_identity");
    let mut i: usize = 0;
    assert(v@.skip(0) =~= v@);
    while i < v.len()
        invariant
            i <= v@.len(),
            key@ == "agent_identity"@,
            recalled == Some(v),
            identity_of(v@) == identity_of(v@.skip(i as int)),
        decreases v.len() - i,
    {
        assert(v@.skip(i as int).drop_first() =~= v@.skip(i + 1));
        assert(v@.skip(i as int)[0] == v@[i as int]);
        if chars_eq(&chars_of(v[i].category.as_str()), &key) {
            return Some(v[i].content.clone());
        }
        i += 1;
    }
    assert(v@.skip(i as int) =~= Seq::<crate::memory::MemoryEntry>::empty());
    None
}

/// The ids of the enabled skills among the memories: the contents of the
/// `skill_enabled` entries, in order.
pub open spec fn enabled_ids_of(entries: Seq<crate::memory::MemoryEntry>) -> Seq<Seq<char>>
    decreases entries.len(),
{
    if entries.len() == 0 {
        seq![]
    } else {
        let prev = enabled_ids_of(entries.drop_last());
        if entries.last().category@ == "skill_enabled"@ {
            prev.push(entries.last().content@)
        } else {
            prev
        }
    }
}

/// The views of a list of strings.
pub open spec fn texts(v: Seq<String>) -> Seq<Seq<char>> {
    v.map_values(|s: String| s@)
}

/// The ids of the skills a user enabled, from a memory recall.
pub fn enabled_skill_ids(recalled: &Vec<crate::memory::MemoryEntry>) -> (r: Vec<String>)
    ensures
        texts(r@) == enabled_ids_of(recalled@),
{
    let key = chars_of("skill_enabled");
    let mut out: Vec<String> = Vec::new();
    let mut i: usize = 0;
    assert(recalled@.take(0) =~= Seq::<crate::memory::MemoryEntry>::empty());
    while i < recalled.len()
        invariant
            i <= recalled@.len(),
            key@ == "skill_enabled"@,
            texts(out@) == enabled_ids_of(recalled@.take(i as int)),
        decreases recalled.len() - i,
    {
        assert(recalled@.take(i + 1).drop_last() =~= recalled@.take(i as int));
        if chars_eq(&chars_of(recalled[i].category.as_str()), &key) {
            let ghost before = out@;
            out.push(recalled[i].content.clone());
            assert(texts(out@) =~= texts(before).push(recalled@[i as int].content@));
        }
        i += 1;
    }
    assert(recalled@.take(recalled@.len() as int) =~= recalled@);
    out
}

/// The contents of the enabled skills, in listing order.
pub open spec fn skill_blocks(enabled: Seq<Seq<char>>, skills: Seq<(Seq<char>, Seq<char>)>) -> Seq<Seq<char>>
    decreases skills.len(),
{
    if skills.len() == 0 {
        seq![]
    } else {
        let prev = skill_blocks(enabled, skills.drop_last());
        if enabled.contains(skills.last().0) {
            prev.push(skills.last().1)
        } else {
            prev
        }
    }
}

/// The skill section of the system prompt: empty without enabled skills,
/// else the enabled skills' contents under a heading, separated by rules.
pub open spec fn skill_prompt_spec(enabled: Seq<Seq<char>>, skills: Seq<(Seq<char>, Seq<char>)>) -> Seq<char> {
    let blocks = skill_blocks(enabled, skills);
    if blocks.len() == 0 {
        seq![]
    } else {
        "\n\n---\n\n## Active Skills\n\n"@ + join(blocks, "\n\n---\n\n"@)
    }
}

fn contains_text(v: &Vec<String>, x: &String) -> (b: bool)
    ensures
        b == texts(v@).contains(x@),
{
    let key = chars_of(x.as_str());
    let mut i: usize = 0;
    while i < v.len()
        invariant
            i <= v@.len(),
            key@ == x@,
            forall|j: int| 0 <= j < i ==> v@[j]@ != x@,
        decreases v.len() - i,
    {
        if chars_eq(&chars_of(v[i].as_str()), &key) {
            assert(texts(v@)[i as int] == x@);
            return true;
        }
        i += 1;
    }
    assert(!texts(v@).contains(x@)) by {
        if texts(v@).contains(x@) {
            let j = choose|j: int| 0 <= j < texts(v@).len() && texts(v@)[j] == x@;
            assert(v@[j]@ == x@);
        }
    }
    false
}

/// The skill section of the system prompt from the enabled skill ids and
/// the available skills as id and content, built-in skills first.
pub fn build_skill_prompt(enabled: &Vec<String>, skills: &Vec<(String, String)>) -> (r: String)
    ensures
        r@ == skill_prompt_spec(texts(enabled@), crate::memory::block_pairs(skills@)),
{
    let ghost sp = crate::memory::block_pairs(skills@);
    let mut blocks: Vec<Vec<char>> = Vec::new();
    let mut i: usize = 0;
    assert(sp.take(0) =~= Seq::<(Seq<char>, Seq<char>)>::empty());
    while i < skills.len()
        invariant
            i <= skills@.len(),
            sp == crate::memory::block_pairs(skills@),
            blocks@.map_values(|x: Vec<char>| x@) == skill_blocks(texts(enabled@), sp.take(i as int)),
        decreases skills.len() - i,
    {
        assert(sp.take(i + 1).drop_last() =~= sp.take(i as int));
        if contains_text(enabled, &skills[i].0) {
            let ghost before = blocks@;
            let b = chars_of(skills[i].1.as_str());
            let ghost bv = b@;
            blocks.push(b);
            assert(blocks@.map_values(|x: Vec<char>| x@) =~= before.map_values(|x: Vec<char>| x@).push(bv));
        }
        i += 1;
    }
    assert(sp.take(skills@.len() as int) =~= sp);
    if blocks.len() == 0 {
        return String::new();
    }
    let mut out: Vec<char> = Vec::new();
    push_str(&mut out, "\n\n---\n\n## Active Skills\n\n");
    let body = join_chars(&blocks, "\n\n---\n\n");
    push_chars(&mut out, &body);
    string_of(&out)
}

} // verus!

use jcowork::agent::{
    build_excel_analysis_guidance, build_reminder_context_msg, build_skill_prompt, build_system_prompt_with_identity,
    compress_history, enabled_skill_ids, filter_tools_by_skill, inject_documents_to_system_prompt, load_agent_identity,
    DEFAULT_IDENTITY, EXCEL_GUIDANCE,
};
use jcowork::cron::{CronJob, Reminder};
use jcowork::llm::{ChatMessage, FunctionDefinition, ToolDefinition};
use jcowork::memory::MemoryEntry;

fn msg(role: &str, content: &str) -> ChatMessage {
    ChatMessage { role: role.to_string(), content: content.to_string(), tool_calls: None, tool_call_id: None, reasoning_content: None }
}

fn tool(name: &str) -> ToolDefinition {
    ToolDefinition {
        kind: "function".to_string(),
        function: FunctionDefinition { name: name.to_string(), description: String::new(), parameters: "{}".to_string() },
    }
}

fn entry(category: &str, content: &str) -> MemoryEntry {
    MemoryEntry {
        id: String::new(),
        user_id: String::new(),
        content: content.to_string(),
        category: category.to_string(),
        created_at: String::new(),
        updated_at: String::new(),
    }
}

#[test]
fn skill_gated_tools_are_filtered() {
    let all = vec![tool("web_search"), tool("excel_db"), tool("shell"), tool("reminder_add")];
    let none = filter_tools_by_skill(&all, &[]);
    let names: Vec<String> = none.iter().map(|t| t.function.name.clone()).collect();
    assert_eq!(names, vec!["reminder_add".to_string()]);
    let some = filter_tools_by_skill(&all, &["builtin:web_search".to_string(), "builtin:code_engineer".to_string()]);
    let names: Vec<String> = some.iter().map(|t| t.function.name.clone()).collect();
    assert_eq!(names, vec!["web_search".to_string(), "shell".to_string(), "reminder_add".to_string()]);
}

#[test]
fn reminder_context_lists_reminders_and_jobs() {
    assert!(build_reminder_context_msg(&[], &[]).is_none());
    let r = Reminder {
        id: "r1".into(),
        user_id: "u".into(),
        fire_at: "2026-05-15T11:41:00+08:00".into(),
        message: "tea".into(),
        triggered: false,
        action: None,
        cron_job_id: None,
        model: None,
        prompt: None,
    };
    let j = CronJob {
        id: "j1".into(),
        user_id: "u".into(),
        schedule: "0 0 9 * * *".into(),
        prompt: "news".into(),
        enabled: true,
        last_run: None,
        created_at: String::new(),
        name: None,
        model: None,
    };
    let m = build_reminder_context_msg(&[r], &[j]).unwrap();
    assert_eq!(m.role, "user");
    assert_eq!(
        m.content,
        "[Context] User's active reminders:\n- [id: r1] \"tea\" (triggers at: 2026-05-15T11:41:00+08:00)\n\nUser's active cron jobs:\n- [id: j1] \"news\" (Schedule: 0 0 9 * * *)"
    );
}

#[test]
fn excel_guidance_when_mentioned() {
    assert_eq!(build_excel_analysis_guidance("look at data.xlsx", false), Some(EXCEL_GUIDANCE.to_string()));
    assert_eq!(build_excel_analysis_guidance("hello", true), Some(EXCEL_GUIDANCE.to_string()));
    assert_eq!(build_excel_analysis_guidance("hello", false), None);
}

#[test]
fn documents_are_appended_to_system_prompt() {
    let mut h = vec![msg("system", "SYS"), msg("user", "q")];
    let docs = vec![("a.txt".to_string(), Some("/w/a.txt".to_string()), "alpha".to_string())];
    inject_documents_to_system_prompt(&mut h, &docs);
    assert!(h[0].content.starts_with("SYS\n\n## ATTACHED REFERENCE DOCUMENTS\n"));
    assert!(h[0].content.contains("The user has attached 1 document(s) to this conversation: a.txt\n"));
    assert!(h[0].content.contains("=== a.txt (path: /w/a.txt) ===\nalpha\n=== END ==="));
    assert_eq!(h[1].content, "q");
    let mut h2 = vec![msg("system", "SYS")];
    inject_documents_to_system_prompt(&mut h2, &[("e".to_string(), None, String::new())]);
    assert_eq!(h2[0].content, "SYS");
}

#[test]
fn compression_keeps_ends() {
    let ms: Vec<ChatMessage> = (0..10).map(|i| msg("user", &i.to_string())).collect();
    let out = compress_history(ms, 2, 3);
    assert_eq!(out.len(), 6);
    assert_eq!(out[0].content, "0");
    assert_eq!(out[1].content, "1");
    assert_eq!(out[2].role, "assistant");
    assert_eq!(out[3].content, "7");
    assert_eq!(out[5].content, "9");
    let short: Vec<ChatMessage> = (0..4).map(|i| msg("user", &i.to_string())).collect();
    assert_eq!(compress_history(short, 2, 3).len(), 4);
}

#[test]
fn identity_and_skills_from_memories() {
    let ms = vec![entry("skill_enabled", "builtin:web_search"), entry("agent_identity", "I am Bob"), entry("agent_identity", "later")];
    assert_eq!(load_agent_identity(Some(&ms)), Some("I am Bob".to_string()));
    assert_eq!(load_agent_identity(None), None);
    let ids = enabled_skill_ids(&ms);
    assert_eq!(ids, vec!["builtin:web_search".to_string()]);
    let skills = vec![("builtin:web_search".to_string(), "WEB".to_string()), ("other".to_string(), "X".to_string())];
    assert_eq!(build_skill_prompt(&ids, &skills), "\n\n---\n\n## Active Skills\n\nWEB");
    assert_eq!(build_skill_prompt(&vec![], &skills), "");
}

#[test]
fn system_prompt_with_identity() {
    let p = build_system_prompt_with_identity(Some("  "), "SKILLS", "2026年05月21日 08时30分00秒 (+08:00)", "2026");
    assert!(p.starts_with(DEFAULT_IDENTITY));
    assert!(p.contains("**IMPORTANT: Current date and time: 2026年05月21日 08时30分00秒 (+08:00)**"));
    assert!(p.contains("今天是 2026年05月21日 08时30分00秒 (+08:00)。当前年份是 2026，搜索最新消息时务必使用 2026 年而非其他年份。"));
    assert!(p.ends_with("not a real reminder.SKILLS"));
    let q = build_system_prompt_with_identity(Some("I am Bob"), "", "t", "y");
    assert!(q.starts_with("I am Bob\n\n**IMPORTANT"));
}

#[test]
fn cron_fire_reminder() {
    let j = CronJob {
        id: "j1".into(),
        user_id: "u".into(),
        schedule: "* * * * * *".into(),
        prompt: "news".into(),
        enabled: true,
        last_run: None,
        created_at: String::new(),
        name: None,
        model: Some("m".into()),
    };
    let r = Reminder::for_cron_fire("r".into(), "now".into(), &j);
    assert_eq!(r.message, "[Cron] news");
    assert!(r.triggered);
    assert_eq!(r.cron_job_id.as_deref(), Some("j1"));
    assert_eq!(r.prompt.as_deref(), Some("news"));
    assert_eq!(r.model.as_deref(), Some("m"));
}

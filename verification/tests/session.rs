use jcowork::agent::{AgentTurnResult, EXCEL_GUIDANCE};
use jcowork::cron::Reminder;
use jcowork::gateway::{ContextDocument, HistoryMessage, WsOutput};
use jcowork::session::{task_retained, RunningTask};
use jcowork::session::{
    documents_status, fallback_message, has_excel_docs, input_kind, workspace_root, ChatSession, InputKind,
    ReminderStep, FALLBACK_AFTER_TOOLS, FALLBACK_NO_ANSWER,
};

fn hist(role: &str, content: &str) -> HistoryMessage {
    HistoryMessage { role: role.to_string(), content: content.to_string() }
}

fn doc(name: &str, path: Option<&str>, content: &str) -> ContextDocument {
    ContextDocument { name: name.to_string(), path: path.map(|p| p.to_string()), content: content.to_string() }
}

fn reminder(user: &str, action: Option<&str>, cron_job_id: Option<&str>) -> Reminder {
    Reminder {
        id: "r1".to_string(),
        user_id: user.to_string(),
        fire_at: "2026-05-15T11:41:00+08:00".to_string(),
        message: "drink water".to_string(),
        triggered: true,
        action: action.map(|a| a.to_string()),
        cron_job_id: cron_job_id.map(|c| c.to_string()),
        model: None,
        prompt: None,
    }
}

fn result(completed: bool, turns_used: usize) -> AgentTurnResult {
    AgentTurnResult { response: String::new(), usage: None, turns_used, completed }
}

#[test]
fn session_starts_with_system_prompt() {
    let s = ChatSession::new("SYS".to_string());
    let m = s.messages();
    assert_eq!(m.len(), 1);
    assert_eq!(m[0].role, "system");
    assert_eq!(m[0].content, "SYS");
}

#[test]
fn restore_keeps_system_and_filters_messages() {
    let mut s = ChatSession::new("SYS".to_string());
    s.begin_user_turn("earlier", None);
    let msgs = vec![
        hist("user", "hi"),
        hist("tool", "ignored"),
        hist("assistant", "hello"),
        hist("user", "   "),
        hist("system", "ignored too"),
        hist("assistant", "  bye "),
    ];
    s.restore_history(&msgs);
    let m = s.messages();
    assert_eq!(m.len(), 4);
    assert_eq!(m[0].role, "system");
    assert_eq!(m[0].content, "SYS");
    assert_eq!((m[1].role.as_str(), m[1].content.as_str()), ("user", "hi"));
    assert_eq!((m[2].role.as_str(), m[2].content.as_str()), ("assistant", "hello"));
    assert_eq!((m[3].role.as_str(), m[3].content.as_str()), ("assistant", "  bye "));
}

#[test]
fn user_turn_appends_message_and_resets_prompt() {
    let mut s = ChatSession::new("SYS".to_string());
    s.begin_user_turn("first question", None);
    s.begin_user_turn("second question", None);
    let m = s.messages();
    assert_eq!(m.len(), 3);
    assert_eq!(m[0].content, "SYS");
    assert_eq!(m[1].content, "first question");
    assert_eq!(m[2].role, "user");
    assert_eq!(m[2].content, "second question");
}

#[test]
fn user_turn_with_documents_and_spreadsheet() {
    let mut s = ChatSession::new("SYS".to_string());
    let docs = vec![doc("sales", Some("/data/sales.xlsx"), "a,b,c")];
    s.begin_user_turn("summarise", Some(&docs));
    let m = s.messages();
    assert_eq!(m.len(), 2);
    assert!(m[0].content.starts_with("SYS\n\n## ATTACHED REFERENCE DOCUMENTS\nThe user has attached 1 document(s)"));
    assert!(m[0].content.contains("=== sales (path: /data/sales.xlsx) ===\na,b,c\n=== END ==="));
    assert!(m[0].content.ends_with(EXCEL_GUIDANCE));
    // The next turn starts again from the connection's prompt.
    s.begin_user_turn("thanks", None);
    assert_eq!(s.messages()[0].content, "SYS");
}

#[test]
fn user_turn_excel_mention_without_documents() {
    let mut s = ChatSession::new("SYS".to_string());
    s.begin_user_turn("look at this Excel file", Some(&vec![]));
    assert_eq!(s.messages()[0].content, format!("SYS{}", EXCEL_GUIDANCE));
}

#[test]
fn provider_failure_drops_user_message() {
    let mut s = ChatSession::new("SYS".to_string());
    s.begin_user_turn("question", None);
    s.provider_failed();
    let m = s.messages();
    assert_eq!(m.len(), 1);
    assert_eq!(m[0].content, "SYS");
}

#[test]
fn take_and_put_history() {
    let mut s = ChatSession::new("SYS".to_string());
    s.begin_user_turn("q", None);
    let mut h = s.take_history();
    assert_eq!(h.len(), 2);
    assert!(s.messages().is_empty());
    h.push(jcowork::llm::ChatMessage {
        role: "assistant".to_string(),
        content: "a".to_string(),
        tool_calls: None,
        tool_call_id: None,
        reasoning_content: None,
    });
    s.put_history(h);
    assert_eq!(s.messages().len(), 3);
}

#[test]
fn fallback_messages() {
    assert!(fallback_message(&result(true, 3)).is_none());
    assert_eq!(fallback_message(&result(false, 2)).unwrap(), FALLBACK_AFTER_TOOLS);
    assert_eq!(fallback_message(&result(false, 0)).unwrap(), FALLBACK_NO_ANSWER);
}

#[test]
fn document_status_line() {
    let docs = vec![doc("a.pdf", None, "x"), doc("b.docx", None, "")];
    assert_eq!(documents_status(&docs), "📄 已加载 2 个文档: a.pdf, b.docx");
}

#[test]
fn workspace_directory() {
    assert_eq!(workspace_root("/data", "u1"), "/data/u1/workspace");
}

#[test]
fn spreadsheet_detection() {
    assert!(!has_excel_docs(None));
    assert!(!has_excel_docs(Some(&vec![doc("notes.txt", Some("/x/notes.txt"), "")])));
    assert!(has_excel_docs(Some(&vec![doc("notes.txt", None, ""), doc("t.xls", None, "")])));
    assert!(has_excel_docs(Some(&vec![doc("table", Some("/x/table.xlsx"), "")])));
    assert!(!has_excel_docs(Some(&vec![doc("sheet.xlsx.bak", None, "")])));
}

#[test]
fn input_kinds() {
    assert_eq!(input_kind(Some("stop")), InputKind::Stop);
    assert_eq!(input_kind(Some("load_history")), InputKind::LoadHistory);
    assert_eq!(input_kind(Some("message")), InputKind::Chat);
    assert_eq!(input_kind(None), InputKind::Chat);
}

#[test]
fn reminder_for_other_user_is_ignored() {
    let mut s = ChatSession::new("SYS".to_string());
    let r = s.on_reminder("u1", &reminder("u2", Some("do it"), None));
    assert!(matches!(r, ReminderStep::Ignore));
    assert_eq!(s.messages().len(), 1);
}

#[test]
fn reminder_with_action_runs_it() {
    let mut s = ChatSession::new("SYS".to_string());
    match s.on_reminder("u1", &reminder("u1", Some("check mail"), None)) {
        ReminderStep::NotifyAndRun(WsOutput::Reminder { id, message, fire_at }) => {
            assert_eq!(id, "r1");
            assert_eq!(message, "drink water");
            assert_eq!(fire_at, "2026-05-15T11:41:00+08:00");
        },
        _ => panic!("expected a turn on the action"),
    }
    let m = s.messages();
    assert_eq!(m.len(), 2);
    assert_eq!((m[1].role.as_str(), m[1].content.as_str()), ("user", "check mail"));
}

#[test]
fn cron_reminder_only_notifies() {
    let mut s = ChatSession::new("SYS".to_string());
    let r = s.on_reminder("u1", &reminder("u1", Some("check mail"), Some("job1")));
    assert!(matches!(r, ReminderStep::Notify(WsOutput::Reminder { .. })));
    let r2 = s.on_reminder("u1", &reminder("u1", None, None));
    assert!(matches!(r2, ReminderStep::Notify(_)));
    assert_eq!(s.messages().len(), 1);
}

#[test]
fn running_task_replays_events_and_hands_history_once() {
    let mut t = RunningTask::new("hello".to_string());
    assert_eq!(t.start_message(), "hello");
    assert!(t.is_running());
    t.emit("{\"type\":\"text_delta\"}".to_string());
    t.emit("{\"type\":\"done\"}".to_string());
    assert_eq!(t.attach(), (0, vec!["{\"type\":\"text_delta\"}".to_string(), "{\"type\":\"done\"}".to_string()]));
    assert!(t.take_final_history().is_none());
    let mut s = ChatSession::new("SYS".to_string());
    s.begin_user_turn("q", None);
    t.set_final_history(s.take_history());
    assert!(t.abort());
    assert!(!t.is_running());
    assert!(!t.abort());
    assert_eq!(t.take_final_history().map(|h| h.len()), Some(2));
    assert!(t.take_final_history().is_none());
    let mut t2 = RunningTask::new("x".to_string());
    t2.set_finished();
    assert!(!t2.abort());
    assert!(task_retained(true, 10_000));
    assert!(task_retained(false, 3599));
    assert!(!task_retained(false, 3600));
}

#[test]
fn running_task_feeds_hand_each_event_once() {
    let mut t = RunningTask::new("q".to_string());
    t.emit("a".to_string());
    let (first, snap) = t.attach();
    assert_eq!(snap, vec!["a".to_string()]);
    t.emit("b".to_string());
    let (second, snap2) = t.attach();
    assert_eq!(second, first + 1);
    assert_eq!(snap2, vec!["a".to_string(), "b".to_string()]);
    t.emit("c".to_string());
    assert_eq!(t.receive(first), Some(vec!["b".to_string(), "c".to_string()]));
    assert_eq!(t.receive(first), Some(vec![]));
    assert_eq!(t.receive(second), Some(vec!["c".to_string()]));
    t.emit("d".to_string());
    assert_eq!(t.receive(first), Some(vec!["d".to_string()]));
    assert_eq!(t.receive(7), None);
}

use jcowork::agent::AgentTurnResult;
use jcowork::cron::Reminder;
use jcowork::cron_executor::{
    failure_output, internal_error_output, task_conversation, task_for, task_outcome, unknown_provider_error,
    RunLog, EMPTY_RESPONSE_OUTPUT, TASK_SYSTEM_PROMPT,
};

fn reminder(cron_job_id: Option<&str>, prompt: Option<&str>, model: Option<&str>) -> Reminder {
    Reminder {
        id: "r".to_string(),
        user_id: "u1".to_string(),
        fire_at: "2026-08-29T09:00:00+08:00".to_string(),
        message: "[Cron] report".to_string(),
        triggered: true,
        action: None,
        cron_job_id: cron_job_id.map(|s| s.to_string()),
        model: model.map(|s| s.to_string()),
        prompt: prompt.map(|s| s.to_string()),
    }
}

fn result(response: &str, completed: bool) -> AgentTurnResult {
    AgentTurnResult { response: response.to_string(), usage: None, turns_used: 1, completed }
}

#[test]
fn only_job_reminders_start_tasks() {
    assert!(task_for(&reminder(None, Some("p"), None), "default").is_none());
    let t = task_for(&reminder(Some("j1"), Some("write report"), Some("qwen:max")), "default").unwrap();
    assert_eq!(t.cron_job_id, "j1");
    assert_eq!(t.user_id, "u1");
    assert_eq!(t.prompt, "write report");
    assert_eq!(t.model, "qwen:max");
    let t2 = task_for(&reminder(Some("j1"), None, None), "default").unwrap();
    assert_eq!(t2.prompt, "[Cron] report");
    assert_eq!(t2.model, "default");
}

#[test]
fn task_conversation_has_system_and_prompt() {
    let c = task_conversation("do it");
    assert_eq!(c.len(), 2);
    assert_eq!((c[0].role.as_str(), c[0].content.as_str()), ("system", TASK_SYSTEM_PROMPT));
    assert_eq!((c[1].role.as_str(), c[1].content.as_str()), ("user", "do it"));
}

#[test]
fn run_log_collects_text_and_last_error() {
    let mut log = RunLog::new();
    assert!(log.last_error().is_none());
    log.on_text_delta("Hel");
    log.on_text_delta("lo");
    log.on_error("first");
    log.on_error("timeout");
    assert_eq!(log.last_error().as_deref(), Some("timeout"));
}

#[test]
fn outcomes() {
    assert_eq!(task_outcome(&result("done", true), Some("e")), ("done".to_string(), "success".to_string()));
    assert_eq!(
        task_outcome(&result("", true), Some("LLM error: 500")),
        ("LLM error: 500\n\n(LLM did not produce a response)".to_string(), "error".to_string())
    );
    assert_eq!(task_outcome(&result("", false), None), (EMPTY_RESPONSE_OUTPUT.to_string(), "error".to_string()));
    assert_eq!(task_outcome(&result("partial", false), None), ("partial".to_string(), "error".to_string()));
}

#[test]
fn failure_texts() {
    assert_eq!(failure_output("boom"), "Execution failed: boom");
    assert_eq!(internal_error_output("Unknown panic"), "Internal error: Unknown panic");
    assert_eq!(
        unknown_provider_error("x:y", "no such provider"),
        "Unknown provider for model 'x:y': no such provider. Check that the provider is configured with a valid API key."
    );
}

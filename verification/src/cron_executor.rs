//! The decisions of the background executor of periodic tasks: which fired
//! reminders start a task run, the conversation a run starts from, what is
//! kept of its streamed output, and the result stored for it.
//!
//! The caller receives the reminders, runs the agent turn and stores the
//! result; the functions here say what each step does.
use vstd::prelude::*;
use crate::agent::AgentTurnResult;
use crate::cron::Reminder;
use crate::llm::{messages_view, ChatMessage, MessageView};
use crate::session::plain_message;
use crate::text::{chars_of, push_str, string_of};

verus! {

/// Most model calls of a task run.
pub const TASK_MAX_TURNS: usize = 5;

/// The system prompt of a task run.
pub const TASK_SYSTEM_PROMPT: &'static str = "You are Jcowork Agent, an intelligent AI assistant.";

/// The output stored when a run produced no text and reported no error.
pub const EMPTY_RESPONSE_OUTPUT: &'static str = "The LLM returned an empty response. It may have failed to generate content.";

/// A task run asked for by a fired reminder.
#[derive(Debug)]
pub struct CronTask {
    pub cron_job_id: String,
    pub user_id: String,
    pub prompt: String,
    pub model: String,
}

/// The run a fired reminder asks for: only a reminder of a periodic job
/// starts one; its prompt is the job's prompt (else the reminder's message),
/// its model the job's model (else `default_model`).
pub fn task_for(reminder: &Reminder, default_model: &str) -> (r: Option<CronTask>)
    ensures
        reminder.cron_job_id is None ==> r is None,
        reminder.cron_job_id matches Some(job) ==> (r matches Some(t) && {
            &&& t.cron_job_id == job
            &&& t.user_id == reminder.user_id
            &&& t.prompt == match reminder.prompt {
                Some(p) => p,
                None => reminder.message,
            }
            &&& t.model@ == match reminder.model {
                Some(m) => m@,
                None => default_model@,
            }
        }),
{
    let job = match &reminder.cron_job_id {
        Some(id) => id.clone(),
        None => {
            return None;
        },
    };
    let prompt = match &reminder.prompt {
        Some(p) => p.clone(),
        None => reminder.message.clone(),
    };
    let model = match &reminder.model {
        Some(m) => m.clone(),
        None => string_of(&chars_of(default_model)),
    };
    Some(CronTask { cron_job_id: job, user_id: reminder.user_id.clone(), prompt, model })
}

/// The conversation a task run starts from: the task system prompt and the
/// task's prompt as the user message.
pub fn task_conversation(prompt: &str) -> (r: Vec<ChatMessage>)
    ensures
        messages_view(r@) == seq![plain_message("system"@, TASK_SYSTEM_PROMPT@), plain_message("user"@, prompt@)],
{
    let mut r: Vec<ChatMessage> = Vec::new();
    r.push(
        ChatMessage {
            role: string_of(&chars_of("system")),
            content: string_of(&chars_of(TASK_SYSTEM_PROMPT)),
            tool_calls: None,
            tool_call_id: None,
            reasoning_content: None,
        },
    );
    r.push(
        ChatMessage {
            role: string_of(&chars_of("user")),
            content: string_of(&chars_of(prompt)),
            tool_calls: None,
            tool_call_id: None,
            reasoning_content: None,
        },
    );
    assert(messages_view(r@) =~= seq![
        plain_message("system"@, TASK_SYSTEM_PROMPT@),
        plain_message("user"@, prompt@),
    ]);
    r
}

/// What a task run leaves of its streamed output: the text deltas, joined,
/// and the last error reported.
pub struct RunLog {
    response: Vec<char>,
    error: Option<String>,
}

impl RunLog {
    /// The text received so far.
    pub closed spec fn response(&self) -> Seq<char> {
        self.response@
    }

    /// The last error reported, if any.
    pub closed spec fn error(&self) -> Option<Seq<char>> {
        match self.error {
            Some(e) => Some(e@),
            None => None,
        }
    }

    /// An empty log.
    pub fn new() -> (r: Self)
        ensures
            r.response().len() == 0,
            r.error() is None,
    {
        RunLog { response: Vec::new(), error: None }
    }

    /// Appends a text delta.
    pub fn on_text_delta(&mut self, text: &str)
        ensures
            final(self).response() == old(self).response() + text@,
            final(self).error() == old(self).error(),
    {
        push_str(&mut self.response, text);
    }

    /// Records an error, replacing an earlier one.
    pub fn on_error(&mut self, message: &str)
        ensures
            final(self).response() == old(self).response(),
            final(self).error() == Some(message@),
    {
        self.error = Some(string_of(&chars_of(message)));
    }

    /// The last error reported, if any.
    pub fn last_error(&self) -> (r: Option<String>)
        ensures
            match r {
                Some(e) => self.error() == Some(e@),
                None => self.error() is None,
            },
    {
        match &self.error {
            Some(e) => Some(e.clone()),
            None => None,
        }
    }
}

/// The output and status stored for a finished run.
pub open spec fn outcome_spec(response: Seq<char>, completed: bool, error: Option<Seq<char>>) -> (Seq<char>, Seq<char>) {
    if completed && response.len() > 0 {
        (response, "success"@)
    } else if error is Some {
        (error->0 + "\n\n(LLM did not produce a response)"@, "error"@)
    } else if response.len() == 0 {
        (EMPTY_RESPONSE_OUTPUT@, "error"@)
    } else {
        (response, "error"@)
    }
}

/// The output and status (`success` or `error`) stored for a finished run:
/// a completed run with text succeeds; otherwise the error reported, a note
/// on the empty response, or the partial text is stored as an error.
pub fn task_outcome(result: &AgentTurnResult, error: Option<&str>) -> (r: (String, String))
    ensures
        (r.0@, r.1@) == outcome_spec(
            result.response@,
            result.completed,
            match error {
                Some(e) => Some(e@),
                None => None,
            },
        ),
{
    let empty = chars_of(result.response.as_str()).len() == 0;
    if result.completed && !empty {
        (result.response.clone(), string_of(&chars_of("success")))
    } else {
        match error {
            Some(e) => {
                let mut out = chars_of(e);
                push_str(&mut out, "\n\n(LLM did not produce a response)");
                (string_of(&out), string_of(&chars_of("error")))
            },
            None => {
                if empty {
                    (string_of(&chars_of(EMPTY_RESPONSE_OUTPUT)), string_of(&chars_of("error")))
                } else {
                    (result.response.clone(), string_of(&chars_of("error")))
                }
            },
        }
    }
}

/// The output stored when a run could not start or failed: `Execution
/// failed: ` and the error.
pub fn failure_output(error: &str) -> (r: String)
    ensures
        r@ == "Execution failed: "@ + error@,
{
    let mut out = chars_of("Execution failed: ");
    push_str(&mut out, error);
    string_of(&out)
}

/// The output stored when a run broke off: `Internal error: ` and what it
/// reported.
pub fn internal_error_output(message: &str) -> (r: String)
    ensures
        r@ == "Internal error: "@ + message@,
{
    let mut out = chars_of("Internal error: ");
    push_str(&mut out, message);
    string_of(&out)
}

/// The error of a run whose model has no configured provider.
pub fn unknown_provider_error(model: &str, error: &str) -> (r: String)
    ensures
        r@ == "Unknown provider for model '"@ + model@ + "': "@ + error@
            + ". Check that the provider is configured with a valid API key."@,
{
    let mut out = chars_of("Unknown provider for model '");
    push_str(&mut out, model);
    push_str(&mut out, "': ");
    push_str(&mut out, error);
    push_str(&mut out, ". Check that the provider is configured with a valid API key.");
    string_of(&out)
}

} // verus!

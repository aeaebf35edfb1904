//! Verified core of the Jcowork agent platform: prompt assembly, connector
//! tool naming and templating, cron schedule handling, Feishu event parsing,
//! text extraction and logging summaries.

pub mod text;
pub mod order;
pub mod cron_expr;
pub mod connectors;
pub mod llm;
pub mod logs;
pub mod report;
pub mod cron;
pub mod prompt;
pub mod agent;
pub mod feishu;
pub mod gateway;
pub mod html;
pub mod schedule;
pub mod turn;
pub mod agent_loop;
pub mod sync;
pub mod memory;
pub mod mcp;
pub mod config;
pub mod auth;
pub mod sse;
pub mod session;
pub mod scheduler;
pub mod cron_executor;
pub mod router;
pub mod api_call;
pub mod log_files;
pub mod upload;
pub mod reset;
pub mod admin;
pub mod connector_requests;
pub mod indexing;
pub mod tool_calls;
pub mod workspace;

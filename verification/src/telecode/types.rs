//! Domain types of the single-bot bridge: thread keys, parsed commands,
//! thread state and run bookkeeping.

use vstd::prelude::*;
use crate::nitro::types::{slug, slug_of, thread_key_text};
use crate::text::{push_decimal_i64, push_str};

verus! {

/// Unique key identifying a Telegram thread context.
/// Format: `chat:{chat_id}` or `chat:{chat_id}:topic:{thread_id}`
#[derive(Debug, Clone, PartialEq, Eq, Hash)]
pub struct ThreadKey(pub String);

impl ThreadKey {
    pub fn new(chat_id: i64, topic_id: Option<i64>) -> (k: Self)
        ensures
            k.0@ == thread_key_text(
                chat_id as int,
                match topic_id {
                    Some(t) => Some(t as int),
                    None => None,
                },
            ),
    {
        let mut s = String::new();
        push_str(&mut s, "chat:");
        push_decimal_i64(&mut s, chat_id);
        match topic_id {
            Some(tid) => {
                push_str(&mut s, ":topic:");
                push_decimal_i64(&mut s, tid);
            },
            None => {},
        }
        ThreadKey(s)
    }

    pub fn as_str(&self) -> (s: &str)
        ensures
            s@ == self.0@,
    {
        self.0.as_str()
    }

    /// Filesystem-safe slug for workspace/log directories.
    pub fn slug(&self) -> (s: String)
        ensures
            s@ == slug_of(self.0@),
    {
        slug(self.0.as_str())
    }
}

/// Parsed Telegram command (e.g. `/start`, `/toolmode safe`).
#[derive(Debug, Clone)]
pub struct ParsedCommand {
    pub name: String,
    pub args: String,
}

/// Context extracted from an incoming Telegram message.
#[derive(Debug, Clone)]
pub struct MessageContext {
    pub chat_id: i64,
    pub user_id: u64,
    pub text: String,
    pub message_id: i32,
    pub thread_id: Option<i64>,
}

/// A task enqueued for a thread worker.
#[derive(Debug, Clone)]
pub struct IncomingTask {
    pub message: MessageContext,
    pub command: Option<ParsedCommand>,
}

/// Persisted thread state from SQLite.
#[derive(Debug, Clone)]
pub struct ThreadState {
    pub thread_key: String,
    pub active_engine: String,
    pub workspace_path: std::path::PathBuf,
    pub active_session_id: Option<String>,
    pub compact_summary: Option<String>,
    pub settings: ThreadSettings,
}

impl ThreadState {
    pub fn tool_mode(&self) -> (m: &str)
        ensures
            m@ == self.settings.tool_mode@,
    {
        self.settings.tool_mode.as_str()
    }
}

/// Per-thread settings stored as JSON in SQLite.
#[derive(Debug, Clone)]
pub struct ThreadSettings {
    pub tool_mode: String,
}

/// The tool mode a thread starts with: `safe`.
pub fn default_tool_mode() -> (m: String)
    ensures
        m@ == "safe"@,
{
    "safe".to_string()
}

impl Default for ThreadSettings {
    fn default() -> (s: Self)
        ensures
            s.tool_mode@ == "safe"@,
    {
        ThreadSettings { tool_mode: default_tool_mode() }
    }
}

/// Tracking context for a single engine run.
#[derive(Debug, Clone)]
pub struct RunContext {
    pub run_id: i64,
    pub status_message_id: i32,
    pub log_path: std::path::PathBuf,
}

/// Result of an engine execution.
#[derive(Debug, Clone)]
pub struct RunResult {
    pub status: RunStatus,
    pub output_tail: String,
    pub session_id: Option<String>,
    pub exit_code: i32,
}

#[derive(Debug, Clone, Copy, PartialEq, Eq)]
pub enum RunStatus {
    Succeeded,
    Failed,
    Canceled,
}

impl RunStatus {
    pub open spec fn name(self) -> Seq<char> {
        match self {
            RunStatus::Succeeded => "succeeded"@,
            RunStatus::Failed => "failed"@,
            RunStatus::Canceled => "canceled"@,
        }
    }

    pub fn as_str(&self) -> (s: &'static str)
        ensures
            s@ == self.name(),
    {
        match self {
            RunStatus::Succeeded => "succeeded",
            RunStatus::Failed => "failed",
            RunStatus::Canceled => "canceled",
        }
    }

    pub fn icon(&self) -> (s: &'static str)
        ensures
            s@ == match *self {
                RunStatus::Succeeded => "OK"@,
                RunStatus::Failed => "FAIL"@,
                RunStatus::Canceled => "STOP"@,
            },
    {
        match self {
            RunStatus::Succeeded => "OK",
            RunStatus::Failed => "FAIL",
            RunStatus::Canceled => "STOP",
        }
    }
}

/// Engine command built for subprocess execution.
#[derive(Debug)]
pub struct EngineCommand {
    pub args: Vec<String>,
    pub effective_prompt: String,
    pub pipe_stdin: bool,
}

} // verus!

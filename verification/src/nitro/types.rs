//! Domain types of the bot: thread keys, parsed commands, thread state and
//! run bookkeeping.

use vstd::prelude::*;
use crate::text::{
    chars_of, decimal_int, lemma_decimal_int_chars, lemma_decimal_int_injective, push_char,
    push_decimal_i64, push_str,
};

verus! {

#[verifier::external_type_specification]
#[verifier::external_body]
pub struct ExPathBuf(std::path::PathBuf);

/// `PathBuf::clone`, which the derived `Clone` of path-holding types calls.
/// Nothing is claimed of the result: paths are carried, never inspected.
pub assume_specification[ <std::path::PathBuf as Clone>::clone ](p: &std::path::PathBuf) -> std::path::PathBuf;

/// The text of a thread key: `chat:{chat_id}` or
/// `chat:{chat_id}:topic:{topic_id}`.
pub open spec fn thread_key_text(chat_id: int, topic_id: Option<int>) -> Seq<char> {
    match topic_id {
        Some(t) => "chat:"@ + decimal_int(chat_id) + ":topic:"@ + decimal_int(t),
        None => "chat:"@ + decimal_int(chat_id),
    }
}

/// A key text of the shape `{prefix}{chat}` or `{prefix}{chat}{sep}{topic}`.
spec fn key_shape(prefix: Seq<char>, sep: Seq<char>, chat_id: int, topic_id: Option<int>) -> Seq<char> {
    prefix + decimal_int(chat_id) + match topic_id {
        Some(t) => sep + decimal_int(t),
        None => Seq::empty(),
    }
}

/// Keys of one shape are equal only for equal chats and topics, when the
/// separator starts with a character that no number contains.
proof fn lemma_key_shape_unique(
    prefix: Seq<char>,
    sep: Seq<char>,
    c1: int,
    t1: Option<int>,
    c2: int,
    t2: Option<int>,
)
    requires
        sep.len() > 0,
        sep[0] != '-' && !('0' <= sep[0] <= '9'),
        key_shape(prefix, sep, c1, t1) == key_shape(prefix, sep, c2, t2),
    ensures
        c1 == c2,
        t1 == t2,
{
    let s = key_shape(prefix, sep, c1, t1);
    let p = prefix.len() as int;
    let d1 = decimal_int(c1);
    let d2 = decimal_int(c2);
    let r1 = match t1 {
        Some(t) => sep + decimal_int(t),
        None => Seq::<char>::empty(),
    };
    let r2 = match t2 {
        Some(t) => sep + decimal_int(t),
        None => Seq::<char>::empty(),
    };
    lemma_decimal_int_chars(c1);
    lemma_decimal_int_chars(c2);
    assert(s =~= prefix + d1 + r1);
    assert(s =~= prefix + d2 + r2);
    assert(r1.len() > 0 ==> r1[0] == sep[0]);
    assert(r2.len() > 0 ==> r2[0] == sep[0]);
    let a: int = d1.len() as int;
    let b: int = d2.len() as int;
    if a < b {
        if r1.len() > 0 {
            assert(s[p + a] == r1[0]);
            assert(s[p + a] == d2[a]);
        }
    }
    if b < a {
        if r2.len() > 0 {
            assert(s[p + b] == r2[0]);
            assert(s[p + b] == d1[b]);
        }
    }
    assert(a == b);
    assert(d1 =~= s.subrange(p, p + a));
    assert(d2 =~= s.subrange(p, p + b));
    lemma_decimal_int_injective(c1, c2);
    assert(r1 =~= s.skip(p + a));
    assert(r2 =~= s.skip(p + b));
    match (t1, t2) {
        (Some(x), Some(y)) => {
            assert(decimal_int(x) =~= r1.skip(sep.len() as int));
            assert(decimal_int(y) =~= r2.skip(sep.len() as int));
            lemma_decimal_int_injective(x, y);
        },
        (Some(x), None) => {
            lemma_decimal_int_chars(x);
        },
        (None, Some(y)) => {
            lemma_decimal_int_chars(y);
        },
        (None, None) => {},
    }
}

/// Thread keys are unique: two chats, or two topics of one chat, never
/// share a key (so they never share a session, workspace or log folder).
pub proof fn law_thread_keys_unique(c1: int, t1: Option<int>, c2: int, t2: Option<int>)
    requires
        thread_key_text(c1, t1) == thread_key_text(c2, t2),
    ensures
        c1 == c2,
        t1 == t2,
{
    reveal_strlit(":topic:");
    assert(thread_key_text(c1, t1) =~= key_shape("chat:"@, ":topic:"@, c1, t1));
    assert(thread_key_text(c2, t2) =~= key_shape("chat:"@, ":topic:"@, c2, t2));
    lemma_key_shape_unique("chat:"@, ":topic:"@, c1, t1, c2, t2);
}

proof fn lemma_slug_of_key(c: int, t: Option<int>)
    ensures
        slug_of(thread_key_text(c, t)) == key_shape("chat_"@, "_topic_"@, c, t),
{
    reveal_strlit("chat:");
    reveal_strlit("chat_");
    reveal_strlit(":topic:");
    reveal_strlit("_topic_");
    lemma_decimal_int_chars(c);
    let d = decimal_int(c);
    assert(d.map_values(|x: char| if x == ':' { '_' } else { x }) =~= d);
    match t {
        Some(x) => {
            lemma_decimal_int_chars(x);
            let e = decimal_int(x);
            assert(e.map_values(|y: char| if y == ':' { '_' } else { y }) =~= e);
            assert(slug_of(thread_key_text(c, t)) =~= key_shape("chat_"@, "_topic_"@, c, t));
        },
        None => {
            assert(slug_of(thread_key_text(c, t)) =~= key_shape("chat_"@, "_topic_"@, c, t));
        },
    }
}

/// Thread slugs name folders safely and uniquely: a slug holds no `:` and
/// no `/`, and two threads never share one.
pub proof fn law_slugs_unique_and_safe(c1: int, t1: Option<int>, c2: int, t2: Option<int>)
    ensures
        forall|i: int|
            0 <= i < slug_of(thread_key_text(c1, t1)).len() ==> #[trigger] slug_of(
                thread_key_text(c1, t1),
            )[i] != ':' && slug_of(thread_key_text(c1, t1))[i] != '/',
        slug_of(thread_key_text(c1, t1)) == slug_of(thread_key_text(c2, t2)) ==> c1 == c2 && t1
            == t2,
{
    lemma_slug_of_key(c1, t1);
    lemma_slug_of_key(c2, t2);
    reveal_strlit("chat_");
    reveal_strlit("_topic_");
    if slug_of(thread_key_text(c1, t1)) == slug_of(thread_key_text(c2, t2)) {
        lemma_key_shape_unique("chat_"@, "_topic_"@, c1, t1, c2, t2);
    }
    lemma_decimal_int_chars(c1);
    let s = slug_of(thread_key_text(c1, t1));
    let d = decimal_int(c1);
    assert forall|i: int| 0 <= i < s.len() implies #[trigger] s[i] != ':' && s[i] != '/' by {
        if i >= 5 && i < 5 + d.len() {
            assert(s[i] == d[i - 5]);
        } else if i >= 5 + d.len() {
            match t1 {
                Some(x) => {
                    lemma_decimal_int_chars(x);
                    let e = decimal_int(x);
                    if i >= 12 + d.len() {
                        assert(s[i] == e[i - 12 - d.len()]);
                    }
                },
                None => {},
            }
        }
    }
}

/// A slug keeps the key's length and holds no `:`.
pub proof fn law_slug_has_no_colon(s: Seq<char>)
    ensures
        slug_of(s).len() == s.len(),
        forall|i: int| 0 <= i < s.len() ==> #[trigger] slug_of(s)[i] != ':',
{
}

/// `s` with every `:` replaced by `_`.
pub open spec fn slug_of(s: Seq<char>) -> Seq<char> {
    s.map_values(|c: char| if c == ':' { '_' } else { c })
}

/// Unique key identifying a Telegram thread context.
/// Format: `chat:{chat_id}` or `chat:{chat_id}:topic:{thread_id}`
#[derive(Debug, Clone, PartialEq, Eq, Hash)]
pub struct ThreadKey(pub String);

impl ThreadKey {
    pub fn new(chat_id: i64, topic_id: Option<i64>) -> (k: Self)
        ensures
            k.0@ == thread_key_text(
                chat_id as int,
                match topic_id {
                    Some(t) => Some(t as int),
                    None => None,
                },
            ),
    {
        let mut s = String::new();
        push_str(&mut s, "chat:");
        push_decimal_i64(&mut s, chat_id);
        match topic_id {
            Some(tid) => {
                push_str(&mut s, ":topic:");
                push_decimal_i64(&mut s, tid);
            },
            None => {},
        }
        ThreadKey(s)
    }

    pub fn as_str(&self) -> (s: &str)
        ensures
            s@ == self.0@,
    {
        self.0.as_str()
    }

    /// Filesystem-safe slug for workspace/log directories.
    pub fn slug(&self) -> (s: String)
        ensures
            s@ == slug_of(self.0@),
    {
        slug(self.0.as_str())
    }
}

/// `s` with every `:` replaced by `_` (`str::replace(':', "_")`).
pub fn slug(s: &str) -> (r: String)
    ensures
        r@ == slug_of(s@),
{
    let v = chars_of(s);
    let mut r = String::new();
    let mut i: usize = 0;
    while i < v.len()
        invariant
            i <= v.len(),
            r@ == slug_of(v@.take(i as int)),
        decreases v.len() - i,
    {
        let c = v[i];
        push_char(&mut r, if c == ':' { '_' } else { c });
        i = i + 1;
        assert(r@ =~= slug_of(v@.take(i as int)));
    }
    assert(v@.take(v@.len() as int) =~= s@);
    r
}

/// Parsed Telegram command (e.g. `/start`, `/toolmode safe`).
#[derive(Debug, Clone)]
pub struct ParsedCommand {
    pub name: String,
    pub args: String,
}

/// Context extracted from an incoming Telegram message.
#[derive(Debug, Clone)]
pub struct MessageContext {
    pub chat_id: i64,
    pub user_id: u64,
    pub text: String,
    pub message_id: i32,
    pub thread_id: Option<i64>,
    /// Telegram file_id for a voice/audio attachment (downloaded in worker, not poller).
    pub voice_file_id: Option<String>,
    /// Telegram file_id for a photo attachment (downloaded in worker, not poller).
    pub photo_file_id: Option<String>,
    /// Text from a quoted/replied-to message (reply_to_message).
    pub reply_text: Option<String>,
    /// Text from a forwarded message body.
    pub forwarded_text: Option<String>,
}

/// A task enqueued for a thread worker.
#[derive(Debug, Clone)]
pub struct IncomingTask {
    pub message: MessageContext,
    pub command: Option<ParsedCommand>,
}

/// Persisted thread state from SQLite.
#[derive(Debug, Clone)]
pub struct ThreadState {
    pub thread_key: String,
    pub active_engine: String,
    pub workspace_path: std::path::PathBuf,
    pub active_session_id: Option<String>,
    pub compact_summary: Option<String>,
    pub settings: ThreadSettings,
}

impl ThreadState {
    pub fn tool_mode(&self) -> (m: &str)
        ensures
            m@ == self.settings.tool_mode@,
    {
        self.settings.tool_mode.as_str()
    }
}

/// Per-thread settings stored as JSON in SQLite.
#[derive(Debug, Clone)]
pub struct ThreadSettings {
    pub tool_mode: String,
}

/// The tool mode a thread starts with: `safe`.
pub fn default_tool_mode() -> (m: String)
    ensures
        m@ == "safe"@,
{
    "safe".to_string()
}

impl Default for ThreadSettings {
    fn default() -> (s: Self)
        ensures
            s.tool_mode@ == "safe"@,
    {
        ThreadSettings { tool_mode: default_tool_mode() }
    }
}

/// Tracking context for a single engine run.
#[derive(Debug, Clone)]
pub struct RunContext {
    pub run_id: i64,
    pub status_message_id: i32,
    pub log_path: std::path::PathBuf,
}

/// Result of an engine execution.
#[derive(Debug, Clone)]
pub struct RunResult {
    pub status: RunStatus,
    pub output_tail: String,
    pub session_id: Option<String>,
    pub exit_code: i32,
    pub elapsed_secs: u64,
}

#[derive(Debug, Clone, Copy, PartialEq, Eq)]
pub enum RunStatus {
    Succeeded,
    Failed,
    Canceled,
}

impl RunStatus {
    pub open spec fn name(self) -> Seq<char> {
        match self {
            RunStatus::Succeeded => "succeeded"@,
            RunStatus::Failed => "failed"@,
            RunStatus::Canceled => "canceled"@,
        }
    }

    pub fn as_str(&self) -> (s: &'static str)
        ensures
            s@ == self.name(),
    {
        match self {
            RunStatus::Succeeded => "succeeded",
            RunStatus::Failed => "failed",
            RunStatus::Canceled => "canceled",
        }
    }

    pub fn icon(&self) -> (s: &'static str)
        ensures
            s@ == match *self {
                RunStatus::Succeeded => "\u{2705}"@,
                RunStatus::Failed => "\u{274c}"@,
                RunStatus::Canceled => "\u{23f9}"@,
            },
    {
        match self {
            RunStatus::Succeeded => "\u{2705}",
            RunStatus::Failed => "\u{274c}",
            RunStatus::Canceled => "\u{23f9}",
        }
    }

    pub fn label(&self) -> (s: &'static str)
        ensures
            s@ == match *self {
                RunStatus::Succeeded => "Done"@,
                RunStatus::Failed => "Failed"@,
                RunStatus::Canceled => "Canceled"@,
            },
    {
        match self {
            RunStatus::Succeeded => "Done",
            RunStatus::Failed => "Failed",
            RunStatus::Canceled => "Canceled",
        }
    }
}

/// Engine command built for subprocess execution.
#[derive(Debug)]
pub struct EngineCommand {
    pub args: Vec<String>,
    pub effective_prompt: String,
    pub pipe_stdin: bool,
}

/// Metadata from the engine's `system` init event.
#[derive(Debug, Clone, Default)]
pub struct SessionMeta {
    pub model: String,
    pub version: String,
    pub permission_mode: String,
    pub cwd: String,
    pub tools: Vec<String>,
    pub mcp_servers: Vec<McpServerInfo>,
    pub skills: Vec<String>,
    pub agents: Vec<String>,
    pub slash_commands: Vec<String>,
    pub plugins: Vec<PluginInfo>,
    pub fast_mode_state: String,
    pub api_key_source: String,
}

#[derive(Debug, Clone, Default)]
pub struct McpServerInfo {
    pub name: String,
    pub status: String,
}

#[derive(Debug, Clone, Default)]
pub struct PluginInfo {
    pub name: String,
}

/// Summary of a historical run (for `/tasks` display).
#[derive(Debug, Clone)]
pub struct RunInfo {
    pub id: i64,
    pub engine: String,
    pub started_at: String,
    pub ended_at: Option<String>,
    pub status: String,
}

} // verus!

//! Slash-command parsing and the text of command replies.

use vstd::prelude::*;
use crate::nitro::types::{McpServerInfo, PluginInfo, RunInfo, SessionMeta};
use crate::telecode::types::{ParsedCommand, ThreadState};
use crate::text::{
    before_char, chars_of, cut_at_char, decimal, decimal_int, first_ws, first_ws_in,
    html_escaped, join_lines, lowercase, push_decimal, push_decimal_i64, push_escaped, push_str,
    skip_char, str_eq, strip_leading, string_of, take_chars, to_lowercase, trim, trim_bounds,
    ascii_lowercase, is_ascii,
    join_all, join_nonempty, join_with, nonempty_only,
};
use crate::telecode::bot::{truncate_for_telegram, truncated_text};

verus! {

/// The raw command name and argument text of a trimmed message `t` that
/// starts with `/`: the name is the first word without its leading slashes
/// and without any `@bot` suffix; the arguments are the rest, trimmed.
pub open spec fn command_parts(t: Seq<char>) -> (Seq<char>, Seq<char>) {
    let i = first_ws(t);
    let word = if i >= 0 { t.take(i) } else { t };
    let args = if i >= 0 { trim(t.skip(i)) } else { Seq::empty() };
    (before_char(strip_leading(word, '/'), '@'), args)
}

/// What `parse_command` returns for `text`, given the lowercase form
/// `lower` of its raw command name.
pub open spec fn parsed_command(text: Seq<char>, name: Seq<char>, args: Seq<char>) -> bool {
    let t = trim(text);
    t.len() > 0 && t[0] == '/' && command_parts(t).1 == args && lowercase(command_parts(t).0)
        == name && name.len() > 0
}

/// Whether `text` is a command: after trimming it starts with `/` and its
/// lowercased name is not empty.
pub open spec fn is_command(text: Seq<char>) -> bool {
    let t = trim(text);
    t.len() > 0 && t[0] == '/' && lowercase(command_parts(t).0).len() > 0
}

/// Builds the command from an already lowercased name: `None` when the name
/// is empty.
pub fn command_from_parts(name: String, args: String) -> (r: Option<ParsedCommand>)
    ensures
        name@.len() == 0 ==> r is None,
        name@.len() > 0 ==> (r matches Some(c) && c.name@ == name@ && c.args@ == args@),
{
    if name.as_str().is_empty() {
        None
    } else {
        Some(ParsedCommand { name, args })
    }
}

/// Parse a message text into a command, if it starts with `/`.
pub fn parse_command(text: &str) -> (r: Option<ParsedCommand>)
    ensures
        r is Some <==> is_command(text@),
        r matches Some(c) ==> parsed_command(text@, c.name@, c.args@),
        ({
            let t = trim(text@);
            let raw = command_parts(t).0;
            t.len() > 0 && t[0] == '/' && is_ascii(raw) ==> (r is Some <==> raw.len() > 0) && (r
                matches Some(c) ==> c.name@ == ascii_lowercase(raw))
        }),
{
    let v = chars_of(text);
    let (a, b) = trim_bounds(&v, 0, v.len());
    let ghost t = trim(text@);
    proof {
        assert(v@.subrange(0, v@.len() as int) =~= text@);
        assert(v@.subrange(a as int, b as int) == t);
    }
    if a == b || v[a] != '/' {
        return None;
    }
    let ws = first_ws_in(&v, a, b);
    let (word_end, args) = match ws {
        Some(i) => {
            let (c, d) = trim_bounds(&v, i, b);
            proof {
                assert(v@.subrange(a as int, i as int) =~= t.take(i - a));
                assert(v@.subrange(i as int, b as int) =~= t.skip(i - a));
            }
            (i, string_of(&v, c, d))
        },
        None => (b, String::new()),
    };
    assert(v@.subrange(a as int, word_end as int) =~= if first_ws(t) >= 0 {
        t.take(first_ws(t))
    } else {
        t
    });
    let s = skip_char(&v, a, word_end, '/');
    let e = cut_at_char(&v, s, word_end, '@');
    let raw = string_of(&v, s, e);
    let name = to_lowercase(raw.as_str());
    proof {
        if is_ascii(raw@) {
            assert(name@.len() == raw@.len());
        }
    }
    command_from_parts(name, args)
}


/// What handles a command.
#[derive(Debug, Clone, Copy, PartialEq, Eq)]
pub enum CommandRoute {
    Cancel,
    Restart,
    Compact,
    Start,
    Help,
    NewThread,
    Resume,
    Clear,
    ToolMode,
    Status,
    Context,
    Mcp,
    Skills,
    Tasks,
    Cd,
    Bash,
    Unknown,
}

/// The handler of each command name, with its aliases (`new_thread`/`new`,
/// `toolmode`/`mode`, `mcp`/`mcps`, `cd`/`pwd`).
pub open spec fn route_of(name: Seq<char>) -> CommandRoute {
    if name == "cancel"@ {
        CommandRoute::Cancel
    } else if name == "restart"@ {
        CommandRoute::Restart
    } else if name == "compact"@ {
        CommandRoute::Compact
    } else if name == "start"@ {
        CommandRoute::Start
    } else if name == "help"@ {
        CommandRoute::Help
    } else if name == "new_thread"@ || name == "new"@ {
        CommandRoute::NewThread
    } else if name == "resume"@ {
        CommandRoute::Resume
    } else if name == "clear"@ {
        CommandRoute::Clear
    } else if name == "toolmode"@ || name == "mode"@ {
        CommandRoute::ToolMode
    } else if name == "status"@ {
        CommandRoute::Status
    } else if name == "context"@ {
        CommandRoute::Context
    } else if name == "mcp"@ || name == "mcps"@ {
        CommandRoute::Mcp
    } else if name == "skills"@ {
        CommandRoute::Skills
    } else if name == "tasks"@ {
        CommandRoute::Tasks
    } else if name == "cd"@ || name == "pwd"@ {
        CommandRoute::Cd
    } else if name == "bash"@ {
        CommandRoute::Bash
    } else {
        CommandRoute::Unknown
    }
}

/// The command name each handler is known by.
pub open spec fn handler_name(r: CommandRoute) -> Seq<char> {
    match r {
        CommandRoute::Cancel => "cancel"@,
        CommandRoute::Restart => "restart"@,
        CommandRoute::Compact => "compact"@,
        CommandRoute::Start => "start"@,
        CommandRoute::Help => "help"@,
        CommandRoute::NewThread => "new_thread"@,
        CommandRoute::Resume => "resume"@,
        CommandRoute::Clear => "clear"@,
        CommandRoute::ToolMode => "toolmode"@,
        CommandRoute::Status => "status"@,
        CommandRoute::Context => "context"@,
        CommandRoute::Mcp => "mcp"@,
        CommandRoute::Skills => "skills"@,
        CommandRoute::Tasks => "tasks"@,
        CommandRoute::Cd => "cd"@,
        CommandRoute::Bash => "bash"@,
        CommandRoute::Unknown => Seq::empty(),
    }
}

/// The short names some handlers also answer to.
pub open spec fn is_alias_of(name: Seq<char>, r: CommandRoute) -> bool {
    ||| name == "new"@ && r == CommandRoute::NewThread
    ||| name == "mode"@ && r == CommandRoute::ToolMode
    ||| name == "mcps"@ && r == CommandRoute::Mcp
    ||| name == "pwd"@ && r == CommandRoute::Cd
}

/// Each command name goes to its own handler: every handler is reached by
/// its name and by its aliases, and a name reaches a handler only when it is
/// that handler's name or alias (so `status` shows the thread state, not the
/// context card); no two handlers share a name.
pub proof fn law_commands_route_by_name(name: Seq<char>, r: CommandRoute)
    ensures
        r != CommandRoute::Unknown ==> route_of(handler_name(r)) == r,
        is_alias_of(name, r) ==> route_of(name) == r,
        route_of(name) != CommandRoute::Unknown ==> name == handler_name(route_of(name))
            || is_alias_of(name, route_of(name)),
{
    match r {
        CommandRoute::Cancel => {
            assert(route_of("cancel"@) == r) by {
                reveal_strlit("cancel");
            }
        },
        CommandRoute::Restart => {
            assert(route_of("restart"@) == r) by {
                reveal_strlit("restart");
                reveal_strlit("cancel");
                assert("restart"@.len() != "cancel"@.len());
            }
        },
        CommandRoute::Compact => {
            assert(route_of("compact"@) == r) by {
                reveal_strlit("compact");
                reveal_strlit("cancel");
                reveal_strlit("restart");
                assert("compact"@[0] != "restart"@[0]);
                assert("compact"@.len() != "cancel"@.len());
            }
        },
        CommandRoute::Start => {
            assert(route_of("start"@) == r) by {
                reveal_strlit("start");
                reveal_strlit("cancel");
                reveal_strlit("restart");
                reveal_strlit("compact");
                assert("start"@.len() != "cancel"@.len());
                assert("start"@.len() != "restart"@.len());
                assert("start"@.len() != "compact"@.len());
            }
        },
        CommandRoute::Help => {
            assert(route_of("help"@) == r) by {
                reveal_strlit("help");
                reveal_strlit("cancel");
                reveal_strlit("restart");
                reveal_strlit("compact");
                reveal_strlit("start");
                assert("help"@.len() != "cancel"@.len());
                assert("help"@.len() != "restart"@.len());
                assert("help"@.len() != "compact"@.len());
                assert("help"@.len() != "start"@.len());
            }
        },
        CommandRoute::NewThread => {
            assert(route_of("new_thread"@) == r) by {
                reveal_strlit("new_thread");
                reveal_strlit("cancel");
                reveal_strlit("restart");
                reveal_strlit("compact");
                reveal_strlit("start");
                reveal_strlit("help");
                assert("new_thread"@.len() != "cancel"@.len());
                assert("new_thread"@.len() != "restart"@.len());
                assert("new_thread"@.len() != "compact"@.len());
                assert("new_thread"@.len() != "start"@.len());
                assert("new_thread"@.len() != "help"@.len());
            }
            assert(route_of("new"@) == r) by {
                reveal_strlit("new");
                reveal_strlit("cancel");
                reveal_strlit("restart");
                reveal_strlit("compact");
                reveal_strlit("start");
                reveal_strlit("help");
                reveal_strlit("new_thread");
                assert("new"@.len() != "cancel"@.len());
                assert("new"@.len() != "restart"@.len());
                assert("new"@.len() != "compact"@.len());
                assert("new"@.len() != "start"@.len());
                assert("new"@.len() != "help"@.len());
                assert("new"@.len() != "new_thread"@.len());
            }
        },
        CommandRoute::Resume => {
            assert(route_of("resume"@) == r) by {
                reveal_strlit("resume");
                reveal_strlit("cancel");
                assert("resume"@[0] != "cancel"@[0]);
                reveal_strlit("restart");
                reveal_strlit("compact");
                reveal_strlit("start");
                reveal_strlit("help");
                reveal_strlit("new_thread");
                reveal_strlit("new");
                assert("resume"@.len() != "restart"@.len());
                assert("resume"@.len() != "compact"@.len());
                assert("resume"@.len() != "start"@.len());
                assert("resume"@.len() != "help"@.len());
                assert("resume"@.len() != "new_thread"@.len());
                assert("resume"@.len() != "new"@.len());
            }
        },
        CommandRoute::Clear => {
            assert(route_of("clear"@) == r) by {
                reveal_strlit("clear");
                reveal_strlit("cancel");
                reveal_strlit("restart");
                reveal_strlit("compact");
                reveal_strlit("start");
                assert("clear"@[0] != "start"@[0]);
                reveal_strlit("help");
                reveal_strlit("new_thread");
                reveal_strlit("new");
                reveal_strlit("resume");
                assert("clear"@.len() != "cancel"@.len());
                assert("clear"@.len() != "restart"@.len());
                assert("clear"@.len() != "compact"@.len());
                assert("clear"@.len() != "help"@.len());
                assert("clear"@.len() != "new_thread"@.len());
                assert("clear"@.len() != "new"@.len());
                assert("clear"@.len() != "resume"@.len());
            }
        },
        CommandRoute::ToolMode => {
            assert(route_of("toolmode"@) == r) by {
                reveal_strlit("toolmode");
                reveal_strlit("cancel");
                reveal_strlit("restart");
                reveal_strlit("compact");
                reveal_strlit("start");
                reveal_strlit("help");
                reveal_strlit("new_thread");
                reveal_strlit("new");
                reveal_strlit("resume");
                reveal_strlit("clear");
                assert("toolmode"@.len() != "cancel"@.len());
                assert("toolmode"@.len() != "restart"@.len());
                assert("toolmode"@.len() != "compact"@.len());
                assert("toolmode"@.len() != "start"@.len());
                assert("toolmode"@.len() != "help"@.len());
                assert("toolmode"@.len() != "new_thread"@.len());
                assert("toolmode"@.len() != "new"@.len());
                assert("toolmode"@.len() != "resume"@.len());
                assert("toolmode"@.len() != "clear"@.len());
            }
            assert(route_of("mode"@) == r) by {
                reveal_strlit("mode");
                reveal_strlit("cancel");
                reveal_strlit("restart");
                reveal_strlit("compact");
                reveal_strlit("start");
                reveal_strlit("help");
                assert("mode"@[0] != "help"@[0]);
                reveal_strlit("new_thread");
                reveal_strlit("new");
                reveal_strlit("resume");
                reveal_strlit("clear");
                reveal_strlit("toolmode");
                assert("mode"@.len() != "cancel"@.len());
                assert("mode"@.len() != "restart"@.len());
                assert("mode"@.len() != "compact"@.len());
                assert("mode"@.len() != "start"@.len());
                assert("mode"@.len() != "new_thread"@.len());
                assert("mode"@.len() != "new"@.len());
                assert("mode"@.len() != "resume"@.len());
                assert("mode"@.len() != "clear"@.len());
                assert("mode"@.len() != "toolmode"@.len());
            }
        },
        CommandRoute::Status => {
            assert(route_of("status"@) == r) by {
                reveal_strlit("status");
                reveal_strlit("cancel");
                assert("status"@[0] != "cancel"@[0]);
                reveal_strlit("restart");
                reveal_strlit("compact");
                reveal_strlit("start");
                reveal_strlit("help");
                reveal_strlit("new_thread");
                reveal_strlit("new");
                reveal_strlit("resume");
                assert("status"@[0] != "resume"@[0]);
                reveal_strlit("clear");
                reveal_strlit("toolmode");
                reveal_strlit("mode");
                assert("status"@.len() != "restart"@.len());
                assert("status"@.len() != "compact"@.len());
                assert("status"@.len() != "start"@.len());
                assert("status"@.len() != "help"@.len());
                assert("status"@.len() != "new_thread"@.len());
                assert("status"@.len() != "new"@.len());
                assert("status"@.len() != "clear"@.len());
                assert("status"@.len() != "toolmode"@.len());
                assert("status"@.len() != "mode"@.len());
            }
        },
        CommandRoute::Context => {
            assert(route_of("context"@) == r) by {
                reveal_strlit("context");
                reveal_strlit("cancel");
                reveal_strlit("restart");
                assert("context"@[0] != "restart"@[0]);
                reveal_strlit("compact");
                assert("context"@[2] != "compact"@[2]);
                reveal_strlit("start");
                reveal_strlit("help");
                reveal_strlit("new_thread");
                reveal_strlit("new");
                reveal_strlit("resume");
                reveal_strlit("clear");
                reveal_strlit("toolmode");
                reveal_strlit("mode");
                reveal_strlit("status");
                assert("context"@.len() != "cancel"@.len());
                assert("context"@.len() != "start"@.len());
                assert("context"@.len() != "help"@.len());
                assert("context"@.len() != "new_thread"@.len());
                assert("context"@.len() != "new"@.len());
                assert("context"@.len() != "resume"@.len());
                assert("context"@.len() != "clear"@.len());
                assert("context"@.len() != "toolmode"@.len());
                assert("context"@.len() != "mode"@.len());
                assert("context"@.len() != "status"@.len());
            }
        },
        CommandRoute::Mcp => {
            assert(route_of("mcp"@) == r) by {
                reveal_strlit("mcp");
                reveal_strlit("cancel");
                reveal_strlit("restart");
                reveal_strlit("compact");
                reveal_strlit("start");
                reveal_strlit("help");
                reveal_strlit("new_thread");
                reveal_strlit("new");
                assert("mcp"@[0] != "new"@[0]);
                reveal_strlit("resume");
                reveal_strlit("clear");
                reveal_strlit("toolmode");
                reveal_strlit("mode");
                reveal_strlit("status");
                reveal_strlit("context");
                assert("mcp"@.len() != "cancel"@.len());
                assert("mcp"@.len() != "restart"@.len());
                assert("mcp"@.len() != "compact"@.len());
                assert("mcp"@.len() != "start"@.len());
                assert("mcp"@.len() != "help"@.len());
                assert("mcp"@.len() != "new_thread"@.len());
                assert("mcp"@.len() != "resume"@.len());
                assert("mcp"@.len() != "clear"@.len());
                assert("mcp"@.len() != "toolmode"@.len());
                assert("mcp"@.len() != "mode"@.len());
                assert("mcp"@.len() != "status"@.len());
                assert("mcp"@.len() != "context"@.len());
            }
            assert(route_of("mcps"@) == r) by {
                reveal_strlit("mcps");
                reveal_strlit("cancel");
                reveal_strlit("restart");
                reveal_strlit("compact");
                reveal_strlit("start");
                reveal_strlit("help");
                assert("mcps"@[0] != "help"@[0]);
                reveal_strlit("new_thread");
                reveal_strlit("new");
                reveal_strlit("resume");
                reveal_strlit("clear");
                reveal_strlit("toolmode");
                reveal_strlit("mode");
                assert("mcps"@[1] != "mode"@[1]);
                reveal_strlit("status");
                reveal_strlit("context");
                reveal_strlit("mcp");
                assert("mcps"@.len() != "cancel"@.len());
                assert("mcps"@.len() != "restart"@.len());
                assert("mcps"@.len() != "compact"@.len());
                assert("mcps"@.len() != "start"@.len());
                assert("mcps"@.len() != "new_thread"@.len());
                assert("mcps"@.len() != "new"@.len());
                assert("mcps"@.len() != "resume"@.len());
                assert("mcps"@.len() != "clear"@.len());
                assert("mcps"@.len() != "toolmode"@.len());
                assert("mcps"@.len() != "status"@.len());
                assert("mcps"@.len() != "context"@.len());
                assert("mcps"@.len() != "mcp"@.len());
            }
        },
        CommandRoute::Skills => {
            assert(route_of("skills"@) == r) by {
                reveal_strlit("skills");
                reveal_strlit("cancel");
                assert("skills"@[0] != "cancel"@[0]);
                reveal_strlit("restart");
                reveal_strlit("compact");
                reveal_strlit("start");
                reveal_strlit("help");
                reveal_strlit("new_thread");
                reveal_strlit("new");
                reveal_strlit("resume");
                assert("skills"@[0] != "resume"@[0]);
                reveal_strlit("clear");
                reveal_strlit("toolmode");
                reveal_strlit("mode");
                reveal_strlit("status");
                assert("skills"@[1] != "status"@[1]);
                reveal_strlit("context");
                reveal_strlit("mcp");
                reveal_strlit("mcps");
                assert("skills"@.len() != "restart"@.len());
                assert("skills"@.len() != "compact"@.len());
                assert("skills"@.len() != "start"@.len());
                assert("skills"@.len() != "help"@.len());
                assert("skills"@.len() != "new_thread"@.len());
                assert("skills"@.len() != "new"@.len());
                assert("skills"@.len() != "clear"@.len());
                assert("skills"@.len() != "toolmode"@.len());
                assert("skills"@.len() != "mode"@.len());
                assert("skills"@.len() != "context"@.len());
                assert("skills"@.len() != "mcp"@.len());
                assert("skills"@.len() != "mcps"@.len());
            }
        },
        CommandRoute::Tasks => {
            assert(route_of("tasks"@) == r) by {
                reveal_strlit("tasks");
                reveal_strlit("cancel");
                reveal_strlit("restart");
                reveal_strlit("compact");
                reveal_strlit("start");
                assert("tasks"@[0] != "start"@[0]);
                reveal_strlit("help");
                reveal_strlit("new_thread");
                reveal_strlit("new");
                reveal_strlit("resume");
                reveal_strlit("clear");
                assert("tasks"@[0] != "clear"@[0]);
                reveal_strlit("toolmode");
                reveal_strlit("mode");
                reveal_strlit("status");
                reveal_strlit("context");
                reveal_strlit("mcp");
                reveal_strlit("mcps");
                reveal_strlit("skills");
                assert("tasks"@.len() != "cancel"@.len());
                assert("tasks"@.len() != "restart"@.len());
                assert("tasks"@.len() != "compact"@.len());
                assert("tasks"@.len() != "help"@.len());
                assert("tasks"@.len() != "new_thread"@.len());
                assert("tasks"@.len() != "new"@.len());
                assert("tasks"@.len() != "resume"@.len());
                assert("tasks"@.len() != "toolmode"@.len());
                assert("tasks"@.len() != "mode"@.len());
                assert("tasks"@.len() != "status"@.len());
                assert("tasks"@.len() != "context"@.len());
                assert("tasks"@.len() != "mcp"@.len());
                assert("tasks"@.len() != "mcps"@.len());
                assert("tasks"@.len() != "skills"@.len());
            }
        },
        CommandRoute::Cd => {
            assert(route_of("cd"@) == r) by {
                reveal_strlit("cd");
                reveal_strlit("cancel");
                reveal_strlit("restart");
                reveal_strlit("compact");
                reveal_strlit("start");
                reveal_strlit("help");
                reveal_strlit("new_thread");
                reveal_strlit("new");
                reveal_strlit("resume");
                reveal_strlit("clear");
                reveal_strlit("toolmode");
                reveal_strlit("mode");
                reveal_strlit("status");
                reveal_strlit("context");
                reveal_strlit("mcp");
                reveal_strlit("mcps");
                reveal_strlit("skills");
                reveal_strlit("tasks");
                assert("cd"@.len() != "cancel"@.len());
                assert("cd"@.len() != "restart"@.len());
                assert("cd"@.len() != "compact"@.len());
                assert("cd"@.len() != "start"@.len());
                assert("cd"@.len() != "help"@.len());
                assert("cd"@.len() != "new_thread"@.len());
                assert("cd"@.len() != "new"@.len());
                assert("cd"@.len() != "resume"@.len());
                assert("cd"@.len() != "clear"@.len());
                assert("cd"@.len() != "toolmode"@.len());
                assert("cd"@.len() != "mode"@.len());
                assert("cd"@.len() != "status"@.len());
                assert("cd"@.len() != "context"@.len());
                assert("cd"@.len() != "mcp"@.len());
                assert("cd"@.len() != "mcps"@.len());
                assert("cd"@.len() != "skills"@.len());
                assert("cd"@.len() != "tasks"@.len());
            }
            assert(route_of("pwd"@) == r) by {
                reveal_strlit("pwd");
                reveal_strlit("cancel");
                reveal_strlit("restart");
                reveal_strlit("compact");
                reveal_strlit("start");
                reveal_strlit("help");
                reveal_strlit("new_thread");
                reveal_strlit("new");
                assert("pwd"@[0] != "new"@[0]);
                reveal_strlit("resume");
                reveal_strlit("clear");
                reveal_strlit("toolmode");
                reveal_strlit("mode");
                reveal_strlit("status");
                reveal_strlit("context");
                reveal_strlit("mcp");
                assert("pwd"@[0] != "mcp"@[0]);
                reveal_strlit("mcps");
                reveal_strlit("skills");
                reveal_strlit("tasks");
                reveal_strlit("cd");
                assert("pwd"@.len() != "cancel"@.len());
                assert("pwd"@.len() != "restart"@.len());
                assert("pwd"@.len() != "compact"@.len());
                assert("pwd"@.len() != "start"@.len());
                assert("pwd"@.len() != "help"@.len());
                assert("pwd"@.len() != "new_thread"@.len());
                assert("pwd"@.len() != "resume"@.len());
                assert("pwd"@.len() != "clear"@.len());
                assert("pwd"@.len() != "toolmode"@.len());
                assert("pwd"@.len() != "mode"@.len());
                assert("pwd"@.len() != "status"@.len());
                assert("pwd"@.len() != "context"@.len());
                assert("pwd"@.len() != "mcps"@.len());
                assert("pwd"@.len() != "skills"@.len());
                assert("pwd"@.len() != "tasks"@.len());
                assert("pwd"@.len() != "cd"@.len());
            }
        },
        CommandRoute::Bash => {
            assert(route_of("bash"@) == r) by {
                reveal_strlit("bash");
                reveal_strlit("cancel");
                reveal_strlit("restart");
                reveal_strlit("compact");
                reveal_strlit("start");
                reveal_strlit("help");
                assert("bash"@[0] != "help"@[0]);
                reveal_strlit("new_thread");
                reveal_strlit("new");
                reveal_strlit("resume");
                reveal_strlit("clear");
                reveal_strlit("toolmode");
                reveal_strlit("mode");
                assert("bash"@[0] != "mode"@[0]);
                reveal_strlit("status");
                reveal_strlit("context");
                reveal_strlit("mcp");
                reveal_strlit("mcps");
                assert("bash"@[0] != "mcps"@[0]);
                reveal_strlit("skills");
                reveal_strlit("tasks");
                reveal_strlit("cd");
                reveal_strlit("pwd");
                assert("bash"@.len() != "cancel"@.len());
                assert("bash"@.len() != "restart"@.len());
                assert("bash"@.len() != "compact"@.len());
                assert("bash"@.len() != "start"@.len());
                assert("bash"@.len() != "new_thread"@.len());
                assert("bash"@.len() != "new"@.len());
                assert("bash"@.len() != "resume"@.len());
                assert("bash"@.len() != "clear"@.len());
                assert("bash"@.len() != "toolmode"@.len());
                assert("bash"@.len() != "status"@.len());
                assert("bash"@.len() != "context"@.len());
                assert("bash"@.len() != "mcp"@.len());
                assert("bash"@.len() != "skills"@.len());
                assert("bash"@.len() != "tasks"@.len());
                assert("bash"@.len() != "cd"@.len());
                assert("bash"@.len() != "pwd"@.len());
            }
        },
        CommandRoute::Unknown => {},
    }
}

/// Which handler a command goes to (cancel, restart, compact and bash need
/// a process and are taken first; unknown names get an error reply).
pub fn route_command(name: &str) -> (r: CommandRoute)
    ensures
        r == route_of(name@),
{
    if str_eq(name, "cancel") {
        CommandRoute::Cancel
    } else if str_eq(name, "restart") {
        CommandRoute::Restart
    } else if str_eq(name, "compact") {
        CommandRoute::Compact
    } else if str_eq(name, "start") {
        CommandRoute::Start
    } else if str_eq(name, "help") {
        CommandRoute::Help
    } else if str_eq(name, "new_thread") || str_eq(name, "new") {
        CommandRoute::NewThread
    } else if str_eq(name, "resume") {
        CommandRoute::Resume
    } else if str_eq(name, "clear") {
        CommandRoute::Clear
    } else if str_eq(name, "toolmode") || str_eq(name, "mode") {
        CommandRoute::ToolMode
    } else if str_eq(name, "status") {
        CommandRoute::Status
    } else if str_eq(name, "context") {
        CommandRoute::Context
    } else if str_eq(name, "mcp") || str_eq(name, "mcps") {
        CommandRoute::Mcp
    } else if str_eq(name, "skills") {
        CommandRoute::Skills
    } else if str_eq(name, "tasks") {
        CommandRoute::Tasks
    } else if str_eq(name, "cd") || str_eq(name, "pwd") {
        CommandRoute::Cd
    } else if str_eq(name, "bash") {
        CommandRoute::Bash
    } else {
        CommandRoute::Unknown
    }
}

/// Appends the escaped form of a whole string.
fn push_esc(s: &mut String, t: &str)
    ensures
        final(s)@ == old(s)@ + html_escaped(t@),
{
    let v = chars_of(t);
    push_escaped(s, &v, 0, v.len());
    assert(v@.subrange(0, v@.len() as int) =~= t@);
}

/// `s`, or `fallback` when `s` is empty.
pub open spec fn or_if_empty(s: Seq<char>, fallback: Seq<char>) -> Seq<char> {
    if s.len() > 0 {
        s
    } else {
        fallback
    }
}

fn or_if_empty_exec<'a>(s: &'a str, fallback: &'a str) -> (r: &'a str)
    ensures
        r@ == or_if_empty(s@, fallback@),
{
    if s.is_empty() {
        fallback
    } else {
        s
    }
}

/// The `/start` card: the session's model (or `default_model` before any
/// run), version and permission mode.
pub open spec fn start_text(info: Option<SessionMeta>, default_model: Seq<char>) -> Seq<char> {
    let (model, version, perm) = match info {
        Some(i) => (i.model@, or_if_empty(i.version@, "\u{2014}"@), or_if_empty(
            i.permission_mode@,
            "bypassPermissions"@,
        )),
        None => (default_model, "\u{2014}"@, "bypassPermissions"@),
    };
    "<b>TeleCode Bot</b>\nHigh-performance coding agent bridge\n\n<b>Model</b>    <code>"@
        + html_escaped(model) + "</code>\n<b>Version</b>  <code>"@ + html_escaped(version)
        + "</code>\n<b>Mode</b>     <code>"@ + html_escaped(perm)
        + "</code>\n\nType /help for commands."@
}

/// Text of the `/start` reply.
pub fn start_html(info: Option<&SessionMeta>, default_model: &str) -> (r: String)
    ensures
        r@ == start_text(
            match info {
                Some(i) => Some(*i),
                None => None,
            },
            default_model@,
        ),
{
    let (model, version, perm) = match info {
        Some(i) => (
            i.model.as_str(),
            or_if_empty_exec(i.version.as_str(), "\u{2014}"),
            or_if_empty_exec(i.permission_mode.as_str(), "bypassPermissions"),
        ),
        None => (default_model, "\u{2014}", "bypassPermissions"),
    };
    let mut r = "<b>TeleCode Bot</b>\nHigh-performance coding agent bridge\n\n<b>Model</b>    <code>".to_string();
    push_esc(&mut r, model);
    push_str(&mut r, "</code>\n<b>Version</b>  <code>");
    push_esc(&mut r, version);
    push_str(&mut r, "</code>\n<b>Mode</b>     <code>");
    push_esc(&mut r, perm);
    push_str(&mut r, "</code>\n\nType /help for commands.");
    r
}

/// Text of the `/resume <id>` reply.
pub fn session_set_html(id: &str) -> (r: String)
    ensures
        r@ == "\u{2705} <b>Session set</b>\n<code>"@ + html_escaped(id@) + "</code>"@,
{
    let mut r = "\u{2705} <b>Session set</b>\n<code>".to_string();
    push_esc(&mut r, id);
    push_str(&mut r, "</code>");
    r
}

/// One numbered line of the session list.
pub open spec fn session_line(i: nat, sid: Seq<char>) -> Seq<char> {
    decimal(i + 1) + ". <code>"@ + html_escaped(sid) + "</code>"@
}

/// The numbered lines of the session list.
pub open spec fn session_lines(ss: Seq<Seq<char>>) -> Seq<Seq<char>> {
    Seq::new(ss.len(), |i: int| session_line(i as nat, ss[i]))
}

/// Text of the `/resume` reply listing recent sessions (newest first).
pub fn session_list_html(sessions: &Vec<String>) -> (r: String)
    ensures
        sessions@.len() == 0 ==> r@ == "<b>No sessions</b>\nNo history for this thread."@,
        sessions@.len() > 0 ==> r@ == "<b>Recent Sessions</b>\n\n"@ + join_lines(
            session_lines(sessions@.map_values(|s: String| s@)),
        ) + "\n\n/resume &lt;id&gt; to resume"@,
{
    if sessions.len() == 0 {
        return "<b>No sessions</b>\nNo history for this thread.".to_string();
    }
    let ghost ss = sessions@.map_values(|s: String| s@);
    let mut list = String::new();
    let mut i: usize = 0;
    while i < sessions.len()
        invariant
            i <= sessions.len(),
            ss == sessions@.map_values(|s: String| s@),
            list@ == join_lines(session_lines(ss.take(i as int))),
        decreases sessions.len() - i,
    {
        let ghost before = session_lines(ss.take(i as int));
        if i > 0 {
            push_str(&mut list, "\n");
        }
        push_decimal(&mut list, (i + 1) as u64);
        push_str(&mut list, ". <code>");
        push_esc(&mut list, sessions[i].as_str());
        push_str(&mut list, "</code>");
        proof {
            let after = session_lines(ss.take(i + 1));
            assert(after =~= before.push(session_line(i as nat, ss[i as int])));
            assert(after.drop_last() =~= before);
            if i > 0 {
                assert(join_lines(after) == join_lines(before) + "\n"@ + after.last());
            }
        }
        i = i + 1;
        assert(list@ =~= join_lines(session_lines(ss.take(i as int))));
    }
    assert(ss.take(ss.len() as int) =~= ss);
    let mut r = "<b>Recent Sessions</b>\n\n".to_string();
    push_str(&mut r, list.as_str());
    push_str(&mut r, "\n\n/resume &lt;id&gt; to resume");
    r
}

/// Text of the `/clear` reply, naming the fresh workspace.
pub fn cleared_html(workspace: &str) -> (r: String)
    ensures
        r@ == "\u{2705} <b>Cleared</b>\n\nSession and memory removed.\nWorkspace: <code>"@
            + html_escaped(workspace@) + "</code>"@,
{
    let mut r = "\u{2705} <b>Cleared</b>\n\nSession and memory removed.\nWorkspace: <code>".to_string();
    push_esc(&mut r, workspace);
    push_str(&mut r, "</code>");
    r
}

/// A titled path reply: `{title}\n<code>{path}</code>`.
pub fn path_html(title: &str, path: &str) -> (r: String)
    ensures
        r@ == title@ + "\n<code>"@ + html_escaped(path@) + "</code>"@,
{
    let mut r = title.to_string();
    push_str(&mut r, "\n<code>");
    push_esc(&mut r, path);
    push_str(&mut r, "</code>");
    r
}

/// A `/cd` argument with `~` expanded to the home directory (when known).
pub open spec fn expanded_path(p: Seq<char>, home: Option<Seq<char>>) -> Seq<char> {
    if p.len() >= 2 && p[0] == '~' && p[1] == '/' {
        match home {
            Some(h) => h + "/"@ + p.skip(2),
            None => p,
        }
    } else if p == "~"@ {
        match home {
            Some(h) => h,
            None => p,
        }
    } else {
        p
    }
}

/// Expands a leading `~` of a `/cd` argument.
pub fn expand_home(p: &str, home: Option<&str>) -> (r: String)
    ensures
        r@ == expanded_path(p@, match home {
            Some(h) => Some(h@),
            None => None,
        }),
{
    let v = chars_of(p);
    if v.len() >= 2 && v[0] == '~' && v[1] == '/' {
        match home {
            Some(h) => {
                let mut r = h.to_string();
                push_str(&mut r, "/");
                let rest = string_of(&v, 2, v.len());
                push_str(&mut r, rest.as_str());
                assert(v@.subrange(2, v@.len() as int) =~= p@.skip(2));
                r
            },
            None => p.to_string(),
        }
    } else if str_eq(p, "~") {
        match home {
            Some(h) => h.to_string(),
            None => p.to_string(),
        }
    } else {
        p.to_string()
    }
}

/// `p` taken relative to the directory `base`, as `Path::join` does on
/// Unix: an absolute `p` replaces `base`; otherwise a `/` separates them
/// unless `base` is empty or already ends with one.
pub open spec fn joined_path(base: Seq<char>, p: Seq<char>) -> Seq<char> {
    if p.len() > 0 && p[0] == '/' {
        p
    } else if base.len() > 0 && base.last() != '/' {
        base + "/"@ + p
    } else {
        base + p
    }
}

/// Joins a path onto a base directory (see [`joined_path`]).
pub fn join_path(base: &str, p: &str) -> (r: String)
    ensures
        r@ == joined_path(base@, p@),
{
    let pv = chars_of(p);
    if pv.len() > 0 && pv[0] == '/' {
        return p.to_string();
    }
    let bv = chars_of(base);
    let mut r = base.to_string();
    if bv.len() > 0 && bv[bv.len() - 1] != '/' {
        push_str(&mut r, "/");
    }
    push_str(&mut r, p);
    r
}

/// The directory a `/cd` argument asks for: `None` for no argument (the
/// reply then shows the workspace), else the argument trimmed, with `~`
/// expanded, taken relative to the current workspace.
pub open spec fn cd_target_text(args: Seq<char>, home: Option<Seq<char>>, workspace: Seq<char>) -> Option<
    Seq<char>,
> {
    if trim(args).len() == 0 {
        None
    } else {
        Some(joined_path(workspace, expanded_path(trim(args), home)))
    }
}

/// Resolves a `/cd` argument (see [`cd_target_text`]); the application
/// then canonicalises the path and checks that it is a directory.
pub fn cd_target(args: &str, home: Option<&str>, workspace: &str) -> (r: Option<String>)
    ensures
        opt_text(r) == cd_target_text(
            args@,
            match home {
                Some(h) => Some(h@),
                None => None,
            },
            workspace@,
        ),
{
    let v = chars_of(args);
    let (a, b) = trim_bounds(&v, 0, v.len());
    assert(v@.subrange(0, v@.len() as int) =~= args@);
    if a == b {
        return None;
    }
    let t = string_of(&v, a, b);
    let expanded = expand_home(t.as_str(), home);
    Some(join_path(workspace, expanded.as_str()))
}

/// The text of an optional string.
pub open spec fn opt_text(o: Option<String>) -> Option<Seq<char>> {
    match o {
        Some(s) => Some(s@),
        None => None,
    }
}

/// The shell command a `/bash` argument asks for: the trimmed argument,
/// or `None` when it is blank (the reply is then the usage).
pub fn bash_command(args: &str) -> (r: Option<String>)
    ensures
        opt_text(r) == if trim(args@).len() > 0 {
            Some(trim(args@))
        } else {
            None::<Seq<char>>
        },
{
    let v = chars_of(args);
    let (a, b) = trim_bounds(&v, 0, v.len());
    assert(v@.subrange(0, v@.len() as int) =~= args@);
    if a == b {
        None
    } else {
        Some(string_of(&v, a, b))
    }
}

/// Reply to `/bash` without a command.
pub fn bash_usage_html() -> (r: &'static str)
    ensures
        r@ == "<b>Usage</b>\n/bash &lt;cmd&gt;"@,
{
    "<b>Usage</b>\n/bash &lt;cmd&gt;"
}

/// How a shell command ended: its exit code, or a timeout.
pub open spec fn bash_status_text(exit_code: Option<i32>, timed_out: bool) -> Seq<char> {
    if timed_out {
        "timed out"@
    } else {
        match exit_code {
            Some(c) => "exit "@ + decimal_int(c as int),
            None => "killed"@,
        }
    }
}

/// The reply to `/bash`: the command, how it ended, and its output (or
/// `(no output)`), cut to Telegram's limit.
pub open spec fn bash_result_text(
    cmd: Seq<char>,
    output: Seq<char>,
    exit_code: Option<i32>,
    timed_out: bool,
) -> Seq<char> {
    truncated_text(
        "<b>$</b> <code>"@ + html_escaped(cmd) + "</code>  \u{b7}  "@ + bash_status_text(
            exit_code,
            timed_out,
        ) + "\n\n<pre>"@ + html_escaped(trimmed_output(output)) + "</pre>"@,
    )
}

/// The trimmed output, or `(no output)` when that is empty.
pub open spec fn trimmed_output(output: Seq<char>) -> Seq<char> {
    if trim(output).len() > 0 {
        trim(output)
    } else {
        "(no output)"@
    }
}

/// Text of the `/bash` reply (see [`bash_result_text`]).
pub fn bash_result_html(cmd: &str, output: &str, exit_code: Option<i32>, timed_out: bool) -> (r:
    String)
    ensures
        r@ == bash_result_text(cmd@, output@, exit_code, timed_out),
{
    let mut r = "<b>$</b> <code>".to_string();
    push_esc(&mut r, cmd);
    push_str(&mut r, "</code>  \u{b7}  ");
    if timed_out {
        push_str(&mut r, "timed out");
    } else {
        match exit_code {
            Some(c) => {
                push_str(&mut r, "exit ");
                push_decimal_i64(&mut r, c as i64);
            },
            None => push_str(&mut r, "killed"),
        }
    }
    assert(r@ == "<b>$</b> <code>"@ + html_escaped(cmd@) + "</code>  \u{b7}  "@
        + bash_status_text(exit_code, timed_out));
    push_str(&mut r, "\n\n<pre>");
    let v = chars_of(output);
    let (a, b) = trim_bounds(&v, 0, v.len());
    assert(v@.subrange(0, v@.len() as int) =~= output@);
    let shown = if a == b {
        "(no output)".to_string()
    } else {
        string_of(&v, a, b)
    };
    assert(shown@ == trimmed_output(output@));
    push_esc(&mut r, shown.as_str());
    push_str(&mut r, "</pre>");
    truncate_for_telegram(r.as_str())
}

/// The tool mode a `/mode` argument selects: its trimmed lowercase form
/// when that is `safe` or `full`.
pub fn select_tool_mode(args: &str) -> (r: Option<String>)
    ensures
        match r {
            Some(m) => m@ == lowercase(trim(args@)) && (m@ == "safe"@ || m@ == "full"@),
            None => lowercase(trim(args@)) != "safe"@ && lowercase(trim(args@)) != "full"@,
        },
{
    let v = chars_of(args);
    let (a, b) = trim_bounds(&v, 0, v.len());
    assert(v@.subrange(0, v@.len() as int) =~= args@);
    let t = string_of(&v, a, b);
    let m = to_lowercase(t.as_str());
    if str_eq(m.as_str(), "safe") || str_eq(m.as_str(), "full") {
        Some(m)
    } else {
        None
    }
}

/// Text of the `/mode` reply once the mode is set.
pub fn tool_mode_set_html(mode: &str) -> (r: String)
    ensures
        r@ == "\u{2705} <b>Tool mode</b>: <code>"@ + html_escaped(mode@) + "</code>"@,
{
    let mut r = "\u{2705} <b>Tool mode</b>: <code>".to_string();
    push_esc(&mut r, mode);
    push_str(&mut r, "</code>");
    r
}

/// The text of an optional string, or a dash.
pub open spec fn or_dash(o: Option<String>) -> Seq<char> {
    match o {
        Some(s) => s@,
        None => "\u{2014}"@,
    }
}

/// The `/status` card.
pub open spec fn status_text(
    thread_key: Seq<char>,
    state: ThreadState,
    info: Option<SessionMeta>,
    latest: Seq<char>,
) -> Seq<char> {
    let model = match info {
        Some(i) => or_if_empty(i.model@, "\u{2014}"@),
        None => "\u{2014}"@,
    };
    let version = match info {
        Some(i) => or_if_empty(i.version@, "\u{2014}"@),
        None => "\u{2014}"@,
    };
    "<b>Status</b>\n\n<b>Thread</b>    <code>"@ + html_escaped(thread_key)
        + "</code>\n<b>Engine</b>    <code>"@ + html_escaped(state.active_engine@)
        + "</code>\n<b>Model</b>     <code>"@ + html_escaped(model)
        + "</code>\n<b>Version</b>   <code>"@ + html_escaped(version)
        + "</code>\n<b>Session</b>   <code>"@ + html_escaped(or_dash(state.active_session_id))
        + "</code>\n<b>Memory</b>    "@ + (if state.compact_summary is Some {
        "yes"@
    } else {
        "no"@
    }) + "\n<b>Mode</b>      <code>"@ + html_escaped(state.settings.tool_mode@)
        + "</code>\n<b>Latest</b>    <code>"@ + html_escaped(latest) + "</code>"@
}

fn opt_str<'a>(o: &'a Option<String>) -> (r: &'a str)
    ensures
        r@ == or_dash(*o),
{
    match o {
        Some(s) => s.as_str(),
        None => "\u{2014}",
    }
}

/// Text of the `/status` reply. `latest` is the newest session in the
/// thread's history, if any.
pub fn status_html(
    thread_key: &str,
    state: &ThreadState,
    info: Option<&SessionMeta>,
    latest: Option<&str>,
) -> (r: String)
    ensures
        r@ == status_text(
            thread_key@,
            *state,
            match info {
                Some(i) => Some(*i),
                None => None,
            },
            match latest {
                Some(l) => l@,
                None => "\u{2014}"@,
            },
        ),
{
    let (model, version) = match info {
        Some(i) => (
            or_if_empty_exec(i.model.as_str(), "\u{2014}"),
            or_if_empty_exec(i.version.as_str(), "\u{2014}"),
        ),
        None => ("\u{2014}", "\u{2014}"),
    };
    let latest = match latest {
        Some(l) => l,
        None => "\u{2014}",
    };
    let mut r = "<b>Status</b>\n\n<b>Thread</b>    <code>".to_string();
    push_esc(&mut r, thread_key);
    push_str(&mut r, "</code>\n<b>Engine</b>    <code>");
    push_esc(&mut r, state.active_engine.as_str());
    push_str(&mut r, "</code>\n<b>Model</b>     <code>");
    push_esc(&mut r, model);
    push_str(&mut r, "</code>\n<b>Version</b>   <code>");
    push_esc(&mut r, version);
    push_str(&mut r, "</code>\n<b>Session</b>   <code>");
    push_esc(&mut r, opt_str(&state.active_session_id));
    push_str(&mut r, "</code>\n<b>Memory</b>    ");
    push_str(&mut r, if state.compact_summary.is_some() { "yes" } else { "no" });
    push_str(&mut r, "\n<b>Mode</b>      <code>");
    push_esc(&mut r, state.tool_mode());
    push_str(&mut r, "</code>\n<b>Latest</b>    <code>");
    push_esc(&mut r, latest);
    push_str(&mut r, "</code>");
    r
}

/// The `/context` card before any usage data exists.
pub open spec fn context_no_data_text(state: ThreadState) -> Seq<char> {
    let summary = match state.compact_summary {
        Some(s) => "\n\n<b>Compact memory</b>\n<pre>"@ + html_escaped(
            if s@.len() <= 300 { s@ } else { s@.take(300) },
        ) + "</pre>"@,
        None => Seq::empty(),
    };
    "<b>Context</b>\n\n<i>No usage data yet \u{2014} send a message first.</i>\n\n<b>Session</b>  <code>"@
        + html_escaped(or_dash(state.active_session_id)) + "</code>\n<b>Engine</b>   <code>"@
        + html_escaped(state.active_engine@) + "</code>"@ + summary
}

/// Text of the `/context` reply when no run has reported usage yet.
pub fn format_context_no_data(state: &ThreadState) -> (r: String)
    ensures
        r@ == context_no_data_text(*state),
{
    let mut r = "<b>Context</b>\n\n<i>No usage data yet \u{2014} send a message first.</i>\n\n<b>Session</b>  <code>".to_string();
    push_esc(&mut r, opt_str(&state.active_session_id));
    push_str(&mut r, "</code>\n<b>Engine</b>   <code>");
    push_esc(&mut r, state.active_engine.as_str());
    push_str(&mut r, "</code>");
    match &state.compact_summary {
        Some(s) => {
            let preview = take_chars(s.as_str(), 300);
            push_str(&mut r, "\n\n<b>Compact memory</b>\n<pre>");
            push_esc(&mut r, preview.as_str());
            push_str(&mut r, "</pre>");
        },
        None => {},
    }
    r
}


/// Text of the `/help` reply.
pub fn help_html() -> (r: String)
    ensures
        r@ == "<b>Commands</b>\n\n<b>Session</b>\n/new \u{2014} Fresh session\n/resume [id] \u{2014} Resume or list sessions\n/clear \u{2014} Full reset (session + workspace)\n/compact \u{2014} Compress memory\n\n<b>Execution</b>\n/cancel \u{2014} Kill running process\n/restart \u{2014} Reset the engine\n/bash &lt;cmd&gt; \u{2014} Run shell command\n\n<b>Navigation</b>\n/cd [path] \u{2014} Show or change workspace\n\n<b>Info</b>\n/status \u{2014} Thread state\n/context \u{2014} Token usage + session\n/mcp \u{2014} MCP servers\n/skills \u{2014} Available skills\n/tasks \u{2014} Recent runs\n\n<b>Config</b>\n/mode &lt;safe|full&gt; \u{2014} Tool permissions\n\nSend any text as a prompt."@,
{
    "<b>Commands</b>\n\n<b>Session</b>\n/new \u{2014} Fresh session\n/resume [id] \u{2014} Resume or list sessions\n/clear \u{2014} Full reset (session + workspace)\n/compact \u{2014} Compress memory\n\n<b>Execution</b>\n/cancel \u{2014} Kill running process\n/restart \u{2014} Reset the engine\n/bash &lt;cmd&gt; \u{2014} Run shell command\n\n<b>Navigation</b>\n/cd [path] \u{2014} Show or change workspace\n\n<b>Info</b>\n/status \u{2014} Thread state\n/context \u{2014} Token usage + session\n/mcp \u{2014} MCP servers\n/skills \u{2014} Available skills\n/tasks \u{2014} Recent runs\n\n<b>Config</b>\n/mode &lt;safe|full&gt; \u{2014} Tool permissions\n\nSend any text as a prompt.".to_string()
}

/// The text of each string in a list.
pub open spec fn texts(v: Seq<String>) -> Seq<Seq<char>> {
    v.map_values(|s: String| s@)
}

/// A titled list: `<b>{title}</b>  ·  {count}` over the lines, or nothing
/// for an empty list.
pub open spec fn section_text(title: Seq<char>, lines: Seq<Seq<char>>) -> Seq<char> {
    if lines.len() == 0 {
        Seq::empty()
    } else {
        "<b>"@ + title + "</b>  \u{b7}  "@ + decimal(lines.len()) + "\n\n"@ + join_with(
            lines,
            "\n"@,
        )
    }
}

fn section(title: &str, lines: &Vec<String>) -> (r: String)
    ensures
        r@ == section_text(title@, texts(lines@)),
{
    if lines.len() == 0 {
        return String::new();
    }
    let mut r = "<b>".to_string();
    push_str(&mut r, title);
    push_str(&mut r, "</b>  \u{b7}  ");
    push_decimal(&mut r, lines.len() as u64);
    push_str(&mut r, "\n\n");
    let list = join_all(lines, "\n");
    push_str(&mut r, list.as_str());
    r
}

/// One indented item of a list: `  <code>{prefix}{item}</code>`.
pub open spec fn code_line(prefix: Seq<char>, item: Seq<char>) -> Seq<char> {
    "  <code>"@ + prefix + html_escaped(item) + "</code>"@
}

/// The indented lines of a list of items.
pub open spec fn code_lines_of(prefix: Seq<char>, items: Seq<Seq<char>>) -> Seq<Seq<char>> {
    Seq::new(items.len(), |i: int| code_line(prefix, items[i]))
}

fn code_lines(items: &Vec<String>, prefix: &str) -> (r: Vec<String>)
    ensures
        texts(r@) == code_lines_of(prefix@, texts(items@)),
{
    let mut r: Vec<String> = Vec::new();
    let mut i: usize = 0;
    while i < items.len()
        invariant
            i <= items.len(),
            r@.len() == i,
            forall|j: int| 0 <= j < i ==> #[trigger] r@[j]@ == code_line(prefix@, items@[j]@),
        decreases items.len() - i,
    {
        let mut line = "  <code>".to_string();
        push_str(&mut line, prefix);
        push_esc(&mut line, items[i].as_str());
        push_str(&mut line, "</code>");
        r.push(line);
        i = i + 1;
    }
    assert(texts(r@) =~= code_lines_of(prefix@, texts(items@)));
    r
}

/// One line of the `/mcp` list.
pub open spec fn mcp_line(s: McpServerInfo) -> Seq<char> {
    (if s.status@ == "connected"@ {
        "\u{2705}"@
    } else {
        "\u{274c}"@
    }) + " <b>"@ + html_escaped(s.name@) + "</b>  \u{b7}  "@ + html_escaped(s.status@)
}

/// The `/mcp` card for the thread's cached session metadata, if any.
pub open spec fn mcp_text(info: Option<SessionMeta>) -> Seq<char> {
    match info {
        Some(m) => if m.mcp_servers@.len() > 0 {
            section_text(
                "MCP Servers"@,
                Seq::new(m.mcp_servers@.len(), |i: int| mcp_line(m.mcp_servers@[i])),
            )
        } else {
            "<b>MCP Servers</b>\n\nNo servers configured."@
        },
        None => "<b>MCP Servers</b>\n\n<i>No data yet \u{2014} send a message first.</i>"@,
    }
}

/// Text of the `/mcp` reply.
pub fn mcp_html(info: Option<&SessionMeta>) -> (r: String)
    ensures
        r@ == mcp_text(
            match info {
                Some(i) => Some(*i),
                None => None,
            },
        ),
{
    let m = match info {
        None => {
            return "<b>MCP Servers</b>\n\n<i>No data yet \u{2014} send a message first.</i>".to_string();
        },
        Some(m) => m,
    };
    if m.mcp_servers.len() == 0 {
        return "<b>MCP Servers</b>\n\nNo servers configured.".to_string();
    }
    let servers = &m.mcp_servers;
    let mut lines: Vec<String> = Vec::new();
    let mut i: usize = 0;
    while i < servers.len()
        invariant
            i <= servers.len(),
            lines@.len() == i,
            forall|j: int| 0 <= j < i ==> #[trigger] lines@[j]@ == mcp_line(servers@[j]),
        decreases servers.len() - i,
    {
        let s = &servers[i];
        let mut line = if str_eq(s.status.as_str(), "connected") {
            "\u{2705}".to_string()
        } else {
            "\u{274c}".to_string()
        };
        push_str(&mut line, " <b>");
        push_esc(&mut line, s.name.as_str());
        push_str(&mut line, "</b>  \u{b7}  ");
        push_esc(&mut line, s.status.as_str());
        lines.push(line);
        i = i + 1;
    }
    assert(texts(lines@) =~= Seq::new(servers@.len(), |i: int| mcp_line(servers@[i])));
    section("MCP Servers", &lines)
}

/// The names of the plugins.
pub open spec fn plugin_names(v: Seq<PluginInfo>) -> Seq<Seq<char>> {
    v.map_values(|p: PluginInfo| p.name@)
}

/// The four sections of the `/skills` card: skills, slash commands, agents
/// and plugins (each empty when its list is).
pub open spec fn skills_sections(m: SessionMeta) -> Seq<Seq<char>> {
    seq![
        section_text("Skills"@, code_lines_of(""@, texts(m.skills@))),
        section_text("Slash Commands"@, code_lines_of("/"@, texts(m.slash_commands@))),
        section_text("Agents"@, code_lines_of(""@, texts(m.agents@))),
        section_text("Plugins"@, code_lines_of(""@, plugin_names(m.plugins@))),
    ]
}

/// The `/skills` card for the thread's cached session metadata, if any.
pub open spec fn skills_text(info: Option<SessionMeta>) -> Seq<char> {
    match info {
        None => truncated_text(
            "<b>Skills</b>\n\n<i>No data yet \u{2014} send a message first.</i>"@,
        ),
        Some(m) => if m.skills@.len() == 0 && m.slash_commands@.len() == 0 && m.agents@.len()
            == 0 && m.plugins@.len() == 0 {
            "<b>Skills</b>\n\nNo skills available."@
        } else {
            truncated_text(join_with(nonempty_only(skills_sections(m)), "\n\n"@))
        },
    }
}

/// Text of the `/skills` reply (cut to Telegram's limit).
pub fn skills_html(info: Option<&SessionMeta>) -> (r: String)
    ensures
        r@ == skills_text(
            match info {
                Some(i) => Some(*i),
                None => None,
            },
        ),
{
    let m = match info {
        None => {
            return truncate_for_telegram(
                "<b>Skills</b>\n\n<i>No data yet \u{2014} send a message first.</i>",
            );
        },
        Some(m) => m,
    };
    if m.skills.len() == 0 && m.slash_commands.len() == 0 && m.agents.len() == 0
        && m.plugins.len() == 0 {
        return "<b>Skills</b>\n\nNo skills available.".to_string();
    }
    let mut names: Vec<String> = Vec::new();
    let mut i: usize = 0;
    while i < m.plugins.len()
        invariant
            i <= m.plugins.len(),
            names@.len() == i,
            forall|j: int| 0 <= j < i ==> #[trigger] names@[j]@ == m.plugins@[j].name@,
        decreases m.plugins.len() - i,
    {
        names.push(m.plugins[i].name.clone());
        i = i + 1;
    }
    assert(texts(names@) =~= plugin_names(m.plugins@));
    let mut secs: Vec<String> = Vec::new();
    secs.push(section("Skills", &code_lines(&m.skills, "")));
    secs.push(section("Slash Commands", &code_lines(&m.slash_commands, "/")));
    secs.push(section("Agents", &code_lines(&m.agents, "")));
    secs.push(section("Plugins", &code_lines(&names, "")));
    assert(texts(secs@) =~= skills_sections(*m));
    let joined = join_nonempty(&secs, "\n\n");
    truncate_for_telegram(joined.as_str())
}

/// `label` followed by `n`, or nothing when `n` is zero.
pub open spec fn count_line(label: Seq<char>, n: nat) -> Seq<char> {
    if n > 0 {
        label + decimal(n)
    } else {
        Seq::empty()
    }
}

fn count_line_exec(label: &str, n: usize) -> (r: String)
    ensures
        r@ == count_line(label@, n as nat),
{
    let mut r = String::new();
    if n > 0 {
        push_str(&mut r, label);
        push_decimal(&mut r, n as u64);
    }
    r
}

/// The integer-only lines at the end of the `/context` card: the output
/// limit and the counts of MCP servers, tools and plugins, and the fast mode.
pub open spec fn context_details_text(max_output_tokens: u64, m: SessionMeta) -> Seq<char> {
    (if max_output_tokens > 0 {
        "\n<b>Max output</b> "@ + decimal((max_output_tokens / 1000) as nat) + "k tokens"@
    } else {
        Seq::empty()
    }) + count_line("\n<b>MCPs</b>       "@, m.mcp_servers@.len()) + count_line(
        "\n<b>Tools</b>      "@,
        m.tools@.len(),
    ) + count_line("\n<b>Plugins</b>    "@, m.plugins@.len()) + (if m.fast_mode_state@.len()
        > 0 {
        "\n<b>Fast mode</b>  <code>"@ + html_escaped(m.fast_mode_state@) + "</code>"@
    } else {
        Seq::empty()
    })
}

/// The trailing lines of the `/context` card.
pub fn context_details_html(max_output_tokens: u64, m: &SessionMeta) -> (r: String)
    ensures
        r@ == context_details_text(max_output_tokens, *m),
{
    let mut r = String::new();
    if max_output_tokens > 0 {
        push_str(&mut r, "\n<b>Max output</b> ");
        push_decimal(&mut r, max_output_tokens / 1000);
        push_str(&mut r, "k tokens");
    }
    let mcps = count_line_exec("\n<b>MCPs</b>       ", m.mcp_servers.len());
    push_str(&mut r, mcps.as_str());
    let tools = count_line_exec("\n<b>Tools</b>      ", m.tools.len());
    push_str(&mut r, tools.as_str());
    let plugins = count_line_exec("\n<b>Plugins</b>    ", m.plugins.len());
    push_str(&mut r, plugins.as_str());
    let mut fast = String::new();
    if !m.fast_mode_state.as_str().is_empty() {
        push_str(&mut fast, "\n<b>Fast mode</b>  <code>");
        push_esc(&mut fast, m.fast_mode_state.as_str());
        push_str(&mut fast, "</code>");
    }
    push_str(&mut r, fast.as_str());
    r
}

/// Whole seconds from the instant `start` to the instant `end` (both
/// RFC 3339 timestamps) as chrono counts them, or `None` when either string
/// is not a valid RFC 3339 timestamp.
pub uninterp spec fn rfc3339_seconds_between(start: Seq<char>, end: Seq<char>) -> Option<i64>;

/// Parses both strings with `chrono::DateTime::parse_from_rfc3339` and
/// returns `end.signed_duration_since(start).num_seconds()` (whole seconds,
/// rounded toward zero), or `None` when either fails to parse. The contract
/// names that result; it does not restate chrono's calendar arithmetic.
#[verifier::external_body]
fn seconds_between(start: &str, end: &str) -> (r: Option<i64>)
    ensures
        r == rfc3339_seconds_between(start@, end@),
{
    let s = match chrono::DateTime::parse_from_rfc3339(start) {
        Ok(d) => d,
        Err(_) => return None,
    };
    let e = match chrono::DateTime::parse_from_rfc3339(end) {
        Ok(d) => d,
        Err(_) => return None,
    };
    Some(e.signed_duration_since(s).num_seconds())
}

/// A run's duration: `42s`, `3m 5s` or `2h 10m`.
pub open spec fn duration_text(secs: int) -> Seq<char> {
    if secs < 60 {
        decimal_int(secs) + "s"@
    } else if secs < 3600 {
        decimal((secs / 60) as nat) + "m "@ + decimal((secs % 60) as nat) + "s"@
    } else {
        decimal((secs / 3600) as nat) + "h "@ + decimal(((secs % 3600) / 60) as nat) + "m"@
    }
}

/// Formats a duration given in whole seconds.
pub fn format_duration(secs: i64) -> (r: String)
    ensures
        r@ == duration_text(secs as int),
{
    let mut r = String::new();
    if secs < 60 {
        push_decimal_i64(&mut r, secs);
        push_str(&mut r, "s");
    } else if secs < 3600 {
        let n = secs as u64;
        push_decimal(&mut r, n / 60);
        push_str(&mut r, "m ");
        push_decimal(&mut r, n % 60);
        push_str(&mut r, "s");
    } else {
        let n = secs as u64;
        push_decimal(&mut r, n / 3600);
        push_str(&mut r, "h ");
        push_decimal(&mut r, (n % 3600) / 60);
        push_str(&mut r, "m");
    }
    r
}

/// An age: `42s ago`, `3m ago`, `5h ago` or `2d ago`.
pub open spec fn time_ago_text(secs: int) -> Seq<char> {
    if secs < 60 {
        decimal_int(secs) + "s ago"@
    } else if secs < 3600 {
        decimal((secs / 60) as nat) + "m ago"@
    } else if secs < 86400 {
        decimal((secs / 3600) as nat) + "h ago"@
    } else {
        decimal((secs / 86400) as nat) + "d ago"@
    }
}

/// Formats an age given in whole seconds.
pub fn format_ago(secs: i64) -> (r: String)
    ensures
        r@ == time_ago_text(secs as int),
{
    let mut r = String::new();
    if secs < 60 {
        push_decimal_i64(&mut r, secs);
        push_str(&mut r, "s ago");
    } else {
        let n = secs as u64;
        if n < 3600 {
            push_decimal(&mut r, n / 60);
            push_str(&mut r, "m ago");
        } else if n < 86400 {
            push_decimal(&mut r, n / 3600);
            push_str(&mut r, "h ago");
        } else {
            push_decimal(&mut r, n / 86400);
            push_str(&mut r, "d ago");
        }
    }
    r
}

/// The duration between two RFC 3339 timestamps, or a dash when either is
/// not valid.
pub open spec fn duration_between_text(start: Seq<char>, end: Seq<char>) -> Seq<char> {
    match rfc3339_seconds_between(start, end) {
        Some(n) => duration_text(n as int),
        None => "\u{2014}"@,
    }
}

/// Formats the time from `start` to `end` (RFC 3339 timestamps).
pub fn format_duration_between(start: &str, end: &str) -> (r: String)
    ensures
        r@ == duration_between_text(start@, end@),
{
    match seconds_between(start, end) {
        Some(n) => format_duration(n),
        None => "\u{2014}".to_string(),
    }
}

/// The age of the timestamp `iso` at the time `now`, or a dash when either
/// is not a valid RFC 3339 timestamp.
pub open spec fn time_ago_at_text(iso: Seq<char>, now: Seq<char>) -> Seq<char> {
    match rfc3339_seconds_between(iso, now) {
        Some(n) => time_ago_text(n as int),
        None => "\u{2014}"@,
    }
}

/// Formats the age of the timestamp `iso` at the time `now`.
pub fn time_ago_at(iso: &str, now: &str) -> (r: String)
    ensures
        r@ == time_ago_at_text(iso@, now@),
{
    match seconds_between(iso, now) {
        Some(n) => format_ago(n),
        None => "\u{2014}".to_string(),
    }
}

/// The `/tasks` icon of a run status.
pub open spec fn run_icon(status: Seq<char>) -> Seq<char> {
    if status == "succeeded"@ {
        "\u{2705}"@
    } else if status == "failed"@ {
        "\u{274c}"@
    } else if status == "canceled"@ {
        "\u{23f9}"@
    } else if status == "running"@ {
        "\u{23f3}"@
    } else {
        "\u{b7}"@
    }
}

fn run_icon_exec(status: &str) -> (r: &'static str)
    ensures
        r@ == run_icon(status@),
{
    if str_eq(status, "succeeded") {
        "\u{2705}"
    } else if str_eq(status, "failed") {
        "\u{274c}"
    } else if str_eq(status, "canceled") {
        "\u{23f9}"
    } else if str_eq(status, "running") {
        "\u{23f3}"
    } else {
        "\u{b7}"
    }
}

/// One line of the `/tasks` list, with ages taken at the time `now`.
pub open spec fn task_line(r: RunInfo, now: Seq<char>) -> Seq<char> {
    run_icon(r.status@) + " #"@ + decimal_int(r.id as int) + "  \u{b7}  "@ + html_escaped(
        r.status@,
    ) + "  \u{b7}  "@ + (match r.ended_at {
        Some(e) => duration_between_text(r.started_at@, e@),
        None => "running"@,
    }) + "  \u{b7}  "@ + time_ago_at_text(r.started_at@, now)
}

fn task_line_exec(run: &RunInfo, now: &str) -> (r: String)
    ensures
        r@ == task_line(*run, now@),
{
    let mut r = run_icon_exec(run.status.as_str()).to_string();
    push_str(&mut r, " #");
    push_decimal_i64(&mut r, run.id);
    push_str(&mut r, "  \u{b7}  ");
    push_esc(&mut r, run.status.as_str());
    push_str(&mut r, "  \u{b7}  ");
    let duration = match &run.ended_at {
        Some(end) => format_duration_between(run.started_at.as_str(), end.as_str()),
        None => "running".to_string(),
    };
    push_str(&mut r, duration.as_str());
    push_str(&mut r, "  \u{b7}  ");
    let ago = time_ago_at(run.started_at.as_str(), now);
    push_str(&mut r, ago.as_str());
    r
}

/// The `/tasks` card for the recent runs, with ages taken at the time `now`.
pub open spec fn tasks_text(runs: Seq<RunInfo>, now: Seq<char>) -> Seq<char> {
    if runs.len() == 0 {
        "<b>Recent Runs</b>\n\nNo runs yet."@
    } else {
        truncated_text(
            section_text("Recent Runs"@, Seq::new(runs.len(), |i: int| task_line(runs[i], now))),
        )
    }
}

/// Text of the `/tasks` reply at the time `now`.
pub fn tasks_html_at(runs: &Vec<RunInfo>, now: &str) -> (r: String)
    ensures
        r@ == tasks_text(runs@, now@),
{
    if runs.len() == 0 {
        return "<b>Recent Runs</b>\n\nNo runs yet.".to_string();
    }
    let mut lines: Vec<String> = Vec::new();
    let mut i: usize = 0;
    while i < runs.len()
        invariant
            i <= runs.len(),
            lines@.len() == i,
            forall|j: int| 0 <= j < i ==> #[trigger] lines@[j]@ == task_line(runs@[j], now@),
        decreases runs.len() - i,
    {
        lines.push(task_line_exec(&runs[i], now));
        i = i + 1;
    }
    assert(texts(lines@) =~= Seq::new(runs@.len(), |i: int| task_line(runs@[i], now@)));
    let card = section("Recent Runs", &lines);
    truncate_for_telegram(card.as_str())
}

} // verus!

//! Building the engine's command line.

use vstd::prelude::*;
use crate::nitro::types::EngineCommand;
use crate::text::{join_nonempty, join_with, nonempty_only, push_str, str_eq, take_chars};

verus! {

/// The fixed leading arguments after the binary: read the prompt from
/// stdin, stream JSON with partial messages, skip permission prompts.
pub open spec fn base_args(bin: Seq<char>) -> Seq<Seq<char>> {
    seq![
        bin,
        "-p"@,
        "-"@,
        "--output-format"@,
        "stream-json"@,
        "--verbose"@,
        "--include-partial-messages"@,
        "--dangerously-skip-permissions"@,
    ]
}

/// The system-prompt addition that seeds a session with a stored summary
/// (the summary cut to its first 4000 characters).
pub open spec fn summary_prompt(summary: Seq<char>) -> Seq<char> {
    let cut = if summary.len() <= 4000 { summary } else { summary.take(4000) };
    "Persisted thread summary:\n"@ + cut + "\nTreat this as trusted memory and continue from it."@
}

/// The full argument list of an engine run.
pub open spec fn engine_args(
    bin: Seq<char>,
    safe_tools: Seq<Seq<char>>,
    full_tools: Seq<Seq<char>>,
    session_id: Option<Seq<char>>,
    tool_mode: Seq<char>,
    seed_summary: Option<Seq<char>>,
) -> Seq<Seq<char>> {
    let resume = match session_id {
        Some(sid) => seq!["--resume"@, sid],
        None => Seq::empty(),
    };
    let seed = match seed_summary {
        Some(s) => seq!["--append-system-prompt"@, summary_prompt(s)],
        None => Seq::empty(),
    };
    let tools = nonempty_only(if tool_mode == "full"@ { full_tools } else { safe_tools });
    let allowed = if tools.len() > 0 {
        seq!["--allowedTools"@, join_with(tools, ","@)]
    } else {
        Seq::empty()
    };
    base_args(bin) + resume + seed + allowed
}

/// Resuming: given a session id, the command line is the fresh-session one
/// with `--resume` and the id inserted right after the fixed leading
/// arguments; the fresh-session line itself never asks to resume there.
pub proof fn law_session_is_resumed(
    bin: Seq<char>,
    safe_tools: Seq<Seq<char>>,
    full_tools: Seq<Seq<char>>,
    sid: Seq<char>,
    tool_mode: Seq<char>,
    seed_summary: Option<Seq<char>>,
)
    ensures
        ({
            let fresh = engine_args(bin, safe_tools, full_tools, None, tool_mode, seed_summary);
            let resumed = engine_args(bin, safe_tools, full_tools, Some(sid), tool_mode, seed_summary);
            &&& fresh.len() >= 8
            &&& resumed.len() == fresh.len() + 2
            &&& resumed[8] == "--resume"@
            &&& resumed[9] == sid
            &&& resumed.take(8) == fresh.take(8)
            &&& resumed.skip(10) == fresh.skip(8)
            &&& fresh.len() > 8 ==> fresh[8] != "--resume"@
        }),
{
    let fresh = engine_args(bin, safe_tools, full_tools, None, tool_mode, seed_summary);
    let resumed = engine_args(bin, safe_tools, full_tools, Some(sid), tool_mode, seed_summary);
    let seed = match seed_summary {
        Some(s) => seq!["--append-system-prompt"@, summary_prompt(s)],
        None => Seq::empty(),
    };
    let tools = nonempty_only(if tool_mode == "full"@ { full_tools } else { safe_tools });
    let allowed = if tools.len() > 0 {
        seq!["--allowedTools"@, join_with(tools, ","@)]
    } else {
        Seq::empty()
    };
    assert(fresh =~= base_args(bin) + seed + allowed);
    assert(resumed =~= base_args(bin) + seq!["--resume"@, sid] + seed + allowed);
    assert(resumed.take(8) =~= fresh.take(8));
    assert(resumed.skip(10) =~= fresh.skip(8));
    if fresh.len() > 8 {
        reveal_strlit("--resume");
        reveal_strlit("--append-system-prompt");
        reveal_strlit("--allowedTools");
        if seed_summary is Some {
            assert(fresh[8] == "--append-system-prompt"@);
            assert("--resume"@.len() != "--append-system-prompt"@.len());
        } else {
            assert(fresh[8] == "--allowedTools"@);
            assert("--resume"@.len() != "--allowedTools"@.len());
        }
    }
}

/// Tool modes: `full` grants the full tool list exactly as any other mode
/// grants the safe one (swapping the two lists swaps the modes), and all
/// modes other than `full` give the same command line.
pub proof fn law_tool_mode_selects_list(
    bin: Seq<char>,
    safe_tools: Seq<Seq<char>>,
    full_tools: Seq<Seq<char>>,
    session_id: Option<Seq<char>>,
    mode: Seq<char>,
    other_mode: Seq<char>,
    seed_summary: Option<Seq<char>>,
)
    requires
        mode != "full"@,
        other_mode != "full"@,
    ensures
        engine_args(bin, safe_tools, full_tools, session_id, "full"@, seed_summary) == engine_args(
            bin,
            full_tools,
            safe_tools,
            session_id,
            mode,
            seed_summary,
        ),
        engine_args(bin, safe_tools, full_tools, session_id, mode, seed_summary) == engine_args(
            bin,
            safe_tools,
            full_tools,
            session_id,
            other_mode,
            seed_summary,
        ),
{
}

fn push_arg(args: &mut Vec<String>, s: &str)
    ensures
        final(args)@.map_values(|a: String| a@) == old(args)@.map_values(|a: String| a@).push(s@),
{
    let ghost before = args@.map_values(|a: String| a@);
    args.push(s.to_string());
    assert(args@.map_values(|a: String| a@) =~= before.push(s@));
}

/// Build the engine command for subprocess execution: the prompt is piped
/// through stdin; `full` tool mode selects the full tool list, any other
/// mode the safe one.
pub fn build_engine_command(
    engine_bin: &str,
    safe_tools: &Vec<String>,
    full_tools: &Vec<String>,
    prompt: &str,
    session_id: Option<&str>,
    tool_mode: &str,
    seed_summary: Option<&str>,
) -> (cmd: EngineCommand)
    ensures
        cmd.args@.map_values(|a: String| a@) == engine_args(
            engine_bin@,
            safe_tools@.map_values(|t: String| t@),
            full_tools@.map_values(|t: String| t@),
            match session_id {
                Some(s) => Some(s@),
                None => None,
            },
            tool_mode@,
            match seed_summary {
                Some(s) => Some(s@),
                None => None,
            },
        ),
        cmd.effective_prompt@ == prompt@,
        cmd.pipe_stdin,
{
    let mut args: Vec<String> = Vec::new();
    push_arg(&mut args, engine_bin);
    push_arg(&mut args, "-p");
    push_arg(&mut args, "-");
    push_arg(&mut args, "--output-format");
    push_arg(&mut args, "stream-json");
    push_arg(&mut args, "--verbose");
    push_arg(&mut args, "--include-partial-messages");
    push_arg(&mut args, "--dangerously-skip-permissions");
    let ghost a0 = args@.map_values(|a: String| a@);
    assert(a0 =~= base_args(engine_bin@));
    match session_id {
        Some(sid) => {
            push_arg(&mut args, "--resume");
            push_arg(&mut args, sid);
        },
        None => {},
    }
    let ghost a1 = args@.map_values(|a: String| a@);
    match seed_summary {
        Some(summary) => {
            let cut = take_chars(summary, 4000);
            let mut text = "Persisted thread summary:\n".to_string();
            push_str(&mut text, cut.as_str());
            push_str(&mut text, "\nTreat this as trusted memory and continue from it.");
            push_arg(&mut args, "--append-system-prompt");
            push_arg(&mut args, text.as_str());
        },
        None => {},
    }
    let ghost a2 = args@.map_values(|a: String| a@);
    let allowed = if str_eq(tool_mode, "full") {
        full_tools
    } else {
        safe_tools
    };
    let joined = join_nonempty(allowed, ",");
    let ghost tools = nonempty_only(allowed@.map_values(|t: String| t@));
    if !joined.as_str().is_empty() {
        push_arg(&mut args, "--allowedTools");
        push_arg(&mut args, joined.as_str());
    } else {
        assert(tools.len() == 0);
    }
    EngineCommand { args, effective_prompt: prompt.to_string(), pipe_stdin: true }
}

} // verus!

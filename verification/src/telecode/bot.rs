//! Message helpers of the bridge: Telegram length limits, escaping, the
//! text of run progress and results, and how a finished run is judged.

use vstd::prelude::*;
use crate::nitro::types::RunStatus;
use crate::text::{
    chars_of, decimal, decimal_int, find, find_in, html_escaped,
    is_whitespace, is_ws, join_all, join_with, push_char, push_decimal, push_decimal_i64,
    push_escaped, push_str, str_eq, string_of, trim, trim_bounds,
};

verus! {

/// Messages longer than this many characters are cut.
pub const TELEGRAM_SAFE_LEN: usize = 4000;

/// What `truncate_for_telegram` returns: the text itself when it has at
/// most 4000 characters, else its first 4000 characters followed by
/// `...(truncated)`.
pub open spec fn truncated_text(text: Seq<char>) -> Seq<char> {
    if text.len() <= 4000 {
        text
    } else {
        text.take(4000) + "...(truncated)"@
    }
}

/// Whatever the text, the message sent stays within Telegram's limit of
/// 4096 characters: a cut text keeps 4000 characters and a marker of 14.
pub proof fn law_truncated_fits_telegram(text: Seq<char>)
    ensures
        truncated_text(text).len() <= 4014,
        truncated_text(text).len() <= 4096,
{
    reveal_strlit("...(truncated)");
}

/// Telegram message limit is 4096 chars. Leave room for safety.
pub fn truncate_for_telegram(text: &str) -> (r: String)
    ensures
        r@ == truncated_text(text@),
{
    let v = chars_of(text);
    if v.len() <= TELEGRAM_SAFE_LEN {
        return text.to_string();
    }
    let mut r = string_of(&v, 0, TELEGRAM_SAFE_LEN);
    push_str(&mut r, "...(truncated)");
    assert(v@.subrange(0, 4000) =~= text@.take(4000));
    r
}

/// The variables that mark a process as running inside the engine; a child
/// engine started with them refuses to run nested.
pub open spec fn is_nesting_var(key: Seq<char>) -> bool {
    ||| key == "CLAUDECODE"@
    ||| key == "CLAUDE_CODE_ENTRYPOINT"@
    ||| key == "CLAUDE_CODE_EXPERIMENTAL_AGENT_TEAMS"@
}

/// Environment pairs taken by their text.
pub open spec fn env_pairs(vars: Seq<(String, String)>) -> Seq<(Seq<char>, Seq<char>)> {
    vars.map_values(|p: (String, String)| (p.0@, p.1@))
}

/// The pairs of `vars` whose key is not a nesting marker, in order.
pub open spec fn without_nesting_vars(vars: Seq<(Seq<char>, Seq<char>)>) -> Seq<
    (Seq<char>, Seq<char>),
>
    decreases vars.len(),
{
    if vars.len() == 0 {
        Seq::empty()
    } else if is_nesting_var(vars.last().0) {
        without_nesting_vars(vars.drop_last())
    } else {
        without_nesting_vars(vars.drop_last()).push(vars.last())
    }
}

/// The environment the engine is started with: the parent's variables
/// without the nesting markers, so that a bot run from inside an engine
/// session can still start engines of its own.
pub fn engine_env(vars: &Vec<(String, String)>) -> (r: Vec<(String, String)>)
    ensures
        env_pairs(r@) == without_nesting_vars(env_pairs(vars@)),
{
    let mut r: Vec<(String, String)> = Vec::new();
    let mut i: usize = 0;
    assert(env_pairs(vars@.take(0)) =~= Seq::<(Seq<char>, Seq<char>)>::empty());
    while i < vars.len()
        invariant
            i <= vars.len(),
            env_pairs(r@) == without_nesting_vars(env_pairs(vars@.take(i as int))),
        decreases vars.len() - i,
    {
        let key = vars[i].0.as_str();
        let nested = str_eq(key, "CLAUDECODE") || str_eq(key, "CLAUDE_CODE_ENTRYPOINT") || str_eq(
            key,
            "CLAUDE_CODE_EXPERIMENTAL_AGENT_TEAMS",
        );
        proof {
            let ghost next = env_pairs(vars@.take(i + 1));
            assert(next.drop_last() =~= env_pairs(vars@.take(i as int)));
            assert(next.last() == (vars@[i as int].0@, vars@[i as int].1@));
        }
        if !nested {
            let ghost before = r@;
            r.push((vars[i].0.clone(), vars[i].1.clone()));
            assert(env_pairs(r@) =~= env_pairs(before).push(
                (vars@[i as int].0@, vars@[i as int].1@),
            ));
        }
        i = i + 1;
    }
    assert(vars@.take(vars@.len() as int) =~= vars@);
    r
}

/// Escape `&`, `<`, `>` and `"` for Telegram HTML.
pub fn html_escape(s: &str) -> (r: String)
    ensures
        r@ == html_escaped(s@),
{
    crate::nitro::format::html_escape(s)
}

/// `s` with every `'` replaced by `'\''`.
pub open spec fn quote_escaped(s: Seq<char>) -> Seq<char>
    decreases s.len(),
{
    if s.len() == 0 {
        Seq::empty()
    } else {
        quote_escaped(s.drop_last()) + if s.last() == '\'' {
            "'\\''"@
        } else {
            seq![s.last()]
        }
    }
}

/// Whether `s` needs quoting for a shell: it holds whitespace or a quote.
pub open spec fn needs_quoting(s: Seq<char>) -> bool {
    exists|i: int| 0 <= i < s.len() && (is_ws(#[trigger] s[i]) || s[i] == '\'' || s[i] == '"')
}

/// Quote an argument for the log's command line.
pub fn shell_escape(s: &str) -> (r: String)
    ensures
        r@ == if needs_quoting(s@) {
            "'"@ + quote_escaped(s@) + "'"@
        } else {
            s@
        },
{
    let v = chars_of(s);
    let mut needs = false;
    let mut i: usize = 0;
    while i < v.len()
        invariant
            i <= v.len(),
            v@ == s@,
            needs == exists|k: int|
                0 <= k < i && (is_ws(#[trigger] v@[k]) || v@[k] == '\'' || v@[k] == '"'),
        decreases v.len() - i,
    {
        let c = v[i];
        if is_whitespace(c) || c == '\'' || c == '"' {
            needs = true;
        }
        i = i + 1;
    }
    if !needs {
        return s.to_string();
    }
    let mut r = String::new();
    push_str(&mut r, "'");
    let ghost start = r@;
    let mut j: usize = 0;
    while j < v.len()
        invariant
            j <= v.len(),
            r@ == start + quote_escaped(v@.take(j as int)),
        decreases v.len() - j,
    {
        assert(v@.take(j + 1).drop_last() =~= v@.take(j as int));
        assert(v@.take(j + 1).last() == v@[j as int]);
        if v[j] == '\'' {
            push_str(&mut r, "'\\''");
        } else {
            push_char(&mut r, v[j]);
        }
        j = j + 1;
        assert(r@ =~= start + quote_escaped(v@.take(j as int)));
    }
    push_str(&mut r, "'");
    assert(v@.take(v@.len() as int) =~= s@);
    r
}

/// A single argument as the command line in the run log shows it.
pub open spec fn shell_word(s: Seq<char>) -> Seq<char> {
    if needs_quoting(s) {
        "'"@ + quote_escaped(s) + "'"@
    } else {
        s
    }
}

/// The first line of a run log: `$ ` and the arguments, each quoted for a
/// shell where needed, separated by spaces.
pub fn command_log_line(args: &Vec<String>) -> (r: String)
    ensures
        r@ == "$ "@ + join_with(Seq::new(args@.len(), |i: int| shell_word(args@[i]@)), " "@),
{
    let mut words: Vec<String> = Vec::new();
    let mut i: usize = 0;
    while i < args.len()
        invariant
            i <= args.len(),
            words@.len() == i,
            forall|j: int| 0 <= j < i ==> #[trigger] words@[j]@ == shell_word(args@[j]@),
        decreases args.len() - i,
    {
        words.push(shell_escape(args[i].as_str()));
        i = i + 1;
    }
    assert(words@.map_values(|w: String| w@) =~= Seq::new(
        args@.len(),
        |i: int| shell_word(args@[i]@),
    ));
    let mut r = "$ ".to_string();
    let joined = join_all(&words, " ");
    push_str(&mut r, joined.as_str());
    r
}

/// How a finished run is judged: a timeout fails it, then a cancellation
/// cancels it, then exit code 0 makes it succeed and any other fails it.
/// The second part is the note appended to the run's output.
pub open spec fn run_outcome(timed_out: bool, cancelled: bool, exit_code: int) -> (RunStatus, Seq<char>) {
    if timed_out {
        (RunStatus::Failed, "\n[timeout] Max runtime exceeded.\n"@)
    } else if cancelled {
        (RunStatus::Canceled, "\n[canceled] Canceled by user.\n"@)
    } else if exit_code == 0 {
        (RunStatus::Succeeded, Seq::empty())
    } else {
        (RunStatus::Failed, "\n[exit-code] "@ + decimal_int(exit_code) + "\n"@)
    }
}

/// Judges a finished run (see [`run_outcome`]).
pub fn judge_run(timed_out: bool, cancelled: bool, exit_code: i32) -> (r: (RunStatus, String))
    ensures
        (r.0, r.1@) == run_outcome(timed_out, cancelled, exit_code as int),
{
    if timed_out {
        (RunStatus::Failed, "\n[timeout] Max runtime exceeded.\n".to_string())
    } else if cancelled {
        (RunStatus::Canceled, "\n[canceled] Canceled by user.\n".to_string())
    } else if exit_code == 0 {
        (RunStatus::Succeeded, String::new())
    } else {
        let mut note = "\n[exit-code] ".to_string();
        push_decimal_i64(&mut note, exit_code as i64);
        push_str(&mut note, "\n");
        (RunStatus::Failed, note)
    }
}

/// The note the captured stderr adds to a run's output.
pub fn stderr_note(stderr_text: &str) -> (r: String)
    ensures
        r@ == "\n[stderr] "@ + stderr_text@ + "\n"@,
{
    let mut r = "\n[stderr] ".to_string();
    push_str(&mut r, stderr_text);
    push_str(&mut r, "\n");
    r
}

/// Trimmed `s`, or `fallback` when that is empty.
pub open spec fn trimmed_or(s: Seq<char>, fallback: Seq<char>) -> Seq<char> {
    if trim(s).len() > 0 {
        trim(s)
    } else {
        fallback
    }
}

fn trimmed_or_exec(s: &str, fallback: &str) -> (r: String)
    ensures
        r@ == trimmed_or(s@, fallback@),
{
    let v = chars_of(s);
    let (a, b) = trim_bounds(&v, 0, v.len());
    assert(v@.subrange(0, v@.len() as int) =~= s@);
    if a == b {
        fallback.to_string()
    } else {
        string_of(&v, a, b)
    }
}

/// The output a run reports: its trimmed rolling output, or `(no output)`.
pub fn output_tail(rolling: &str) -> (r: String)
    ensures
        r@ == trimmed_or(rolling@, "(no output)"@),
{
    trimmed_or_exec(rolling, "(no output)")
}

/// The progress message edited in while a run streams.
pub open spec fn running_text(run_id: int, elapsed: nat, rolling: Seq<char>) -> Seq<char> {
    "\u{23f3} <b>Running</b>  \u{b7}  #"@ + decimal_int(run_id) + "  \u{b7}  "@ + decimal(elapsed)
        + "s\n\n<pre>"@ + html_escaped(trimmed_or(rolling, "(waiting...)"@)) + "</pre>"@
}

/// The progress message for a run (before truncation for Telegram).
pub fn running_html(run_id: i64, elapsed_secs: u64, rolling: &str) -> (r: String)
    ensures
        r@ == running_text(run_id as int, elapsed_secs as nat, rolling@),
{
    let display = trimmed_or_exec(rolling, "(waiting...)");
    let mut r = "\u{23f3} <b>Running</b>  \u{b7}  #".to_string();
    push_decimal_i64(&mut r, run_id);
    push_str(&mut r, "  \u{b7}  ");
    push_decimal(&mut r, elapsed_secs);
    push_str(&mut r, "s\n\n<pre>");
    let d = chars_of(display.as_str());
    push_escaped(&mut r, &d, 0, d.len());
    assert(d@.subrange(0, d@.len() as int) =~= display@);
    push_str(&mut r, "</pre>");
    r
}

/// The session id shown for a finished run: the one it reported, else the
/// thread's active one, else a dash.
pub fn session_display<'a>(reported: Option<&'a str>, active: Option<&'a str>) -> (r: &'a str)
    ensures
        r@ == match reported {
            Some(s) => s@,
            None => match active {
                Some(a) => a@,
                None => "\u{2014}"@,
            },
        },
{
    match reported {
        Some(s) => s,
        None => match active {
            Some(a) => a,
            None => "\u{2014}",
        },
    }
}

/// The result card of a finished run.
pub open spec fn result_text(status: RunStatus, run_id: int, session: Seq<char>, body: Seq<char>) -> Seq<char> {
    let (icon, label) = match status {
        RunStatus::Succeeded => ("\u{2705}"@, "Done"@),
        RunStatus::Failed => ("\u{274c}"@, "Failed"@),
        RunStatus::Canceled => ("\u{23f9}"@, "Canceled"@),
    };
    icon + " <b>"@ + label + "</b>  \u{b7}  #"@ + decimal_int(run_id) + "\n<code>"@ + html_escaped(
        session,
    ) + "</code>\n\n<pre>"@ + html_escaped(body) + "</pre>"@
}

/// The result card of a finished run (before truncation for Telegram).
pub fn result_html(status: RunStatus, run_id: i64, session: &str, body: &str) -> (r: String)
    ensures
        r@ == result_text(status, run_id as int, session@, body@),
{
    let mut r = status.icon().to_string();
    push_str(&mut r, " <b>");
    push_str(&mut r, status.label());
    push_str(&mut r, "</b>  \u{b7}  #");
    push_decimal_i64(&mut r, run_id);
    push_str(&mut r, "\n<code>");
    let sv = chars_of(session);
    push_escaped(&mut r, &sv, 0, sv.len());
    assert(sv@.subrange(0, sv@.len() as int) =~= session@);
    push_str(&mut r, "</code>\n\n<pre>");
    let bv = chars_of(body);
    push_escaped(&mut r, &bv, 0, bv.len());
    assert(bv@.subrange(0, bv@.len() as int) =~= body@);
    push_str(&mut r, "</pre>");
    r
}

/// The summary a new session is seeded with: the stored compact summary,
/// but only when no session is active.
pub fn seed_summary<'a>(active_session: Option<&'a str>, compact_summary: Option<&'a str>) -> (r: Option<&'a str>)
    ensures
        r == if active_session is None {
            compact_summary
        } else {
            None
        },
{
    if active_session.is_none() {
        compact_summary
    } else {
        None
    }
}

/// Whether an edit error only says the message was not modified (which is
/// not a failure). `lowered` is the error text in lowercase.
pub fn is_not_modified(lowered: &str) -> (b: bool)
    ensures
        b == (find(lowered@, "message is not modified"@) >= 0),
{
    let v = chars_of(lowered);
    let p = chars_of("message is not modified");
    assert(v@.subrange(0, v@.len() as int) =~= lowered@);
    find_in(&v, 0, v.len(), &p).is_some()
}

/// Reply to an unknown command.
pub fn unknown_command_html(name: &str) -> (r: String)
    ensures
        r@ == "Unknown: <code>/"@ + html_escaped(name@) + "</code>\nType /help for commands."@,
{
    let mut r = "Unknown: <code>/".to_string();
    let nv = chars_of(name);
    push_escaped(&mut r, &nv, 0, nv.len());
    assert(nv@.subrange(0, nv@.len() as int) =~= name@);
    push_str(&mut r, "</code>\nType /help for commands.");
    r
}

/// The card shown when compaction failed, with the run's output.
pub fn compact_failed_html(output: &str) -> (r: String)
    ensures
        r@ == "\u{274c} <b>Compact failed</b>\n\n<pre>"@ + html_escaped(output@) + "</pre>"@,
{
    let mut r = "\u{274c} <b>Compact failed</b>\n\n<pre>".to_string();
    let ov = chars_of(output);
    push_escaped(&mut r, &ov, 0, ov.len());
    assert(ov@.subrange(0, ov@.len() as int) =~= output@);
    push_str(&mut r, "</pre>");
    r
}

/// The card shown when compaction stored a summary of `summary_bytes` bytes
/// and seeded `session` (or none yet).
pub fn compacted_html(summary_bytes: usize, session: Option<&str>) -> (r: String)
    ensures
        r@ == "\u{2705} <b>Compacted</b>\n\nMemory: "@ + decimal(summary_bytes as nat)
            + " chars stored\nSession: <code>"@ + html_escaped(
            match session {
                Some(s) => s@,
                None => "next message"@,
            },
        ) + "</code>"@,
{
    let mut r = "\u{2705} <b>Compacted</b>\n\nMemory: ".to_string();
    push_decimal(&mut r, summary_bytes as u64);
    push_str(&mut r, " chars stored\nSession: <code>");
    let s = match session {
        Some(s) => s,
        None => "next message",
    };
    let sv = chars_of(s);
    push_escaped(&mut r, &sv, 0, sv.len());
    assert(sv@.subrange(0, sv@.len() as int) =~= s@);
    push_str(&mut r, "</code>");
    r
}


/// The instruction the engine gets to summarise a session for compaction.
pub fn compaction_prompt() -> (r: &'static str)
    ensures
        r@ == "Create a strict JSON summary for session compaction.\nReturn JSON object with keys: decisions, current_state, file_changes, next_steps, constraints.\nKeep it concise and factual."@,
{
    "Create a strict JSON summary for session compaction.\nReturn JSON object with keys: decisions, current_state, file_changes, next_steps, constraints.\nKeep it concise and factual."
}

/// The prompt that seeds a fresh session with a stored summary.
pub fn memory_seed_prompt() -> (r: &'static str)
    ensures
        r@ == "Memory loaded. Reply exactly MEMORY_READY."@,
{
    "Memory loaded. Reply exactly MEMORY_READY."
}

/// What a compaction run yields: the trimmed summary to store when the run
/// succeeded with some output, else the card that reports the failure. A
/// run that printed nothing reaches here as the `(no output)` placeholder,
/// which counts as no summary.
pub open spec fn compaction_outcome(status: RunStatus, output: Seq<char>) -> Result<
    Seq<char>,
    Seq<char>,
> {
    if status != RunStatus::Succeeded {
        Err(
            truncated_text(
                "\u{274c} <b>Compact failed</b>\n\n<pre>"@ + html_escaped(output) + "</pre>"@,
            ),
        )
    } else if trim(output).len() == 0 || trim(output) == "(no output)"@ {
        Err("\u{274c} <b>Compact failed</b>\nNo summary produced."@)
    } else {
        Ok(trim(output))
    }
}

/// Judges a compaction run (see [`compaction_outcome`]).
pub fn compaction_result(status: RunStatus, output: &str) -> (r: Result<String, String>)
    ensures
        match r {
            Ok(s) => compaction_outcome(status, output@) == Ok::<Seq<char>, Seq<char>>(s@),
            Err(e) => compaction_outcome(status, output@) == Err::<Seq<char>, Seq<char>>(e@),
        },
{
    match status {
        RunStatus::Succeeded => {},
        _ => {
            let card = compact_failed_html(output);
            return Err(truncate_for_telegram(card.as_str()));
        },
    }
    let v = chars_of(output);
    let (a, b) = trim_bounds(&v, 0, v.len());
    assert(v@.subrange(0, v@.len() as int) =~= output@);
    let summary = string_of(&v, a, b);
    if a == b || str_eq(summary.as_str(), "(no output)") {
        Err("\u{274c} <b>Compact failed</b>\nNo summary produced.".to_string())
    } else {
        Ok(summary)
    }
}

} // verus!

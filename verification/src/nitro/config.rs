//! Configuration values: reading settings out of environment values, tool
//! lists, and choosing helper binaries from what the file system shows.

use vstd::prelude::*;
use std::collections::HashSet;
use crate::text::{
    chars_of, lowercase, parse_u64_in, parse_u64_spec, bounds_within, piece_bounds, pieces_of, push_str, split_pieces,
    str_eq, string_of, to_lowercase, trim, trim_bounds,
};
use crate::nitro::multi::{id_set_u64, id_set_i64, parse_id_list_i64, parse_id_list_u64};

verus! {

/// The non-empty trimmed pieces of `ps`, in order.
pub open spec fn nonempty_trimmed(ps: Seq<Seq<char>>) -> Seq<Seq<char>>
    decreases ps.len(),
{
    if ps.len() == 0 {
        Seq::empty()
    } else if trim(ps.last()).len() > 0 {
        nonempty_trimmed(ps.drop_last()).push(trim(ps.last()))
    } else {
        nonempty_trimmed(ps.drop_last())
    }
}

/// The entries of a comma-separated tool list, trimmed, empty ones dropped.
pub open spec fn tool_list(value: Seq<char>) -> Seq<Seq<char>> {
    nonempty_trimmed(split_pieces(value, ','))
}

/// Split a comma-separated tool list into its non-empty trimmed entries.
pub fn parse_tool_list(value: &str) -> (tools: Vec<String>)
    ensures
        tools@.map_values(|t: String| t@) == tool_list(value@),
{
    let v = chars_of(value);
    let bounds = piece_bounds(&v, ',');
    let ghost ps = split_pieces(v@, ',');
    let mut tools: Vec<String> = Vec::new();
    let mut j: usize = 0;
    while j < bounds.len()
        invariant
            j <= bounds.len(),
            bounds@.len() == ps.len(),
            ps == split_pieces(v@, ','),
            bounds_within(v@, bounds@),
            pieces_of(v@, bounds@) == ps,
            tools@.map_values(|t: String| t@) == nonempty_trimmed(ps.take(j as int)),
        decreases bounds.len() - j,
    {
        let (s, e) = bounds[j];
        proof {
            assert(pieces_of(v@, bounds@)[j as int] == v@.subrange(s as int, e as int));
        }
        let (a, b) = trim_bounds(&v, s, e);
        proof {
            assert(ps.take(j + 1).drop_last() =~= ps.take(j as int));
            assert(ps.take(j + 1).last() == ps[j as int]);
        }
        if a < b {
            let ghost before = tools@.map_values(|t: String| t@);
            tools.push(string_of(&v, a, b));
            assert(tools@.map_values(|t: String| t@) =~= before.push(trim(ps[j as int])));
        }
        j = j + 1;
    }
    assert(ps.take(ps.len() as int) =~= ps);
    assert(v@ == value@);
    tools
}

/// The value an environment lookup yields: the trimmed raw value, or the
/// default when the variable is unset or blank.
pub open spec fn value_or_default(raw: Option<Seq<char>>, default: Seq<char>) -> Seq<char> {
    match raw {
        Some(v) => if trim(v).len() > 0 {
            trim(v)
        } else {
            default
        },
        None => default,
    }
}

/// Trimmed text of `s`.
fn trimmed(s: &str) -> (r: String)
    ensures
        r@ == trim(s@),
{
    let v = chars_of(s);
    let (a, b) = trim_bounds(&v, 0, v.len());
    assert(v@.subrange(0, v@.len() as int) =~= s@);
    string_of(&v, a, b)
}

/// The value of an optional environment variable given its raw value.
pub fn env_value_or(raw: Option<&str>, default: &str) -> (r: String)
    ensures
        r@ == value_or_default(
            match raw {
                Some(v) => Some(v@),
                None => None,
            },
            default@,
        ),
{
    match raw {
        Some(v) => {
            let t = trimmed(v);
            if t.as_str().is_empty() {
                default.to_string()
            } else {
                t
            }
        },
        None => default.to_string(),
    }
}

/// The value of a required environment variable given its raw value: the
/// trimmed value, or `"{key} is required"` when unset or blank.
pub fn required_env_value(key: &str, raw: Option<&str>) -> (r: Result<String, String>)
    ensures
        match raw {
            Some(v) if trim(v@).len() > 0 => r is Ok && r->Ok_0@ == trim(v@),
            _ => r is Err && r->Err_0@ == key@ + " is required"@,
        },
{
    let mut msg = key.to_string();
    push_str(&mut msg, " is required");
    match raw {
        Some(v) => {
            let t = trimmed(v);
            if t.as_str().is_empty() {
                Err(msg)
            } else {
                Ok(t)
            }
        },
        None => Err(msg),
    }
}

/// A snapshot of the process environment: `(name, value)` pairs.
pub open spec fn env_get(vars: Seq<(String, String)>, key: Seq<char>) -> Option<Seq<char>>
    decreases vars.len(),
{
    if vars.len() == 0 {
        None
    } else if vars[0].0@ == key {
        Some(vars[0].1@)
    } else {
        env_get(vars.drop_first(), key)
    }
}

/// Looks `key` up in an environment snapshot.
pub fn env_lookup<'a>(vars: &'a Vec<(String, String)>, key: &str) -> (r: Option<&'a str>)
    ensures
        match r {
            Some(v) => env_get(vars@, key@) == Some(v@),
            None => env_get(vars@, key@) is None,
        },
{
    let mut i: usize = 0;
    assert(vars@.skip(0) =~= vars@);
    while i < vars.len()
        invariant
            i <= vars.len(),
            env_get(vars@, key@) == env_get(vars@.skip(i as int), key@),
        decreases vars.len() - i,
    {
        assert(vars@.skip(i as int)[0] == vars@[i as int]);
        assert(vars@.skip(i as int).drop_first() =~= vars@.skip(i + 1));
        if str_eq(vars[i].0.as_str(), key) {
            return Some(vars[i].1.as_str());
        }
        i = i + 1;
    }
    None
}

/// A number setting: the parsed value, or the default when it does not
/// parse (`value.parse().unwrap_or(default)`), capped at `limit`.
pub open spec fn number_or(value: Seq<char>, default: nat, limit: nat) -> nat {
    match parse_u64_spec(value) {
        Some(n) if n <= limit => n,
        _ => default,
    }
}

/// Parses a number setting, falling back to `default` when it does not
/// parse or exceeds `limit` (the range of the setting's type).
pub fn parse_number_or(value: &str, default: u64, limit: u64) -> (n: u64)
    ensures
        n == number_or(value@, default as nat, limit as nat),
{
    let v = chars_of(value);
    assert(v@.subrange(0, v@.len() as int) =~= value@);
    match parse_u64_in(&v, 0, v.len()) {
        Some(n) => if n <= limit {
            n
        } else {
            default
        },
        None => default,
    }
}

/// Settings read from the environment (everything but paths and the stream
/// edit interval).
pub struct EnvSettings {
    pub telegram_bot_token: String,
    pub allowed_user_ids: HashSet<u64>,
    pub allowed_group_ids: HashSet<i64>,
    pub bot_to_bot_max_turns: u32,
    pub default_engine: String,
    pub default_tool_mode: String,
    pub poll_timeout_seconds: u64,
    pub max_runtime_seconds: u64,
    pub max_output_chars: usize,
    pub safe_allowed_tools: Vec<String>,
    pub full_allowed_tools: Vec<String>,
    pub sst_language: String,
    pub sst_arch: String,
}

/// The environment value of `key` with `default` (see [`value_or_default`]).
pub open spec fn env_or_spec(vars: Seq<(String, String)>, key: Seq<char>, default: Seq<char>) -> Seq<char> {
    value_or_default(env_get(vars, key), default)
}

/// Why the environment `vars` does not configure a bot, if it does not:
/// token and user ids are required, at least one user id must parse, the
/// engine must be `supported`, and the tool mode `safe` or `full`.
pub open spec fn env_error(vars: Seq<(String, String)>, supported: Seq<char>) -> Option<Seq<char>> {
    let token = env_get(vars, "TELEGRAM_BOT_TOKEN"@);
    let ids = env_get(vars, "ALLOWED_TELEGRAM_USER_IDS"@);
    if !(token matches Some(t) && trim(t).len() > 0) {
        Some("TELEGRAM_BOT_TOKEN"@ + " is required"@)
    } else if !(ids matches Some(i) && trim(i).len() > 0) {
        Some("ALLOWED_TELEGRAM_USER_IDS"@ + " is required"@)
    } else if id_set_u64(trim(ids->Some_0)).is_empty() {
        Some("ALLOWED_TELEGRAM_USER_IDS must contain at least one valid ID"@)
    } else if lowercase(env_or_spec(vars, "DEFAULT_ENGINE"@, supported)) != supported {
        Some("DEFAULT_ENGINE must be "@ + supported + " (only engine supported in Rust bot)"@)
    } else if lowercase(env_or_spec(vars, "DEFAULT_TOOL_MODE"@, "safe"@)) != "safe"@ && lowercase(
        env_or_spec(vars, "DEFAULT_TOOL_MODE"@, "safe"@),
    ) != "full"@ {
        Some("DEFAULT_TOOL_MODE must be safe or full"@)
    } else {
        None
    }
}

/// Reads the bot settings out of an environment snapshot. `supported` is
/// the one engine the bot can drive; it is also the engine's default.
pub fn settings_from_env(vars: &Vec<(String, String)>, supported: &str) -> (r: Result<
    EnvSettings,
    String,
>)
    ensures
        match r {
            Err(e) => env_error(vars@, supported@) == Some(e@),
            Ok(s) => {
                &&& env_error(vars@, supported@) is None
                &&& s.telegram_bot_token@ == trim(env_get(vars@, "TELEGRAM_BOT_TOKEN"@)->Some_0)
                &&& s.allowed_user_ids@ == id_set_u64(
                    trim(env_get(vars@, "ALLOWED_TELEGRAM_USER_IDS"@)->Some_0),
                )
                &&& s.allowed_group_ids@ == id_set_i64(
                    env_or_spec(vars@, "ALLOWED_GROUP_IDS"@, ""@),
                )
                &&& s.bot_to_bot_max_turns == number_or(
                    env_or_spec(vars@, "BOT_TO_BOT_MAX_TURNS"@, "0"@),
                    0,
                    u32::MAX as nat,
                )
                &&& s.default_engine@ == supported@
                &&& s.default_tool_mode@ == lowercase(
                    env_or_spec(vars@, "DEFAULT_TOOL_MODE"@, "safe"@),
                )
                &&& s.poll_timeout_seconds == number_or(
                    env_or_spec(vars@, "POLL_TIMEOUT_SECONDS"@, "25"@),
                    25,
                    u64::MAX as nat,
                )
                &&& s.max_runtime_seconds == number_or(
                    env_or_spec(vars@, "MAX_RUNTIME_SECONDS"@, "1200"@),
                    1200,
                    u64::MAX as nat,
                )
                &&& s.max_output_chars == number_or(
                    env_or_spec(vars@, "MAX_OUTPUT_CHARS"@, "3500"@),
                    3500,
                    usize::MAX as nat,
                )
                &&& s.safe_allowed_tools@.map_values(|t: String| t@) == tool_list(
                    env_or_spec(vars@, "CLAUDE_SAFE_ALLOWED_TOOLS"@, "Read,Edit,Bash"@),
                )
                &&& s.full_allowed_tools@.map_values(|t: String| t@) == tool_list(
                    env_or_spec(vars@, "CLAUDE_FULL_ALLOWED_TOOLS"@, ""@),
                )
                &&& s.sst_language@ == env_or_spec(vars@, "SST_LANGUAGE"@, "es"@)
                &&& s.sst_arch@ == env_or_spec(vars@, "SST_ARCH"@, "base"@)
            },
        },
{
    let token = match required_env_value("TELEGRAM_BOT_TOKEN", env_lookup(vars, "TELEGRAM_BOT_TOKEN")) {
        Ok(t) => t,
        Err(e) => {
            return Err(e);
        },
    };
    let raw_ids = match required_env_value(
        "ALLOWED_TELEGRAM_USER_IDS",
        env_lookup(vars, "ALLOWED_TELEGRAM_USER_IDS"),
    ) {
        Ok(t) => t,
        Err(e) => {
            return Err(e);
        },
    };
    let allowed_user_ids = parse_id_list_u64(raw_ids.as_str());
    if allowed_user_ids.is_empty() {
        return Err("ALLOWED_TELEGRAM_USER_IDS must contain at least one valid ID".to_string());
    }
    let groups_raw = env_value_or(env_lookup(vars, "ALLOWED_GROUP_IDS"), "");
    let allowed_group_ids = parse_id_list_i64(groups_raw.as_str());
    let turns_raw = env_value_or(env_lookup(vars, "BOT_TO_BOT_MAX_TURNS"), "0");
    let bot_to_bot_max_turns = parse_number_or(turns_raw.as_str(), 0, u32::MAX as u64) as u32;
    let engine_raw = env_value_or(env_lookup(vars, "DEFAULT_ENGINE"), supported);
    let default_engine = to_lowercase(engine_raw.as_str());
    if !str_eq(default_engine.as_str(), supported) {
        let mut msg = "DEFAULT_ENGINE must be ".to_string();
        push_str(&mut msg, supported);
        push_str(&mut msg, " (only engine supported in Rust bot)");
        return Err(msg);
    }
    let mode_raw = env_value_or(env_lookup(vars, "DEFAULT_TOOL_MODE"), "safe");
    let default_tool_mode = to_lowercase(mode_raw.as_str());
    if !str_eq(default_tool_mode.as_str(), "safe") && !str_eq(default_tool_mode.as_str(), "full") {
        return Err("DEFAULT_TOOL_MODE must be safe or full".to_string());
    }
    let poll_raw = env_value_or(env_lookup(vars, "POLL_TIMEOUT_SECONDS"), "25");
    let runtime_raw = env_value_or(env_lookup(vars, "MAX_RUNTIME_SECONDS"), "1200");
    let output_raw = env_value_or(env_lookup(vars, "MAX_OUTPUT_CHARS"), "3500");
    let safe_raw = env_value_or(env_lookup(vars, "CLAUDE_SAFE_ALLOWED_TOOLS"), "Read,Edit,Bash");
    let full_raw = env_value_or(env_lookup(vars, "CLAUDE_FULL_ALLOWED_TOOLS"), "");
    Ok(EnvSettings {
        telegram_bot_token: token,
        allowed_user_ids,
        allowed_group_ids,
        bot_to_bot_max_turns,
        default_engine,
        default_tool_mode,
        poll_timeout_seconds: parse_number_or(poll_raw.as_str(), 25, u64::MAX),
        max_runtime_seconds: parse_number_or(runtime_raw.as_str(), 1200, u64::MAX),
        max_output_chars: parse_number_or(output_raw.as_str(), 3500, usize::MAX as u64) as usize,
        safe_allowed_tools: parse_tool_list(safe_raw.as_str()),
        full_allowed_tools: parse_tool_list(full_raw.as_str()),
        sst_language: env_value_or(env_lookup(vars, "SST_LANGUAGE"), "es"),
        sst_arch: env_value_or(env_lookup(vars, "SST_ARCH"), "base"),
    })
}

/// Python interpreter for speech-to-text: an explicit `SST_PYTHON` (made
/// absolute when it names an existing file), else the project venv when it
/// exists, else `python3`. `explicit_abs` / `venv_abs` are the absolute
/// forms of the explicit path and of `../.venv/bin/python3` when those exist.
pub fn resolve_sst_python(explicit: &str, explicit_abs: Option<String>, venv_abs: Option<String>) -> (r: String)
    ensures
        explicit@.len() > 0 ==> r@ == match explicit_abs {
            Some(a) => a@,
            None => explicit@,
        },
        explicit@.len() == 0 ==> r@ == match venv_abs {
            Some(a) => a@,
            None => "python3"@,
        },
{
    if !explicit.is_empty() {
        match explicit_abs {
            Some(a) => a,
            None => explicit.to_string(),
        }
    } else {
        match venv_abs {
            Some(a) => a,
            None => "python3".to_string(),
        }
    }
}

/// The speech-to-text script path before it is made absolute: an explicit
/// `SST_SCRIPT`, else `../sst.py`.
pub fn resolve_sst_script(explicit: &str) -> (p: String)
    ensures
        p@ == if explicit@.len() > 0 {
            explicit@
        } else {
            "../sst.py"@
        },
{
    if !explicit.is_empty() {
        explicit.to_string()
    } else {
        "../sst.py".to_string()
    }
}

/// Well-known install locations of the engine binary `name`, in the order
/// they are probed.
pub open spec fn engine_bin_candidate_paths(home: Seq<char>, name: Seq<char>) -> Seq<Seq<char>> {
    seq![
        home + "/.local/bin/"@ + name,
        "/usr/local/bin/"@ + name,
        "/opt/homebrew/bin/"@ + name,
        home + "/.nvm/current/bin/"@ + name,
        home + "/.bun/bin/"@ + name,
    ]
}

/// The install locations to probe for the engine binary.
pub fn engine_bin_candidates(home: &str, name: &str) -> (c: Vec<String>)
    ensures
        c@.map_values(|s: String| s@) == engine_bin_candidate_paths(home@, name@),
{
    let mut c: Vec<String> = Vec::new();
    let mut a = home.to_string();
    push_str(&mut a, "/.local/bin/");
    push_str(&mut a, name);
    c.push(a);
    let mut b = "/usr/local/bin/".to_string();
    push_str(&mut b, name);
    c.push(b);
    let mut d = "/opt/homebrew/bin/".to_string();
    push_str(&mut d, name);
    c.push(d);
    let mut e = home.to_string();
    push_str(&mut e, "/.nvm/current/bin/");
    push_str(&mut e, name);
    c.push(e);
    let mut f = home.to_string();
    push_str(&mut f, "/.bun/bin/");
    push_str(&mut f, name);
    c.push(f);
    assert(c@.map_values(|s: String| s@) =~= engine_bin_candidate_paths(home@, name@));
    c
}

/// The first candidate that exists.
pub open spec fn first_existing(cands: Seq<Seq<char>>, exists: Seq<bool>) -> Option<Seq<char>>
    decreases cands.len(),
{
    if cands.len() == 0 || exists.len() == 0 {
        None
    } else if exists[0] {
        Some(cands[0])
    } else {
        first_existing(cands.drop_first(), exists.drop_first())
    }
}

/// Chooses the engine binary: `name` itself when absolute, else the trimmed
/// output of `which` when that succeeded and is not blank, else the first
/// existing well-known location, else the bare name.
#[verifier::loop_isolation(false)]
pub fn select_engine_bin(
    name: &str,
    name_is_absolute: bool,
    which_output: Option<&str>,
    candidates: &Vec<String>,
    candidate_exists: &Vec<bool>,
) -> (r: String)
    ensures
        name_is_absolute ==> r@ == name@,
        !name_is_absolute ==> r@ == match which_output {
            Some(w) if trim(w@).len() > 0 => trim(w@),
            _ => match first_existing(
                candidates@.map_values(|s: String| s@),
                candidate_exists@,
            ) {
                Some(p) => p,
                None => name@,
            },
        },
{
    if name_is_absolute {
        return name.to_string();
    }
    match which_output {
        Some(w) => {
            let t = trimmed(w);
            if !t.as_str().is_empty() {
                return t;
            }
        },
        None => {},
    }
    let ghost cs = candidates@.map_values(|s: String| s@);
    let mut i: usize = 0;
    assert(cs.skip(0) =~= cs);
    assert(candidate_exists@.skip(0) =~= candidate_exists@);
    while i < candidates.len() && i < candidate_exists.len()
        invariant
            i <= candidates.len(),
            cs == candidates@.map_values(|s: String| s@),
            cs.len() == candidates.len(),
            i <= candidate_exists.len(),
            first_existing(cs, candidate_exists@) == first_existing(
                cs.skip(i as int),
                candidate_exists@.skip(i as int),
            ),
        decreases candidates.len() - i,
    {
        assert(cs.skip(i as int).drop_first() =~= cs.skip(i + 1));
        assert(candidate_exists@.skip(i as int).drop_first() =~= candidate_exists@.skip(i + 1));
        if candidate_exists[i] {
            assert(cs.skip(i as int)[0] == candidates@[i as int]@);
            return candidates[i].clone();
        }
        i = i + 1;
    }
    assert(cs.skip(i as int).len() == 0 || candidate_exists@.skip(i as int).len() == 0);
    name.to_string()
}

} // verus!

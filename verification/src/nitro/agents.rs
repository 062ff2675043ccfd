//! Multi-agent settings from an agents file: each agent entry inherits the
//! shared defaults, `${VAR}` references are taken from the environment, and
//! the data and log paths not given are derived from the agent's name.
//! Reading the file and parsing its TOML stay in the application.

use vstd::prelude::*;
use std::collections::HashSet;
use crate::nitro::config::{env_get, env_lookup, parse_tool_list, tool_list};
use crate::nitro::multi::{
    agent_path, check_agent, env_reference, id_set_i64, id_set_u64, next_env_reference,
    parse_id_list_i64, parse_id_list_u64, substitute_reference,
};
use crate::text::{lowercase, to_lowercase};

verus! {

broadcast use vstd::std_specs::hash::group_hash_axioms;

/// The value of an environment variable in the snapshot `env` (empty when
/// unset).
pub open spec fn env_value(env: Seq<(String, String)>, name: Seq<char>) -> Seq<char> {
    match env_get(env, name) {
        Some(v) => v,
        None => Seq::empty(),
    }
}

/// `s` with its first `${NAME}` reference replaced by the variable's value.
pub open spec fn expand_step(s: Seq<char>, env: Seq<(String, String)>) -> Seq<char> {
    match env_reference(s) {
        Some((a, b)) => s.take(a) + env_value(env, s.subrange(a + 2, b - 1)) + s.skip(b),
        None => s,
    }
}

/// Whether expanding references one at a time (always the first one left,
/// values included) reaches a text without references in at most `n` steps.
pub open spec fn expands_within(s: Seq<char>, env: Seq<(String, String)>, n: nat) -> bool
    decreases n,
{
    env_reference(s) is None || (n > 0 && expands_within(expand_step(s, env), env, (n - 1) as nat))
}

/// Whether the expansion of `s` ends (it does not when a value brings back
/// a reference to itself).
pub open spec fn expansion_ends(s: Seq<char>, env: Seq<(String, String)>) -> bool {
    exists|n: nat| expands_within(s, env, n)
}

/// The text after at most `n` expansion steps.
pub open spec fn expanded_within(s: Seq<char>, env: Seq<(String, String)>, n: nat) -> Seq<char>
    decreases n,
{
    if env_reference(s) is None || n == 0 {
        s
    } else {
        expanded_within(expand_step(s, env), env, (n - 1) as nat)
    }
}

/// `s` with all its `${NAME}` references expanded (meaningful when the
/// expansion ends).
pub open spec fn expanded(s: Seq<char>, env: Seq<(String, String)>) -> Seq<char> {
    expanded_within(s, env, choose|n: nat| expands_within(s, env, n))
}

proof fn lemma_expanded_stable(s: Seq<char>, env: Seq<(String, String)>, n: nat, m: nat)
    requires
        expands_within(s, env, n),
        n <= m,
    ensures
        expands_within(s, env, m),
        expanded_within(s, env, n) == expanded_within(s, env, m),
        env_reference(expanded_within(s, env, n)) is None,
    decreases n,
{
    if env_reference(s) is Some {
        lemma_expanded_stable(expand_step(s, env), env, (n - 1) as nat, (m - 1) as nat);
    }
}

proof fn lemma_expanded_is_within(s: Seq<char>, env: Seq<(String, String)>, n: nat)
    requires
        expands_within(s, env, n),
    ensures
        expanded(s, env) == expanded_within(s, env, n),
{
    let c = choose|k: nat| expands_within(s, env, k);
    if c <= n {
        lemma_expanded_stable(s, env, c, n);
    } else {
        lemma_expanded_stable(s, env, n, c);
    }
}

/// Replaces `${VAR}` references with the values of environment variables
/// (empty when unset), one at a time from the first, until none is left.
pub fn expand_env_refs(val: &str, env: &Vec<(String, String)>) -> (r: String)
    requires
        expansion_ends(val@, env@),
    ensures
        r@ == expanded(val@, env@),
{
    let ghost n: nat = choose|n: nat| expands_within(val@, env@, n);
    let ghost mut k: nat = n;
    let mut cur = val.to_string();
    let mut done = false;
    while !done
        invariant
            expands_within(cur@, env@, k),
            expanded_within(cur@, env@, k) == expanded_within(val@, env@, n),
            done ==> env_reference(cur@) is None,
        decreases 2 * k + (if done { 0int } else { 1int }),
    {
        match next_env_reference(cur.as_str()) {
            None => {
                done = true;
            },
            Some(r) => {
                let value = match env_lookup(env, r.name.as_str()) {
                    Some(v) => v,
                    None => "",
                };
                proof {
                    reveal_strlit("");
                }
                assert(value@ == env_value(env@, r.name@));
                let next = substitute_reference(cur.as_str(), &r, value);
                assert(next@ == expand_step(cur@, env@));
                proof {
                    k = (k - 1) as nat;
                }
                cur = next;
            },
        }
    }
    proof {
        lemma_expanded_is_within(val@, env@, n);
    }
    cur
}

/// Expands `val` in at most `steps` steps: `None` when references are still
/// left after them.
pub fn expand_env_within(val: &str, env: &Vec<(String, String)>, steps: usize) -> (r: Option<String>)
    ensures
        match r {
            Some(x) => expands_within(val@, env@, steps as nat) && x@ == expanded(val@, env@),
            None => !expands_within(val@, env@, steps as nat),
        },
{
    let mut cur = val.to_string();
    let mut left: usize = steps;
    loop
        invariant
            left <= steps,
            expands_within(val@, env@, steps as nat) <==> expands_within(cur@, env@, left as nat),
            expanded_within(cur@, env@, left as nat) == expanded_within(val@, env@, steps as nat),
        decreases left,
    {
        match next_env_reference(cur.as_str()) {
            None => {
                proof {
                    lemma_expanded_is_within(val@, env@, steps as nat);
                }
                return Some(cur);
            },
            Some(r) => {
                if left == 0 {
                    return None;
                }
                let value = match env_lookup(env, r.name.as_str()) {
                    Some(v) => v,
                    None => "",
                };
                proof {
                    reveal_strlit("");
                }
                assert(value@ == env_value(env@, r.name@));
                let next = substitute_reference(cur.as_str(), &r, value);
                assert(next@ == expand_step(cur@, env@));
                cur = next;
                left = left - 1;
            },
        }
    }
}


/// One agent entry, or the shared defaults, as the agents file gives them:
/// every setting optional. (Defaults carry no token and no paths.)
#[derive(Debug, Clone, Default)]
pub struct AgentEntry {
    pub telegram_bot_token: Option<String>,
    pub workspace_root: Option<String>,
    pub db_path: Option<String>,
    pub logs_root: Option<String>,
    pub allowed_user_ids: Option<String>,
    pub allowed_group_ids: Option<String>,
    pub default_engine: Option<String>,
    pub default_tool_mode: Option<String>,
    pub poll_timeout_seconds: Option<u64>,
    pub max_runtime_seconds: Option<u64>,
    pub max_output_chars: Option<usize>,
    pub bot_to_bot_max_turns: Option<u32>,
    pub engine_bin: Option<String>,
    pub safe_allowed_tools: Option<String>,
    pub full_allowed_tools: Option<String>,
    pub sst_python: Option<String>,
    pub sst_script: Option<String>,
    pub sst_language: Option<String>,
    pub sst_arch: Option<String>,
}

/// An agent's resolved settings. Empty `engine_bin`, `sst_python` and
/// `sst_script` mean "find it on this machine" (done by the application),
/// as do the paths, which the application makes absolute.
pub struct AgentSettings {
    pub telegram_bot_token: String,
    pub allowed_user_ids: HashSet<u64>,
    pub allowed_group_ids: HashSet<i64>,
    pub default_engine: String,
    pub default_tool_mode: String,
    pub poll_timeout_seconds: u64,
    pub max_runtime_seconds: u64,
    pub max_output_chars: usize,
    pub bot_to_bot_max_turns: u32,
    pub db_path: String,
    pub workspace_root: String,
    pub logs_root: String,
    pub engine_bin: String,
    pub safe_allowed_tools: Vec<String>,
    pub full_allowed_tools: Vec<String>,
    pub sst_python: String,
    pub sst_script: String,
    pub sst_language: String,
    pub sst_arch: String,
}

/// The agent's own value of a setting, else the default's.
pub open spec fn picked(agent: Option<String>, default: Option<String>) -> Option<Seq<char>> {
    match agent {
        Some(a) => Some(a@),
        None => match default {
            Some(d) => Some(d@),
            None => None,
        },
    }
}

/// A string setting: the picked value with its references expanded, else
/// the built-in `fallback`.
pub open spec fn setting_text(
    agent: Option<String>,
    default: Option<String>,
    env: Seq<(String, String)>,
    fallback: Seq<char>,
) -> Seq<char> {
    match picked(agent, default) {
        Some(v) => expanded(v, env),
        None => fallback,
    }
}

/// A numeric setting: the agent's value, else the default's, else `fallback`.
pub open spec fn number_setting<T>(agent: Option<T>, default: Option<T>, fallback: T) -> T {
    match agent {
        Some(a) => a,
        None => match default {
            Some(d) => d,
            None => fallback,
        },
    }
}


/// An agent's own setting overrides the shared defaults: whatever the
/// defaults and the built-in value, a value the agent gives is the one
/// used; the default's value counts only when the agent gives none, and
/// the built-in one only when neither does. The same holds of string
/// settings before their references are expanded.
pub proof fn law_agent_value_overrides_defaults<T>(
    v: T,
    d1: Option<T>,
    d2: Option<T>,
    f1: T,
    f2: T,
    sv: String,
    sd1: Option<String>,
    sd2: Option<String>,
)
    ensures
        number_setting(Some(v), d1, f1) == v,
        number_setting(Some(v), d1, f1) == number_setting(Some(v), d2, f2),
        d1 matches Some(x) ==> number_setting(None, d1, f1) == x,
        number_setting(None::<T>, None, f1) == f1,
        picked(Some(sv), sd1) == Some(sv@),
        picked(Some(sv), sd1) == picked(Some(sv), sd2),
        sd1 matches Some(x) ==> picked(None, sd1) == Some(x@),
        picked(None, None) is None,
{
}

/// A path of the agent: its own value expanded, else `derived`.
pub open spec fn path_text(own: Option<String>, env: Seq<(String, String)>, derived: Seq<char>) -> Seq<char> {
    match own {
        Some(p) => expanded(p@, env),
        None => derived,
    }
}

/// `{base}/{dir}/{name}{ext}`.
pub open spec fn derived_path(base: Seq<char>, dir: Seq<char>, name: Seq<char>, ext: Seq<char>) -> Seq<char> {
    base + "/"@ + dir + "/"@ + name + ext
}

/// The agent's token with its references expanded (empty when missing).
pub open spec fn token_text(agent: AgentEntry, env: Seq<(String, String)>) -> Seq<char> {
    path_text(agent.telegram_bot_token, env, Seq::empty())
}

/// Whether an optional value expands within `n` steps (a missing one does).
pub open spec fn opt_within(v: Option<Seq<char>>, env: Seq<(String, String)>, n: nat) -> bool {
    match v {
        Some(x) => expands_within(x, env, n),
        None => true,
    }
}

/// The text of an optional string.
pub open spec fn opt_seq(o: Option<String>) -> Option<Seq<char>> {
    match o {
        Some(s) => Some(s@),
        None => None,
    }
}

/// Whether every value the agent's settings expand does so within `n`
/// steps.
pub open spec fn agent_expands_within(
    a: AgentEntry,
    d: AgentEntry,
    env: Seq<(String, String)>,
    n: nat,
) -> bool {
    &&& opt_within(opt_seq(a.telegram_bot_token), env, n)
    &&& opt_within(opt_seq(a.db_path), env, n)
    &&& opt_within(opt_seq(a.workspace_root), env, n)
    &&& opt_within(opt_seq(a.logs_root), env, n)
    &&& opt_within(picked(a.allowed_user_ids, d.allowed_user_ids), env, n)
    &&& opt_within(picked(a.allowed_group_ids, d.allowed_group_ids), env, n)
    &&& opt_within(picked(a.default_engine, d.default_engine), env, n)
    &&& opt_within(picked(a.default_tool_mode, d.default_tool_mode), env, n)
    &&& opt_within(picked(a.engine_bin, d.engine_bin), env, n)
    &&& opt_within(picked(a.safe_allowed_tools, d.safe_allowed_tools), env, n)
    &&& opt_within(picked(a.full_allowed_tools, d.full_allowed_tools), env, n)
    &&& opt_within(picked(a.sst_python, d.sst_python), env, n)
    &&& opt_within(picked(a.sst_script, d.sst_script), env, n)
    &&& opt_within(picked(a.sst_language, d.sst_language), env, n)
    &&& opt_within(picked(a.sst_arch, d.sst_arch), env, n)
}

/// Whether the expansion of every value the agent's settings use ends.
pub open spec fn agent_expands(a: AgentEntry, d: AgentEntry, env: Seq<(String, String)>) -> bool {
    exists|n: nat| agent_expands_within(a, d, env, n)
}

/// Why an agent cannot run, if it cannot: its expanded token is empty, or
/// no valid user id is given.
pub open spec fn agent_error(
    name: Seq<char>,
    a: AgentEntry,
    d: AgentEntry,
    env: Seq<(String, String)>,
) -> Option<Seq<char>> {
    if token_text(a, env).len() == 0 {
        Some("agent."@ + name + ": telegram_bot_token is empty (check env var reference)"@)
    } else if id_set_u64(setting_text(a.allowed_user_ids, d.allowed_user_ids, env, ""@)).is_empty() {
        Some("agent."@ + name + ": allowed_user_ids must contain at least one valid ID"@)
    } else {
        None
    }
}

fn opt_ends_within(v: &Option<String>, env: &Vec<(String, String)>, steps: usize) -> (b: bool)
    ensures
        b == opt_within(opt_seq(*v), env@, steps as nat),
{
    match v {
        Some(x) => expand_env_within(x.as_str(), env, steps).is_some(),
        None => true,
    }
}

fn pick<'a>(agent: &'a Option<String>, default: &'a Option<String>) -> (r: Option<&'a String>)
    ensures
        match r {
            Some(v) => picked(*agent, *default) == Some(v@),
            None => picked(*agent, *default) is None,
        },
{
    match agent {
        Some(a) => Some(a),
        None => match default {
            Some(d) => Some(d),
            None => None,
        },
    }
}

fn picked_ends_within(
    agent: &Option<String>,
    default: &Option<String>,
    env: &Vec<(String, String)>,
    steps: usize,
) -> (b: bool)
    ensures
        b == opt_within(picked(*agent, *default), env@, steps as nat),
{
    match pick(agent, default) {
        Some(x) => expand_env_within(x.as_str(), env, steps).is_some(),
        None => true,
    }
}

/// Whether every value the agent's settings expand does so within `steps`
/// steps. Expansion ends exactly when this holds for some number of steps,
/// so a caller may try growing step counts until it does.
pub fn agent_expands_in(a: &AgentEntry, d: &AgentEntry, env: &Vec<(String, String)>, steps: usize) -> (b: bool)
    ensures
        b == agent_expands_within(*a, *d, env@, steps as nat),
        b ==> agent_expands(*a, *d, env@),
{
    let b = opt_ends_within(&a.telegram_bot_token, env, steps)
        && opt_ends_within(&a.db_path, env, steps)
        && opt_ends_within(&a.workspace_root, env, steps)
        && opt_ends_within(&a.logs_root, env, steps)
        && picked_ends_within(&a.allowed_user_ids, &d.allowed_user_ids, env, steps)
        && picked_ends_within(&a.allowed_group_ids, &d.allowed_group_ids, env, steps)
        && picked_ends_within(&a.default_engine, &d.default_engine, env, steps)
        && picked_ends_within(&a.default_tool_mode, &d.default_tool_mode, env, steps)
        && picked_ends_within(&a.engine_bin, &d.engine_bin, env, steps)
        && picked_ends_within(&a.safe_allowed_tools, &d.safe_allowed_tools, env, steps)
        && picked_ends_within(&a.full_allowed_tools, &d.full_allowed_tools, env, steps)
        && picked_ends_within(&a.sst_python, &d.sst_python, env, steps)
        && picked_ends_within(&a.sst_script, &d.sst_script, env, steps)
        && picked_ends_within(&a.sst_language, &d.sst_language, env, steps)
        && picked_ends_within(&a.sst_arch, &d.sst_arch, env, steps);
    proof {
        if b {
            assert(agent_expands_within(*a, *d, env@, steps as nat));
        }
    }
    b
}

proof fn lemma_within_ends(v: Option<Seq<char>>, env: Seq<(String, String)>, n: nat)
    requires
        opt_within(v, env, n),
    ensures
        match v {
            Some(x) => expansion_ends(x, env),
            None => true,
        },
{
}

/// A string setting (see [`setting_text`]).
fn setting(
    agent: &Option<String>,
    default: &Option<String>,
    env: &Vec<(String, String)>,
    fallback: &str,
) -> (r: String)
    requires
        match picked(*agent, *default) {
            Some(v) => expansion_ends(v, env@),
            None => true,
        },
    ensures
        r@ == setting_text(*agent, *default, env@, fallback@),
{
    match pick(agent, default) {
        Some(v) => expand_env_refs(v.as_str(), env),
        None => fallback.to_string(),
    }
}

/// A path (see [`path_text`]).
fn path_or(own: &Option<String>, env: &Vec<(String, String)>, derived: String) -> (r: String)
    requires
        match *own {
            Some(v) => expansion_ends(v@, env@),
            None => true,
        },
    ensures
        r@ == path_text(*own, env@, derived@),
{
    match own {
        Some(p) => expand_env_refs(p.as_str(), env),
        None => derived,
    }
}

fn number_or<T: Copy>(agent: Option<T>, default: Option<T>, fallback: T) -> (r: T)
    ensures
        r == number_setting(agent, default, fallback),
{
    match agent {
        Some(a) => a,
        None => match default {
            Some(d) => d,
            None => fallback,
        },
    }
}

/// Resolves the settings of the agent `name` from its entry and the shared
/// defaults: each setting is the agent's value, else the default's, else
/// the built-in one (`engine` for the engine); `${VAR}` references are
/// expanded from `env`; unset paths are derived from the name under `base`.
pub fn agent_settings(
    name: &str,
    a: &AgentEntry,
    d: &AgentEntry,
    env: &Vec<(String, String)>,
    base: &str,
    engine: &str,
) -> (r: Result<AgentSettings, String>)
    requires
        agent_expands(*a, *d, env@),
    ensures
        match r {
            Err(e) => agent_error(name@, *a, *d, env@) == Some(e@),
            Ok(s) => {
                &&& agent_error(name@, *a, *d, env@) is None
                &&& s.telegram_bot_token@ == token_text(*a, env@)
                &&& s.allowed_user_ids@ == id_set_u64(
                    setting_text(a.allowed_user_ids, d.allowed_user_ids, env@, ""@),
                )
                &&& s.allowed_group_ids@ == id_set_i64(
                    setting_text(a.allowed_group_ids, d.allowed_group_ids, env@, ""@),
                )
                &&& s.default_engine@ == lowercase(
                    setting_text(a.default_engine, d.default_engine, env@, engine@),
                )
                &&& s.default_tool_mode@ == lowercase(
                    setting_text(a.default_tool_mode, d.default_tool_mode, env@, "safe"@),
                )
                &&& s.poll_timeout_seconds == number_setting(
                    a.poll_timeout_seconds,
                    d.poll_timeout_seconds,
                    25,
                )
                &&& s.max_runtime_seconds == number_setting(
                    a.max_runtime_seconds,
                    d.max_runtime_seconds,
                    1200,
                )
                &&& s.max_output_chars == number_setting(a.max_output_chars, d.max_output_chars, 3500)
                &&& s.bot_to_bot_max_turns == number_setting(
                    a.bot_to_bot_max_turns,
                    d.bot_to_bot_max_turns,
                    5,
                )
                &&& s.db_path@ == path_text(a.db_path, env@, derived_path(base@, "data"@, name@, ".db"@))
                &&& s.workspace_root@ == path_text(
                    a.workspace_root,
                    env@,
                    derived_path(base@, "workspaces"@, name@, ""@),
                )
                &&& s.logs_root@ == path_text(a.logs_root, env@, derived_path(base@, "logs"@, name@, ""@))
                &&& s.engine_bin@ == setting_text(a.engine_bin, d.engine_bin, env@, ""@)
                &&& s.safe_allowed_tools@.map_values(|t: String| t@) == tool_list(
                    setting_text(a.safe_allowed_tools, d.safe_allowed_tools, env@, "Read,Edit,Bash"@),
                )
                &&& s.full_allowed_tools@.map_values(|t: String| t@) == tool_list(
                    setting_text(a.full_allowed_tools, d.full_allowed_tools, env@, ""@),
                )
                &&& s.sst_python@ == setting_text(a.sst_python, d.sst_python, env@, ""@)
                &&& s.sst_script@ == setting_text(a.sst_script, d.sst_script, env@, ""@)
                &&& s.sst_language@ == setting_text(a.sst_language, d.sst_language, env@, "es"@)
                &&& s.sst_arch@ == setting_text(a.sst_arch, d.sst_arch, env@, "base"@)
            },
        },
{
    proof {
        let n = choose|n: nat| agent_expands_within(*a, *d, env@, n);
        lemma_within_ends(opt_seq(a.telegram_bot_token), env@, n);
        lemma_within_ends(opt_seq(a.db_path), env@, n);
        lemma_within_ends(opt_seq(a.workspace_root), env@, n);
        lemma_within_ends(opt_seq(a.logs_root), env@, n);
        lemma_within_ends(picked(a.allowed_user_ids, d.allowed_user_ids), env@, n);
        lemma_within_ends(picked(a.allowed_group_ids, d.allowed_group_ids), env@, n);
        lemma_within_ends(picked(a.default_engine, d.default_engine), env@, n);
        lemma_within_ends(picked(a.default_tool_mode, d.default_tool_mode), env@, n);
        lemma_within_ends(picked(a.engine_bin, d.engine_bin), env@, n);
        lemma_within_ends(picked(a.safe_allowed_tools, d.safe_allowed_tools), env@, n);
        lemma_within_ends(picked(a.full_allowed_tools, d.full_allowed_tools), env@, n);
        lemma_within_ends(picked(a.sst_python, d.sst_python), env@, n);
        lemma_within_ends(picked(a.sst_script, d.sst_script), env@, n);
        lemma_within_ends(picked(a.sst_language, d.sst_language), env@, n);
        lemma_within_ends(picked(a.sst_arch, d.sst_arch), env@, n);
        reveal_strlit("");
    }
    let token = path_or(&a.telegram_bot_token, env, String::new());
    let users_raw = setting(&a.allowed_user_ids, &d.allowed_user_ids, env, "");
    let allowed_user_ids = parse_id_list_u64(users_raw.as_str());
    match check_agent(name, token.as_str(), &allowed_user_ids) {
        Err(e) => {
            return Err(e);
        },
        Ok(()) => {},
    }
    let groups_raw = setting(&a.allowed_group_ids, &d.allowed_group_ids, env, "");
    let engine_raw = setting(&a.default_engine, &d.default_engine, env, engine);
    let mode_raw = setting(&a.default_tool_mode, &d.default_tool_mode, env, "safe");
    let safe_raw = setting(&a.safe_allowed_tools, &d.safe_allowed_tools, env, "Read,Edit,Bash");
    let full_raw = setting(&a.full_allowed_tools, &d.full_allowed_tools, env, "");
    Ok(AgentSettings {
        telegram_bot_token: token,
        allowed_user_ids,
        allowed_group_ids: parse_id_list_i64(groups_raw.as_str()),
        default_engine: to_lowercase(engine_raw.as_str()),
        default_tool_mode: to_lowercase(mode_raw.as_str()),
        poll_timeout_seconds: number_or(a.poll_timeout_seconds, d.poll_timeout_seconds, 25),
        max_runtime_seconds: number_or(a.max_runtime_seconds, d.max_runtime_seconds, 1200),
        max_output_chars: number_or(a.max_output_chars, d.max_output_chars, 3500),
        bot_to_bot_max_turns: number_or(a.bot_to_bot_max_turns, d.bot_to_bot_max_turns, 5),
        db_path: path_or(&a.db_path, env, agent_path(base, "data", name, ".db")),
        workspace_root: path_or(&a.workspace_root, env, agent_path(base, "workspaces", name, "")),
        logs_root: path_or(&a.logs_root, env, agent_path(base, "logs", name, "")),
        engine_bin: setting(&a.engine_bin, &d.engine_bin, env, ""),
        safe_allowed_tools: parse_tool_list(safe_raw.as_str()),
        full_allowed_tools: parse_tool_list(full_raw.as_str()),
        sst_python: setting(&a.sst_python, &d.sst_python, env, ""),
        sst_script: setting(&a.sst_script, &d.sst_script, env, ""),
        sst_language: setting(&a.sst_language, &d.sst_language, env, "es"),
        sst_arch: setting(&a.sst_arch, &d.sst_arch, env, "base"),
    })
}

} // verus!

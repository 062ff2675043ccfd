use nitro_agent::nitro::agents::{
    agent_expands_in, agent_settings, expand_env_refs, expand_env_within, AgentEntry,
};

fn env(pairs: &[(&str, &str)]) -> Vec<(String, String)> {
    pairs.iter().map(|(k, v)| (k.to_string(), v.to_string())).collect()
}

#[test]
fn references_expand_from_the_environment() {
    let e = env(&[("A", "x${B}y"), ("B", "2"), ("TOKEN", "123:abc")]);
    assert_eq!(expand_env_refs("${TOKEN}", &e), "123:abc");
    assert_eq!(expand_env_refs("<${A}>", &e), "<x2y>");
    assert_eq!(expand_env_refs("${MISSING}-${B}", &e), "-2");
    assert_eq!(expand_env_refs("no refs ${open", &e), "no refs ${open");
}

#[test]
fn self_reference_never_finishes() {
    let e = env(&[("LOOP", "${LOOP}")]);
    assert_eq!(expand_env_within("${LOOP}", &e, 1000), None);
    assert_eq!(expand_env_within("${B}", &env(&[("B", "b")]), 1), Some("b".to_string()));
    assert_eq!(expand_env_within("${B}", &env(&[("B", "b")]), 0), None);
}

fn entry(token: &str, users: Option<&str>) -> AgentEntry {
    AgentEntry {
        telegram_bot_token: Some(token.to_string()),
        allowed_user_ids: users.map(|u| u.to_string()),
        ..AgentEntry::default()
    }
}

#[test]
fn agent_inherits_defaults_and_derives_paths() {
    let e = env(&[("TOK", "t-1"), ("ROOT", "/srv/p")]);
    let mut a = entry("${TOK}", None);
    a.workspace_root = Some("${ROOT}".to_string());
    a.default_tool_mode = Some("FULL".to_string());
    let d = AgentEntry {
        allowed_user_ids: Some("7, 8".to_string()),
        default_tool_mode: Some("safe".to_string()),
        bot_to_bot_max_turns: Some(3),
        safe_allowed_tools: Some("Read, Grep".to_string()),
        ..AgentEntry::default()
    };
    assert!(agent_expands_in(&a, &d, &e, 8));
    let s = match agent_settings("dev", &a, &d, &e, "/h/.nitro-agent", "engine") {
        Ok(s) => s,
        Err(m) => panic!("{m}"),
    };
    assert_eq!(s.telegram_bot_token, "t-1");
    assert!(s.allowed_user_ids.contains(&7) && s.allowed_user_ids.contains(&8));
    assert_eq!(s.default_tool_mode, "full");
    assert_eq!(s.default_engine, "engine");
    assert_eq!(s.bot_to_bot_max_turns, 3);
    assert_eq!(s.poll_timeout_seconds, 25);
    assert_eq!(s.max_runtime_seconds, 1200);
    assert_eq!(s.max_output_chars, 3500);
    assert_eq!(s.workspace_root, "/srv/p");
    assert_eq!(s.db_path, "/h/.nitro-agent/data/dev.db");
    assert_eq!(s.logs_root, "/h/.nitro-agent/logs/dev");
    assert_eq!(s.safe_allowed_tools, vec!["Read", "Grep"]);
    assert!(s.full_allowed_tools.is_empty());
    assert_eq!(s.engine_bin, "");
    assert_eq!(s.sst_language, "es");
    assert_eq!(s.sst_arch, "base");
}

#[test]
fn agent_without_defaults_uses_built_ins() {
    let s = match agent_settings("a", &entry("tok", Some("1")), &AgentEntry::default(), &Vec::new(), "/b", "engine") {
        Ok(s) => s,
        Err(m) => panic!("{m}"),
    };
    assert_eq!(s.bot_to_bot_max_turns, 5);
    assert_eq!(s.default_tool_mode, "safe");
    assert_eq!(s.workspace_root, "/b/workspaces/a");
    assert_eq!(s.safe_allowed_tools, vec!["Read", "Edit", "Bash"]);
}

#[test]
fn agent_errors() {
    let none = AgentEntry::default();
    let e = env(&[]);
    assert_eq!(
        agent_settings("x", &entry("${UNSET}", Some("1")), &none, &e, "/b", "engine").err(),
        Some("agent.x: telegram_bot_token is empty (check env var reference)".to_string())
    );
    assert_eq!(
        agent_settings("y", &entry("tok", Some("abc")), &none, &e, "/b", "engine").err(),
        Some("agent.y: allowed_user_ids must contain at least one valid ID".to_string())
    );
    assert_eq!(
        agent_settings("z", &entry("tok", None), &none, &e, "/b", "engine").err(),
        Some("agent.z: allowed_user_ids must contain at least one valid ID".to_string())
    );
}

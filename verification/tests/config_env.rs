use nitro_agent::nitro::config::settings_from_env;
use nitro_agent::nitro::multi::{check_agent, next_env_reference, parse_id_list_u64, substitute_reference};
use nitro_agent::nitro::store::{database_url, default_workspace_name, fresh_workspace_name, run_log_name};

fn vars(pairs: &[(&str, &str)]) -> Vec<(String, String)> {
    pairs.iter().map(|(k, v)| (k.to_string(), v.to_string())).collect()
}

fn err(pairs: &[(&str, &str)]) -> String {
    match settings_from_env(&vars(pairs), "engine") {
        Err(e) => e,
        Ok(_) => panic!("expected an error"),
    }
}

#[test]
fn required_settings() {
    assert_eq!(err(&[]), "TELEGRAM_BOT_TOKEN is required");
    assert_eq!(err(&[("TELEGRAM_BOT_TOKEN", "  ")]), "TELEGRAM_BOT_TOKEN is required");
    assert_eq!(err(&[("TELEGRAM_BOT_TOKEN", "t")]), "ALLOWED_TELEGRAM_USER_IDS is required");
    assert_eq!(
        err(&[("TELEGRAM_BOT_TOKEN", "t"), ("ALLOWED_TELEGRAM_USER_IDS", "x, y")]),
        "ALLOWED_TELEGRAM_USER_IDS must contain at least one valid ID"
    );
    assert_eq!(
        err(&[("TELEGRAM_BOT_TOKEN", "t"), ("ALLOWED_TELEGRAM_USER_IDS", "7"), ("DEFAULT_ENGINE", "other")]),
        "DEFAULT_ENGINE must be engine (only engine supported in Rust bot)"
    );
    assert_eq!(
        err(&[("TELEGRAM_BOT_TOKEN", "t"), ("ALLOWED_TELEGRAM_USER_IDS", "7"), ("DEFAULT_TOOL_MODE", "wild")]),
        "DEFAULT_TOOL_MODE must be safe or full"
    );
}

#[test]
fn documented_defaults() {
    let s = match settings_from_env(
        &vars(&[("TELEGRAM_BOT_TOKEN", " tok "), ("ALLOWED_TELEGRAM_USER_IDS", "7, x,8")]),
        "engine",
    ) {
        Ok(s) => s,
        Err(e) => panic!("{e}"),
    };
    assert_eq!(s.telegram_bot_token, "tok");
    assert_eq!(s.allowed_user_ids.len(), 2);
    assert!(s.allowed_user_ids.contains(&7) && s.allowed_user_ids.contains(&8));
    assert!(s.allowed_group_ids.is_empty());
    assert_eq!(s.default_engine, "engine");
    assert_eq!(s.default_tool_mode, "safe");
    assert_eq!(s.max_runtime_seconds, 1200);
    assert_eq!(s.max_output_chars, 3500);
    assert_eq!(s.bot_to_bot_max_turns, 0);
    assert_eq!(s.poll_timeout_seconds, 25);
    assert_eq!(s.sst_language, "es");
    assert_eq!(s.sst_arch, "base");
    assert_eq!(s.safe_allowed_tools, vec!["Read", "Edit", "Bash"]);
    assert!(s.full_allowed_tools.is_empty());
}

#[test]
fn explicit_settings() {
    let s = match settings_from_env(
        &vars(&[
            ("TELEGRAM_BOT_TOKEN", "tok"),
            ("ALLOWED_TELEGRAM_USER_IDS", "7"),
            ("DEFAULT_ENGINE", "ENGINE"),
            ("DEFAULT_TOOL_MODE", "FULL"),
            ("MAX_RUNTIME_SECONDS", "60"),
            ("MAX_OUTPUT_CHARS", "oops"),
            ("BOT_TO_BOT_MAX_TURNS", "3"),
            ("ALLOWED_GROUP_IDS", "-100, -200"),
            ("CLAUDE_SAFE_ALLOWED_TOOLS", "Read, Grep"),
            ("CLAUDE_FULL_ALLOWED_TOOLS", "Bash,,Edit"),
        ]),
        "engine",
    ) {
        Ok(s) => s,
        Err(e) => panic!("{e}"),
    };
    assert_eq!(s.default_tool_mode, "full");
    assert_eq!(s.max_runtime_seconds, 60);
    assert_eq!(s.max_output_chars, 3500);
    assert_eq!(s.bot_to_bot_max_turns, 3);
    assert!(s.allowed_group_ids.contains(&-100) && s.allowed_group_ids.contains(&-200));
    assert_eq!(s.safe_allowed_tools, vec!["Read", "Grep"]);
    assert_eq!(s.full_allowed_tools, vec!["Bash", "Edit"]);
}

#[test]
fn agent_checks() {
    let ids = parse_id_list_u64("1,2");
    assert_eq!(check_agent("a", "tok", &ids), Ok(()));
    assert_eq!(
        check_agent("a", "", &ids),
        Err("agent.a: telegram_bot_token is empty (check env var reference)".to_string())
    );
    let none = parse_id_list_u64("x");
    assert_eq!(
        check_agent("b", "tok", &none),
        Err("agent.b: allowed_user_ids must contain at least one valid ID".to_string())
    );
}

#[test]
fn env_references() {
    let s = "tok-${BOT_A}-end";
    let r = next_env_reference(s).unwrap();
    assert_eq!(r.name, "BOT_A");
    assert_eq!(substitute_reference(s, &r, "123"), "tok-123-end");
    assert!(next_env_reference("no refs").is_none());
    assert!(next_env_reference("${open").is_none());
}

#[test]
fn store_names() {
    assert_eq!(database_url("/d/a.db"), "sqlite:/d/a.db?mode=rwc");
    assert_eq!(default_workspace_name("chat:1:topic:2"), "chat_1_topic_2");
    assert_eq!(fresh_workspace_name("chat:1", "20240101T000000Z"), "chat_1-20240101T000000Z");
    assert_eq!(run_log_name("20240101T000000Z"), "run-20240101T000000Z.log");
}

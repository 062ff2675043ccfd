use nitro_agent::nitro::types::{RunStatus, ThreadKey};
use nitro_agent::telecode::bot::{
    command_log_line, compaction_prompt, compaction_result, engine_env, judge_run, memory_seed_prompt,
    shell_escape, truncate_for_telegram,
};

#[test]
fn short_messages_are_kept() {
    assert_eq!(truncate_for_telegram("short"), "short");
    let exact = "x".repeat(4000);
    assert_eq!(truncate_for_telegram(&exact), exact);
}

#[test]
fn long_messages_are_cut_by_characters() {
    let accented = "\u{e9}".repeat(3000);
    assert_eq!(truncate_for_telegram(&accented), accented);
    let text = format!("a{}", "\u{e9}".repeat(4500));
    let cut = truncate_for_telegram(&text);
    assert_eq!(cut, format!("a{}...(truncated)", "\u{e9}".repeat(3999)));
    assert_eq!(cut.chars().count(), 4014);
    let plain = "y".repeat(5000);
    let cut = truncate_for_telegram(&plain);
    assert_eq!(cut, format!("{}...(truncated)", "y".repeat(4000)));
    let over = "z".repeat(4001);
    assert_eq!(truncate_for_telegram(&over), format!("{}...(truncated)", "z".repeat(4000)));
}

#[test]
fn shell_quoting() {
    assert_eq!(shell_escape("plain"), "plain");
    assert_eq!(shell_escape("a b"), "'a b'");
    assert_eq!(shell_escape("it's"), "'it'\\''s'");
    assert_eq!(shell_escape("say \"x\""), "'say \"x\"'");
    let args = vec!["bin".to_string(), "-p".to_string(), "a b".to_string()];
    assert_eq!(command_log_line(&args), "$ bin -p 'a b'");
    assert_eq!(command_log_line(&Vec::new()), "$ ");
}

#[test]
fn runs_are_judged() {
    assert_eq!(judge_run(false, false, 0), (RunStatus::Succeeded, String::new()));
    assert_eq!(judge_run(false, false, 3), (RunStatus::Failed, "\n[exit-code] 3\n".to_string()));
    assert_eq!(judge_run(false, false, -1), (RunStatus::Failed, "\n[exit-code] -1\n".to_string()));
    assert_eq!(
        judge_run(true, true, 0),
        (RunStatus::Failed, "\n[timeout] Max runtime exceeded.\n".to_string())
    );
    assert_eq!(
        judge_run(false, true, 1),
        (RunStatus::Canceled, "\n[canceled] Canceled by user.\n".to_string())
    );
}

#[test]
fn compaction_outcomes() {
    assert_eq!(compaction_result(RunStatus::Succeeded, "  sum \n"), Ok("sum".to_string()));
    assert_eq!(
        compaction_result(RunStatus::Succeeded, " \n "),
        Err("\u{274c} <b>Compact failed</b>\nNo summary produced.".to_string())
    );
    assert_eq!(
        compaction_result(RunStatus::Succeeded, "(no output)"),
        Err("\u{274c} <b>Compact failed</b>\nNo summary produced.".to_string())
    );
    assert_eq!(
        compaction_result(RunStatus::Succeeded, " (no output)\n"),
        Err("\u{274c} <b>Compact failed</b>\nNo summary produced.".to_string())
    );
    assert_eq!(
        compaction_result(RunStatus::Succeeded, "(no output) yet"),
        Ok("(no output) yet".to_string())
    );
    assert_eq!(
        compaction_result(RunStatus::Failed, "<x>"),
        Err("\u{274c} <b>Compact failed</b>\n\n<pre>&lt;x&gt;</pre>".to_string())
    );
    assert!(compaction_prompt().starts_with("Create a strict JSON summary"));
    assert_eq!(memory_seed_prompt(), "Memory loaded. Reply exactly MEMORY_READY.");
}

#[test]
fn thread_keys_and_slugs() {
    let k = ThreadKey::new(-100, Some(5));
    assert_eq!(k.as_str(), "chat:-100:topic:5");
    assert_eq!(k.slug(), "chat_-100_topic_5");
    assert_eq!(ThreadKey::new(42, None).as_str(), "chat:42");
    assert_ne!(ThreadKey::new(1, Some(2)).as_str(), ThreadKey::new(12, None).as_str());
    assert_ne!(ThreadKey::new(-1, None).as_str(), ThreadKey::new(1, None).as_str());
}

#[test]
fn escaped_text_has_no_markup() {
    let e = nitro_agent::telecode::bot::html_escape("<a href=\"x\">&</a>");
    assert_eq!(e, "&lt;a href=&quot;x&quot;&gt;&amp;&lt;/a&gt;");
    assert!(!e.contains('<') && !e.contains('>') && !e.contains('"'));
}

#[test]
fn engine_env_drops_nesting_markers() {
    let pair = |k: &str, v: &str| (k.to_string(), v.to_string());
    let vars = vec![
        pair("PATH", "/bin"),
        pair("CLAUDECODE", "1"),
        pair("HOME", "/root"),
        pair("CLAUDE_CODE_ENTRYPOINT", "cli"),
        pair("CLAUDE_CODE_EXPERIMENTAL_AGENT_TEAMS", "1"),
        pair("CLAUDE_BIN", "/usr/bin/x"),
    ];
    assert_eq!(
        engine_env(&vars),
        vec![pair("PATH", "/bin"), pair("HOME", "/root"), pair("CLAUDE_BIN", "/usr/bin/x")]
    );
    assert!(engine_env(&Vec::new()).is_empty());
}

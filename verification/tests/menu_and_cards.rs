use std::path::PathBuf;

use nitro_agent::nitro::menu::{bot_commands, match_keyboard_button, persistent_keyboard};
use nitro_agent::nitro::types::{RunStatus, SessionMeta};
use nitro_agent::telecode::bot::{
    compacted_html, is_not_modified, output_tail, result_html, running_html, seed_summary,
    session_display, stderr_note, unknown_command_html,
};
use nitro_agent::telecode::commands::{
    cleared_html, format_context_no_data, parse_command, path_html, route_command, session_list_html,
    session_set_html, start_html, status_html, tool_mode_set_html, CommandRoute,
};
use nitro_agent::telecode::types::{ThreadSettings, ThreadState};

#[test]
fn keyboard_buttons_map_to_commands() {
    let rows = persistent_keyboard();
    assert_eq!(rows.len(), 3);
    assert_eq!(rows[0], vec!["\u{1f195} New", "\u{23f9} Cancel", "\u{1f4e6} Compact"]);
    for row in &rows {
        for label in row {
            assert!(match_keyboard_button(label).is_some());
        }
    }
    assert_eq!(match_keyboard_button("  \u{1f512} Safe \n"), Some("/mode safe"));
    assert_eq!(match_keyboard_button("\u{2753} Help"), Some("/help"));
    assert_eq!(match_keyboard_button("New"), None);
}

#[test]
fn command_menu_entries() {
    let menu = bot_commands();
    assert_eq!(menu.len(), 14);
    assert_eq!(menu[0], ("new", "Fresh session"));
    assert_eq!(menu[13], ("help", "List all commands"));
}

fn state() -> ThreadState {
    ThreadState {
        thread_key: "chat:1".to_string(),
        active_engine: "engine".to_string(),
        workspace_path: PathBuf::from("/w"),
        active_session_id: None,
        compact_summary: Some("x".repeat(310)),
        settings: ThreadSettings::default(),
    }
}

#[test]
fn start_and_status_cards() {
    assert_eq!(
        start_html(None, "engine"),
        "<b>TeleCode Bot</b>\nHigh-performance coding agent bridge\n\n<b>Model</b>    <code>engine</code>\n\
         <b>Version</b>  <code>\u{2014}</code>\n<b>Mode</b>     <code>bypassPermissions</code>\n\nType /help for commands."
    );
    let mut meta = SessionMeta::default();
    meta.model = "m<1>".to_string();
    meta.version = "2.0".to_string();
    assert!(start_html(Some(&meta), "engine").contains("<code>m&lt;1&gt;</code>\n<b>Version</b>  <code>2.0</code>"));
    let st = state();
    assert_eq!(
        status_html("chat:1", &st, None, Some("s-9")),
        "<b>Status</b>\n\n<b>Thread</b>    <code>chat:1</code>\n<b>Engine</b>    <code>engine</code>\n\
         <b>Model</b>     <code>\u{2014}</code>\n<b>Version</b>   <code>\u{2014}</code>\n\
         <b>Session</b>   <code>\u{2014}</code>\n<b>Memory</b>    yes\n<b>Mode</b>      <code>safe</code>\n\
         <b>Latest</b>    <code>s-9</code>"
    );
}

#[test]
fn context_card_without_data() {
    let st = state();
    let html = format_context_no_data(&st);
    assert!(html.starts_with("<b>Context</b>\n\n<i>No usage data yet \u{2014} send a message first.</i>"));
    assert!(html.ends_with(&format!("<pre>{}</pre>", "x".repeat(300))));
}

#[test]
fn session_cards() {
    assert_eq!(session_set_html("a<b"), "\u{2705} <b>Session set</b>\n<code>a&lt;b</code>");
    assert_eq!(session_list_html(&Vec::new()), "<b>No sessions</b>\nNo history for this thread.");
    let list = vec!["s1".to_string(), "s2".to_string()];
    assert_eq!(
        session_list_html(&list),
        "<b>Recent Sessions</b>\n\n1. <code>s1</code>\n2. <code>s2</code>\n\n/resume &lt;id&gt; to resume"
    );
    assert_eq!(
        cleared_html("/w/x"),
        "\u{2705} <b>Cleared</b>\n\nSession and memory removed.\nWorkspace: <code>/w/x</code>"
    );
    assert_eq!(path_html("<b>Workspace</b>", "/w&"), "<b>Workspace</b>\n<code>/w&amp;</code>");
    assert_eq!(tool_mode_set_html("full"), "\u{2705} <b>Tool mode</b>: <code>full</code>");
}

#[test]
fn run_cards() {
    assert_eq!(
        running_html(7, 12, "  \n "),
        "\u{23f3} <b>Running</b>  \u{b7}  #7  \u{b7}  12s\n\n<pre>(waiting...)</pre>"
    );
    assert_eq!(
        result_html(RunStatus::Succeeded, 7, "s-1", "ok"),
        "\u{2705} <b>Done</b>  \u{b7}  #7\n<code>s-1</code>\n\n<pre>ok</pre>"
    );
    assert_eq!(
        result_html(RunStatus::Canceled, 8, "\u{2014}", "<x>"),
        "\u{23f9} <b>Canceled</b>  \u{b7}  #8\n<code>\u{2014}</code>\n\n<pre>&lt;x&gt;</pre>"
    );
    assert_eq!(session_display(None, Some("a")), "a");
    assert_eq!(session_display(Some("b"), Some("a")), "b");
    assert_eq!(session_display(None, None), "\u{2014}");
    assert_eq!(output_tail("  \n"), "(no output)");
    assert_eq!(output_tail(" out \n"), "out");
    assert_eq!(stderr_note("e"), "\n[stderr] e\n");
    assert_eq!(seed_summary(None, Some("sum")), Some("sum"));
    assert_eq!(seed_summary(Some("s"), Some("sum")), None);
    assert!(is_not_modified("bad request: message is not modified: x"));
    assert!(!is_not_modified("message to edit not found"));
    assert_eq!(unknown_command_html("bash"), "Unknown: <code>/bash</code>\nType /help for commands.");
    assert_eq!(
        compacted_html(42, None),
        "\u{2705} <b>Compacted</b>\n\nMemory: 42 chars stored\nSession: <code>next message</code>"
    );
}

#[test]
fn menu_commands_have_handlers() {
    for (name, _) in bot_commands() {
        assert_ne!(route_command(name), CommandRoute::Unknown, "{name}");
    }
}

#[test]
fn buttons_parse_to_menu_commands() {
    let names: Vec<&str> = bot_commands().iter().map(|(n, _)| *n).collect();
    for row in persistent_keyboard() {
        for label in row {
            let cmd = match_keyboard_button(label).unwrap();
            let parsed = parse_command(cmd).unwrap();
            assert!(names.contains(&parsed.name.as_str()), "{}", parsed.name);
            assert_ne!(route_command(&parsed.name), CommandRoute::Unknown);
        }
    }
    let full = parse_command(match_keyboard_button("\u{1f513} Full").unwrap()).unwrap();
    assert_eq!((full.name.as_str(), full.args.as_str()), ("mode", "full"));
    assert_eq!(parse_command("/MODE Safe").unwrap().name, "mode");
}

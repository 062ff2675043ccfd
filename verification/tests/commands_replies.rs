use nitro_agent::nitro::types::{McpServerInfo, PluginInfo, SessionMeta};
use nitro_agent::telecode::commands::{
    bash_command, bash_result_html, bash_usage_html, cd_target, context_details_html, help_html, join_path, mcp_html, route_command,
    select_tool_mode, skills_html, CommandRoute,
};

#[test]
fn help_lists_commands() {
    let h = help_html();
    assert!(h.starts_with("<b>Commands</b>\n\n<b>Session</b>\n/new \u{2014} Fresh session\n"));
    assert!(h.contains("/mode &lt;safe|full&gt; \u{2014} Tool permissions"));
    assert!(h.ends_with("Send any text as a prompt."));
}

#[test]
fn mcp_card() {
    assert_eq!(
        mcp_html(None),
        "<b>MCP Servers</b>\n\n<i>No data yet \u{2014} send a message first.</i>"
    );
    let mut m = SessionMeta::default();
    assert_eq!(mcp_html(Some(&m)), "<b>MCP Servers</b>\n\nNo servers configured.");
    m.mcp_servers = vec![
        McpServerInfo { name: "fs".to_string(), status: "connected".to_string() },
        McpServerInfo { name: "git<1>".to_string(), status: "failed".to_string() },
    ];
    assert_eq!(
        mcp_html(Some(&m)),
        "<b>MCP Servers</b>  \u{b7}  2\n\n\u{2705} <b>fs</b>  \u{b7}  connected\n\u{274c} <b>git&lt;1&gt;</b>  \u{b7}  failed"
    );
}

#[test]
fn skills_card() {
    assert_eq!(
        skills_html(None),
        "<b>Skills</b>\n\n<i>No data yet \u{2014} send a message first.</i>"
    );
    let mut m = SessionMeta::default();
    assert_eq!(skills_html(Some(&m)), "<b>Skills</b>\n\nNo skills available.");
    m.skills = vec!["review".to_string()];
    m.slash_commands = vec!["init".to_string(), "a&b".to_string()];
    m.plugins = vec![PluginInfo { name: "lint".to_string() }];
    assert_eq!(
        skills_html(Some(&m)),
        "<b>Skills</b>  \u{b7}  1\n\n  <code>review</code>\n\n\
         <b>Slash Commands</b>  \u{b7}  2\n\n  <code>/init</code>\n  <code>/a&amp;b</code>\n\n\
         <b>Plugins</b>  \u{b7}  1\n\n  <code>lint</code>"
    );
    m.skills.clear();
    m.slash_commands.clear();
    m.plugins.clear();
    m.agents = vec!["planner".to_string()];
    assert_eq!(
        skills_html(Some(&m)),
        "<b>Agents</b>  \u{b7}  1\n\n  <code>planner</code>"
    );
}

#[test]
fn long_skills_card_is_cut() {
    let mut m = SessionMeta::default();
    m.skills = (0..1000).map(|i| format!("skill-{i}")).collect();
    let html = skills_html(Some(&m));
    assert!(html.ends_with("...(truncated)"));
    assert_eq!(html.chars().count(), 4014);
}

#[test]
fn context_details() {
    let mut m = SessionMeta::default();
    assert_eq!(context_details_html(0, &m), "");
    m.tools = vec!["Read".to_string(), "Edit".to_string()];
    m.mcp_servers = vec![McpServerInfo { name: "fs".to_string(), status: "ok".to_string() }];
    m.fast_mode_state = "on".to_string();
    assert_eq!(
        context_details_html(128_500, &m),
        "\n<b>Max output</b> 128k tokens\n<b>MCPs</b>       1\n<b>Tools</b>      2\n<b>Fast mode</b>  <code>on</code>"
    );
}

#[test]
fn cd_targets() {
    assert_eq!(cd_target("   ", Some("/home/u"), "/w"), None);
    assert_eq!(cd_target("  src ", None, "/w"), Some("/w/src".to_string()));
    assert_eq!(cd_target("~/p", Some("/home/u"), "/w"), Some("/home/u/p".to_string()));
    assert_eq!(cd_target("~", Some("/home/u"), "/w"), Some("/home/u".to_string()));
    assert_eq!(cd_target("~/p", None, "/w"), Some("/w/~/p".to_string()));
    assert_eq!(cd_target("/abs", None, "/w/"), Some("/abs".to_string()));
}

#[test]
fn joining_paths() {
    assert_eq!(join_path("/w/", "x"), "/w/x");
    assert_eq!(join_path("/w", "x/y"), "/w/x/y");
    assert_eq!(join_path("", "x"), "x");
    assert_eq!(join_path("/w", "/etc"), "/etc");
}

#[test]
fn tool_mode_selection_lowercases() {
    assert_eq!(select_tool_mode(" SAFE "), Some("safe".to_string()));
    assert_eq!(select_tool_mode("Full"), Some("full".to_string()));
    assert_eq!(select_tool_mode("wild"), None);
    assert_eq!(select_tool_mode(""), None);
}

#[test]
fn command_routes() {
    assert_eq!(route_command("mcps"), CommandRoute::Mcp);
    assert_eq!(route_command("pwd"), CommandRoute::Cd);
    assert_eq!(route_command("new"), CommandRoute::NewThread);
    assert_eq!(route_command("mode"), CommandRoute::ToolMode);
    assert_eq!(route_command("bash"), CommandRoute::Bash);
    assert_eq!(route_command("sh"), CommandRoute::Unknown);
}

#[test]
fn bash_replies() {
    assert_eq!(bash_command("  ls -la "), Some("ls -la".to_string()));
    assert_eq!(bash_command("   "), None);
    assert_eq!(bash_usage_html(), "<b>Usage</b>\n/bash &lt;cmd&gt;");
    assert_eq!(
        bash_result_html("echo <hi>", "<hi>\n", Some(0), false),
        "<b>$</b> <code>echo &lt;hi&gt;</code>  \u{b7}  exit 0\n\n<pre>&lt;hi&gt;</pre>"
    );
    assert_eq!(
        bash_result_html("sleep 999", "", None, true),
        "<b>$</b> <code>sleep 999</code>  \u{b7}  timed out\n\n<pre>(no output)</pre>"
    );
    assert_eq!(
        bash_result_html("false", " ", Some(1), false),
        "<b>$</b> <code>false</code>  \u{b7}  exit 1\n\n<pre>(no output)</pre>"
    );
}

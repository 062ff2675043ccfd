use nitro_agent::nitro::types::RunInfo;
use nitro_agent::telecode::commands::{
    format_ago, format_duration, format_duration_between, tasks_html_at, time_ago_at,
};

#[test]
fn time_ago_format() {
    let now = chrono::Utc::now();
    let ago = (now - chrono::Duration::seconds(120)).to_rfc3339();
    let result = time_ago_at(&ago, &now.to_rfc3339());
    assert!(result.contains("m ago"));
}

#[test]
fn time_ago_of_invalid_timestamp_is_dash() {
    assert_eq!(time_ago_at("yesterday", &chrono::Utc::now().to_rfc3339()), "\u{2014}");
}

#[test]
fn duration_formats() {
    assert_eq!(format_duration(42), "42s");
    assert_eq!(format_duration(-3), "-3s");
    assert_eq!(format_duration(59), "59s");
    assert_eq!(format_duration(60), "1m 0s");
    assert_eq!(format_duration(185), "3m 5s");
    assert_eq!(format_duration(3600), "1h 0m");
    assert_eq!(format_duration(7800), "2h 10m");
}

#[test]
fn ago_formats() {
    assert_eq!(format_ago(30), "30s ago");
    assert_eq!(format_ago(-2), "-2s ago");
    assert_eq!(format_ago(120), "2m ago");
    assert_eq!(format_ago(7200), "2h ago");
    assert_eq!(format_ago(86399), "23h ago");
    assert_eq!(format_ago(172800), "2d ago");
}

#[test]
fn duration_between_timestamps() {
    assert_eq!(
        format_duration_between("2024-01-01T00:00:00Z", "2024-01-01T01:02:03Z"),
        "1h 2m"
    );
    assert_eq!(
        format_duration_between("2024-01-01T00:00:00+02:00", "2023-12-31T22:00:30Z"),
        "30s"
    );
    assert_eq!(
        format_duration_between("2024-01-01T00:00:00.9Z", "2024-01-01T00:00:01.1Z"),
        "0s"
    );
    assert_eq!(
        format_duration_between("2024-01-01T00:01:00Z", "2024-01-01T00:00:00Z"),
        "-60s"
    );
    assert_eq!(format_duration_between("nope", "2024-01-01T00:00:00Z"), "\u{2014}");
    assert_eq!(format_duration_between("2024-01-01T00:00:00Z", "later"), "\u{2014}");
}

#[test]
fn time_ago_at_fixed_now() {
    assert_eq!(
        time_ago_at("2024-01-01T00:00:00Z", "2024-01-03T00:00:00Z"),
        "2d ago"
    );
    assert_eq!(time_ago_at("bad", "2024-01-03T00:00:00Z"), "\u{2014}");
}

fn run(id: i64, started: &str, ended: Option<&str>, status: &str) -> RunInfo {
    RunInfo {
        id,
        engine: "engine".to_string(),
        started_at: started.to_string(),
        ended_at: ended.map(|e| e.to_string()),
        status: status.to_string(),
    }
}

#[test]
fn tasks_card_lists_runs() {
    let runs = vec![
        run(8, "2024-01-01T00:05:00Z", None, "running"),
        run(7, "2024-01-01T00:00:00Z", Some("2024-01-01T00:01:05Z"), "succeeded"),
        run(6, "2024-01-01T00:00:00Z", Some("broken"), "odd<state>"),
    ];
    let html = tasks_html_at(&runs, "2024-01-01T00:10:00Z");
    assert_eq!(
        html,
        "<b>Recent Runs</b>  \u{b7}  3\n\n\
         \u{23f3} #8  \u{b7}  running  \u{b7}  running  \u{b7}  5m ago\n\
         \u{2705} #7  \u{b7}  succeeded  \u{b7}  1m 5s  \u{b7}  10m ago\n\
         \u{b7} #6  \u{b7}  odd&lt;state&gt;  \u{b7}  \u{2014}  \u{b7}  10m ago"
    );
}

#[test]
fn tasks_card_without_runs() {
    let runs: Vec<RunInfo> = Vec::new();
    assert_eq!(
        tasks_html_at(&runs, "2024-01-01T00:10:00Z"),
        "<b>Recent Runs</b>\n\nNo runs yet."
    );
}

#[test]
fn tasks_card_now_uses_the_clock() {
    let runs = vec![run(1, "2000-01-01T00:00:00Z", None, "failed")];
    let html = tasks_html_at(&runs, &chrono::Utc::now().to_rfc3339());
    assert!(html.starts_with("<b>Recent Runs</b>  \u{b7}  1\n\n\u{274c} #1  \u{b7}  failed  \u{b7}  running  \u{b7}  "));
    assert!(html.ends_with("d ago"));
}

use nitro_agent::nitro::types::RunStatus;
use nitro_agent::telecode::run::{next_step, StreamRun, StreamStep};
use nitro_agent::telecode::stream::StreamEvent;

#[test]
fn steps_check_timeout_before_cancel() {
    assert_eq!(next_step(true, true), StreamStep::StopTimedOut);
    assert_eq!(next_step(false, true), StreamStep::StopCancelled);
    assert_eq!(next_step(false, false), StreamStep::Read);
}

#[test]
fn lines_update_session_and_output() {
    let mut r = StreamRun::new(42, 100, Some("old"));
    assert_eq!(r.session_id.as_deref(), Some("old"));
    r.on_line(r#"{"type":"system","session_id":"s-1"}"#);
    assert_eq!(r.session_id.as_deref(), Some("s-1"));
    assert_eq!(r.rolling.value(), "");
    r.on_line(r#"{"type":"stream_event","event":{"type":"content_block_delta","delta":{"type":"text_delta","text":"Hello"}}}"#);
    assert_eq!(r.rolling.value(), "Hello");
    assert_eq!(r.session_id.as_deref(), Some("s-1"));
    r.on_line("");
    assert_eq!(r.rolling.value(), "Hello");
}

#[test]
fn events_can_be_fed_directly() {
    let mut r = StreamRun::new(1, 8, None);
    r.on_event(StreamEvent { text: "abcdef".to_string(), session_id: None });
    r.on_event(StreamEvent { text: "ghij".to_string(), session_id: Some("x".to_string()) });
    assert_eq!(r.rolling.value(), "cdefghij");
    assert_eq!(r.session_id.as_deref(), Some("x"));
}

#[test]
fn progress_is_sent_only_when_it_changes() {
    let mut r = StreamRun::new(42, 100, None);
    let first = r.progress_update(1).unwrap();
    assert_eq!(first, "\u{23f3} <b>Running</b>  \u{b7}  #42  \u{b7}  1s\n\n<pre>(waiting...)</pre>");
    r.progress_shown(first);
    assert!(r.progress_update(1).is_none());
    r.on_line("plain <text>");
    let p = r.progress_update(3).unwrap();
    assert_eq!(p, "\u{23f3} <b>Running</b>  \u{b7}  #42  \u{b7}  3s\n\n<pre>plain &lt;text&gt;</pre>");
    r.progress_shown(p);
    assert!(r.progress_update(3).is_none());
    assert!(r.progress_update(4).is_some());
}

#[test]
fn finished_run_with_exit_code() {
    let mut r = StreamRun::new(42, 100, Some("old"));
    r.on_line("Hello");
    let res = r.finish("boom", false, false, 2, 9);
    assert_eq!(res.status, RunStatus::Failed);
    assert_eq!(res.output_tail, "Hello\n[stderr] boom\n\n[exit-code] 2");
    assert_eq!(res.session_id.as_deref(), Some("old"));
    assert_eq!(res.exit_code, 2);
    assert_eq!(res.elapsed_secs, 9);
}

#[test]
fn finished_run_outcomes() {
    let r = StreamRun::new(1, 10, None);
    let res = r.finish("", true, true, 0, 1);
    assert_eq!(res.status, RunStatus::Failed);
    assert_eq!(res.output_tail, "exceeded.");

    let r = StreamRun::new(1, 100, None);
    let res = r.finish("", false, true, 0, 1);
    assert_eq!(res.status, RunStatus::Canceled);
    assert_eq!(res.output_tail, "[canceled] Canceled by user.");

    let r = StreamRun::new(1, 100, None);
    let res = r.finish("", false, false, 0, 1);
    assert_eq!(res.status, RunStatus::Succeeded);
    assert_eq!(res.output_tail, "(no output)");
    assert_eq!(res.session_id, None);
}

#[test]
fn run_keeps_last_reported_session() {
    let mut r = StreamRun::new(1, 100, Some("resumed"));
    r.on_event(StreamEvent { text: String::new(), session_id: None });
    assert_eq!(r.session_id.as_deref(), Some("resumed"));
    r.on_event(StreamEvent { text: String::new(), session_id: Some("a".to_string()) });
    r.on_event(StreamEvent { text: String::new(), session_id: Some("b".to_string()) });
    r.on_event(StreamEvent { text: "x".to_string(), session_id: None });
    assert_eq!(r.session_id.as_deref(), Some("b"));
}

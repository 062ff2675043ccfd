use nitro_agent::telecode::stream::{event_from_json, extract_session_id, parse_stream_line, JsonValue};

#[test]
fn parse_empty_line() {
    let result = parse_stream_line("");
    assert!(result.text.is_empty());
    assert!(result.session_id.is_none());
}

#[test]
fn parse_text_delta() {
    let line = r#"{"type":"stream_event","event":{"type":"content_block_delta","delta":{"type":"text_delta","text":"Hello"}}}"#;
    let result = parse_stream_line(line);
    assert_eq!(result.text, "Hello");
}

#[test]
fn parse_session_id() {
    let line = r#"{"type":"system","session_id":"abc-123"}"#;
    let result = parse_stream_line(line);
    assert_eq!(result.session_id.as_deref(), Some("abc-123"));
}

#[test]
fn parse_error_event() {
    let line = r#"{"type":"error","message":"something went wrong"}"#;
    let result = parse_stream_line(line);
    assert_eq!(result.text, "[error] something went wrong");
}

#[test]
fn parse_non_json_line() {
    let result = parse_stream_line("just plain text");
    assert_eq!(result.text, "just plain text");
    assert!(result.session_id.is_none());
}

#[test]
fn non_json_line_keeps_untrimmed_text() {
    let result = parse_stream_line("  raw line \n");
    assert_eq!(result.text, "  raw line \n");
}

#[test]
fn non_object_json_is_empty() {
    let result = parse_stream_line("[1, 2]");
    assert_eq!(result.text, "");
    assert!(result.session_id.is_none());
}

#[test]
fn warning_event() {
    let result = parse_stream_line(r#"{"type":"warning","message":"careful"}"#);
    assert_eq!(result.text, "[warning] careful");
}

#[test]
fn user_tool_results_are_joined() {
    let line = r#"{"type":"user","message":{"content":[{"type":"tool_result","content":"one"},{"type":"text","content":"skip"},{"type":"tool_result","content":7},{"type":"tool_result","content":"two"}]}}"#;
    let result = parse_stream_line(line);
    assert_eq!(result.text, "one\ntwo");
}

#[test]
fn numeric_and_nested_session_ids() {
    let result = parse_stream_line(r#"{"type":"result","data":{"x":[{"threadId":42}]}}"#);
    assert_eq!(result.session_id.as_deref(), Some("42"));
    let result = parse_stream_line(r#"{"sessionId":{"inner":1},"z":{"session_id":"deep"}}"#);
    assert_eq!(result.session_id.as_deref(), Some("deep"));
}

#[test]
fn assistant_event_has_no_text() {
    let result = parse_stream_line(r#"{"type":"assistant","message":{"content":"dup"}}"#);
    assert_eq!(result.text, "");
}

#[test]
fn event_from_parsed_value() {
    let v = JsonValue::Object(vec![
        ("type".to_string(), JsonValue::Str("error".to_string())),
        ("message".to_string(), JsonValue::Str("boom".to_string())),
        ("conversation_id".to_string(), JsonValue::Number("9".to_string())),
    ]);
    assert_eq!(extract_session_id(&v).as_deref(), Some("9"));
    let e = event_from_json("ignored", Some(v));
    assert_eq!(e.text, "[error] boom");
    assert_eq!(e.session_id.as_deref(), Some("9"));
    let e = event_from_json("not json", None);
    assert_eq!(e.text, "not json");
    let e = event_from_json("x", Some(JsonValue::Bool(true)));
    assert_eq!(e.text, "");
}

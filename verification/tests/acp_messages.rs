use resident_ai::acp::{
    build_initialize_params, build_prompt_params, build_prompt_text, build_request,
    build_session_new_params, extract_chunk_text, extract_session_id, is_response, response_error,
};
use resident_ai::json::Json;
use serde_json::Value;

fn text(s: &str) -> Json {
    Json::Text(s.to_string())
}

fn num(s: &str) -> Json {
    Json::Number(s.to_string())
}

fn obj(entries: Vec<(&str, Json)>) -> Json {
    Json::Object(entries.into_iter().map(|(k, v)| (k.to_string(), v)).collect())
}

// === build_request ===

#[test]
fn build_request_initialize() {
    let msg = build_request(1, "initialize", build_initialize_params());
    let parsed: Value = serde_json::from_str(&msg).unwrap();
    assert_eq!(parsed["jsonrpc"], "2.0");
    assert_eq!(parsed["id"], 1);
    assert_eq!(parsed["method"], "initialize");
    assert_eq!(parsed["params"]["protocolVersion"], 1);
    assert_eq!(parsed["params"]["clientInfo"]["name"], "resident-ai");
}

#[test]
fn build_request_session_new() {
    let msg = build_request(2, "session/new", build_session_new_params("/tmp/work"));
    let parsed: Value = serde_json::from_str(&msg).unwrap();
    assert_eq!(parsed["method"], "session/new");
    assert_eq!(parsed["params"]["cwd"], "/tmp/work");
    assert_eq!(parsed["params"]["mcpServers"], Value::Array(vec![]));
}

#[test]
fn build_request_prompt() {
    let msg = build_request(3, "session/prompt", build_prompt_params("uuid-123", "hello"));
    let parsed: Value = serde_json::from_str(&msg).unwrap();
    assert_eq!(parsed["method"], "session/prompt");
    assert_eq!(parsed["params"]["sessionId"], "uuid-123");
    assert_eq!(parsed["params"]["prompt"][0]["type"], "text");
    assert_eq!(parsed["params"]["prompt"][0]["text"], "hello");
}

#[test]
fn build_request_is_compact_json_text() {
    let msg = build_request(7, "x", Json::Null);
    assert_eq!(msg, "{\"id\":7,\"jsonrpc\":\"2.0\",\"method\":\"x\",\"params\":null}");
    let big = build_request(u64::MAX, "m", Json::Bool(true));
    let parsed: Value = serde_json::from_str(&big).unwrap();
    assert_eq!(parsed["id"], u64::MAX);
    assert_eq!(parsed["params"], true);
}

#[test]
fn build_request_escapes_strings() {
    let msg = build_request(1, "say \"hi\"\n", build_prompt_params("s", "a\\b"));
    let parsed: Value = serde_json::from_str(&msg).unwrap();
    assert_eq!(parsed["method"], "say \"hi\"\n");
    assert_eq!(parsed["params"]["prompt"][0]["text"], "a\\b");
}

// === build_prompt_text ===

#[test]
fn prompt_text_no_files() {
    assert_eq!(build_prompt_text("hello", None), "hello");
}

#[test]
fn prompt_text_empty_files() {
    assert_eq!(build_prompt_text("hello", Some(&[])), "hello");
}

#[test]
fn prompt_text_with_files() {
    assert_eq!(
        build_prompt_text("analyze", Some(&["a.jpg", "b.pdf"])),
        "@a.jpg @b.pdf analyze"
    );
}

// === extract_session_id ===

#[test]
fn extract_session_id_valid() {
    let resp = obj(vec![("result", obj(vec![("sessionId", text("abc-123"))]))]);
    assert_eq!(extract_session_id(&resp), Some("abc-123"));
}

#[test]
fn extract_session_id_missing() {
    let resp = obj(vec![("result", obj(vec![]))]);
    assert_eq!(extract_session_id(&resp), None);
}

#[test]
fn extract_session_id_error_response() {
    let resp = obj(vec![("error", obj(vec![("code", num("-32603")), ("message", text("fail"))]))]);
    assert_eq!(extract_session_id(&resp), None);
}

#[test]
fn extract_session_id_not_a_string() {
    let resp = obj(vec![("result", obj(vec![("sessionId", num("5"))]))]);
    assert_eq!(extract_session_id(&resp), None);
}

// === extract_chunk_text ===

#[test]
fn extract_chunk_text_valid() {
    let line = obj(vec![
        ("jsonrpc", text("2.0")),
        ("method", text("session/update")),
        (
            "params",
            obj(vec![
                ("sessionId", text("uuid")),
                (
                    "update",
                    obj(vec![
                        ("sessionUpdate", text("agent_message_chunk")),
                        ("content", obj(vec![("type", text("text")), ("text", text("4"))])),
                    ]),
                ),
            ]),
        ),
    ]);
    assert_eq!(extract_chunk_text(&line), Some("4"));
}

#[test]
fn extract_chunk_text_not_a_chunk() {
    let line = obj(vec![
        ("jsonrpc", text("2.0")),
        ("method", text("session/update")),
        (
            "params",
            obj(vec![(
                "update",
                obj(vec![
                    ("sessionUpdate", text("available_commands_update")),
                    ("availableCommands", Json::Array(vec![])),
                ]),
            )]),
        ),
    ]);
    assert_eq!(extract_chunk_text(&line), None);
}

#[test]
fn extract_chunk_text_not_a_notification() {
    let line = obj(vec![
        ("jsonrpc", text("2.0")),
        ("id", num("3")),
        ("result", obj(vec![("stopReason", text("end_turn"))])),
    ]);
    assert_eq!(extract_chunk_text(&line), None);
}

#[test]
fn extract_chunk_thought_is_not_message() {
    let line = obj(vec![
        ("jsonrpc", text("2.0")),
        ("method", text("session/update")),
        (
            "params",
            obj(vec![(
                "update",
                obj(vec![
                    ("sessionUpdate", text("agent_thought_chunk")),
                    ("content", obj(vec![("type", text("text")), ("text", text("thinking..."))])),
                ]),
            )]),
        ),
    ]);
    assert_eq!(extract_chunk_text(&line), None);
}

// === is_response / response_error ===

#[test]
fn is_response_matching() {
    let line = obj(vec![("jsonrpc", text("2.0")), ("id", num("5")), ("result", obj(vec![]))]);
    assert_eq!(is_response(&line, 5), true);
}

#[test]
fn is_response_wrong_id() {
    let line = obj(vec![("jsonrpc", text("2.0")), ("id", num("5")), ("result", obj(vec![]))]);
    assert_eq!(is_response(&line, 3), false);
}

#[test]
fn is_response_notification() {
    let line = obj(vec![
        ("jsonrpc", text("2.0")),
        ("method", text("session/update")),
        ("params", obj(vec![])),
    ]);
    assert_eq!(is_response(&line, 1), false);
}

#[test]
fn is_response_ignores_non_integer_ids() {
    assert!(!is_response(&obj(vec![("id", num("5.0"))]), 5));
    assert!(!is_response(&obj(vec![("id", num("-5"))]), 5));
    assert!(!is_response(&obj(vec![("id", text("5"))]), 5));
    assert!(!is_response(&obj(vec![("id", num("18446744073709551616"))]), 0));
    assert!(is_response(&obj(vec![("id", num("18446744073709551615"))]), u64::MAX));
}

#[test]
fn response_error_present() {
    let line = obj(vec![
        ("jsonrpc", text("2.0")),
        ("id", num("1")),
        ("error", obj(vec![("code", num("-32601")), ("message", text("not found"))])),
    ]);
    assert!(response_error(&line).is_some());
}

#[test]
fn response_error_absent() {
    let line = obj(vec![("jsonrpc", text("2.0")), ("id", num("1")), ("result", obj(vec![]))]);
    assert!(response_error(&line).is_none());
}

#[test]
fn initialize_declares_client_capabilities() {
    let msg = build_request(1, "initialize", build_initialize_params());
    let parsed: Value = serde_json::from_str(&msg).unwrap();
    assert_eq!(parsed["params"]["protocolVersion"], 1);
    assert_eq!(parsed["params"]["clientCapabilities"]["fs"]["readTextFile"], false);
    assert_eq!(parsed["params"]["clientCapabilities"]["fs"]["writeTextFile"], false);
    assert_eq!(parsed["params"]["clientInfo"]["version"], "0.1.0");
}

#[test]
fn request_text_is_one_line() {
    let msg = build_request(9, "a\nb", build_prompt_params("s", "line1\nline2\r\n"));
    assert!(!msg.contains('\n'));
    let parsed: Value = serde_json::from_str(&msg).unwrap();
    assert_eq!(parsed["params"]["prompt"][0]["text"], "line1\nline2\r\n");
}

#[test]
fn request_line_reads_back_as_request() {
    let msg = build_request(12, "session/new", build_session_new_params("/w"));
    let parsed: Value = serde_json::from_str(&msg).unwrap();
    let expected: Value = serde_json::from_str(
        "{\"jsonrpc\":\"2.0\",\"id\":12,\"method\":\"session/new\",\"params\":{\"cwd\":\"/w\",\"mcpServers\":[]}}",
    )
    .unwrap();
    assert_eq!(parsed, expected);
    assert_eq!(serde_json::to_string(&parsed).unwrap(), msg);
}

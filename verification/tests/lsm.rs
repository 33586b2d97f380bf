use morrows::json::Json;
use morrows::lsm::{
    check_control_key, cleanup_complete, cleanup_terminal_action, control_request_head,
    control_status_error, encode_machine, issued_capability, job_tail_path, lsm_mcp_url,
    parse_control_url, provisioned_session_id, request_has_body, response_separator,
    response_status, run_idempotency_key, run_session_label,
};

fn obj(entries: Vec<(&str, Json)>) -> Json {
    Json::Object(entries.into_iter().map(|(k, v)| (k.to_string(), v)).collect())
}

#[test]
fn control_url_keeps_the_origin_and_requires_plain_http() {
    assert_eq!(
        parse_control_url("http://127.0.0.1:7300/api/control//"),
        Ok(("http://127.0.0.1:7300".to_string(), "127.0.0.1:7300".to_string()))
    );
    assert_eq!(
        parse_control_url("http://127.0.0.1:7300"),
        Ok(("http://127.0.0.1:7300".to_string(), "127.0.0.1:7300".to_string()))
    );
    assert_eq!(
        parse_control_url("https://127.0.0.1:7300"),
        Err("MORROWS_LSM_CONTROL_URL must use loopback HTTP".to_string())
    );
}

#[test]
fn control_keys_are_single_line_and_present() {
    assert_eq!(check_control_key(Some("k")), Ok("k".to_string()));
    assert_eq!(
        check_control_key(Some("a\nb")),
        Err("MORROWS_LSM_CONTROL_KEY is empty or invalid".to_string())
    );
    assert_eq!(
        check_control_key(Some("")),
        Err("MORROWS_LSM_CONTROL_KEY is empty or invalid".to_string())
    );
    assert_eq!(
        check_control_key(None),
        Err("MORROWS_LSM_CONTROL_KEY is required when LSM integration is enabled".to_string())
    );
}

#[test]
fn request_head_is_exact() {
    assert_eq!(
        control_request_head("POST", "/sessions", "127.0.0.1:7300", "key", 12),
        "POST /api/control/sessions HTTP/1.1\r\nHost: 127.0.0.1:7300\r\nX-LSM-Control-Key: key\r\nContent-Type: application/json\r\nContent-Length: 12\r\nConnection: close\r\n\r\n"
    );
    assert!(!request_has_body("GET"));
    assert!(request_has_body("POST"));
}

#[test]
fn responses_are_split_and_their_status_read() {
    let raw = b"HTTP/1.1 201 Created\r\nA: b\r\n\r\n{}".to_vec();
    assert_eq!(response_separator(&raw), Some(26));
    assert_eq!(response_separator(&b"no head".to_vec()), None);
    assert_eq!(response_status("HTTP/1.1 201 Created\r\nA: b"), Some(201));
    assert_eq!(response_status("HTTP/1.1  +404 \r\n"), Some(404));
    assert_eq!(response_status("HTTP/1.1 70000"), None);
    assert_eq!(response_status("HTTP/1.1"), None);
    assert_eq!(response_status(""), None);
    assert_eq!(control_status_error(204, "null"), None);
    assert_eq!(
        control_status_error(409, "\"busy\"").as_deref(),
        Some("LSM control returned 409: \"busy\"")
    );
}

#[test]
fn provisioning_answers_are_read() {
    let resp = obj(vec![("session", obj(vec![("session_id", Json::Str("s1".into()))]))]);
    assert_eq!(provisioned_session_id(&resp), Ok("s1".to_string()));
    assert_eq!(
        provisioned_session_id(&Json::Null),
        Err("LSM did not return a Session ID".to_string())
    );
    let issued = obj(vec![
        ("capability", Json::Str("tok".into())),
        ("capability_id", Json::Str("cap".into())),
    ]);
    assert_eq!(issued_capability(&issued), Ok(("tok".to_string(), "cap".to_string())));
    assert_eq!(
        issued_capability(&obj(vec![("capability", Json::Str("tok".into()))])),
        Err("LSM did not return a capability ID".to_string())
    );
    assert_eq!(
        issued_capability(&obj(vec![])),
        Err("LSM did not return a capability".to_string())
    );
    assert!(cleanup_complete(&obj(vec![("complete", Json::Bool(true))])));
    assert!(!cleanup_complete(&obj(vec![("complete", Json::Str("true".into()))])));
    assert_eq!(cleanup_terminal_action(true), "finish");
    assert_eq!(cleanup_terminal_action(false), "cancel");
    assert_eq!(run_idempotency_key(1), "morrows:run:00000000-0000-0000-0000-000000000001");
    assert_eq!(run_session_label("Fix it"), "Morrows: Fix it");
    assert_eq!(lsm_mcp_url("http://127.0.0.1:1"), "http://127.0.0.1:1/mcp");
}

#[test]
fn machine_names_are_percent_encoded() {
    assert_eq!(encode_machine("local"), "local");
    assert_eq!(encode_machine("a b/ç~"), "a%20b%2F%C3%A7~");
    assert_eq!(
        job_tail_path("s", "j", "m 1"),
        "/sessions/s/jobs/j/tail?machine=m%201&lines=200"
    );
}

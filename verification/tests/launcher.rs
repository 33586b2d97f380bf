use morrows::launcher::{executor_next, ExecutorAction, ExecutorEvent};
use morrows::codex::{extract_codex_error, extract_external_session_ref, find_error_message};
use morrows::json::{parse_json_text, Json};
use morrows::text::text_lines_of;
use morrows::codex::parse_transcript;
use morrows::launch::LaunchProfile;
use morrows::launcher::{
    begin_failure, check_runtime_adapter, codex_args, inject_lsm_config, launch_exit_error,
    launch_path_refusal,
};
use morrows::lsm::AgentBinding;

fn parse(text: &str) -> Json {
    parse_json_text(text).unwrap()
}

fn profile(model: Option<&str>) -> LaunchProfile {
    LaunchProfile {
        id: uuid::Uuid::new_v4().as_u128(),
        name: "codex".into(),
        adapter: "codex_cli".into(),
        agent_instance_id: uuid::Uuid::new_v4().as_u128(),
        program: "/bin/codex".into(),
        codex_home: Some("/tmp/home".into()),
        default_cwd: Some("/tmp/work".into()),
        model: model.map(|m| m.to_string()),
        enabled: true,
        metadata: Json::Object(Vec::new()),
        created_at: 0,
        updated_at: 0,
    }
}

#[test]
fn launch_codex_argv_never_contains_task_text() {
    let profile = profile(Some("gpt-test"));
    let args = codex_args(&profile, "/tmp/work", "/tmp/last", None);
    assert_eq!(args.last().map(String::as_str), Some("-"));
    assert!(!args.join(" ").contains("task"));
    assert!(!args.iter().any(|arg| arg.contains("rm -rf")));
    let resumed = codex_args(&profile, "/tmp/work", "/tmp/last", Some("session-123"));
    assert_eq!(&resumed[0..3], &["exec", "resume", "--json"]);
    assert_eq!(resumed[resumed.len() - 2], "session-123");
    assert!(!resumed.join(" ").contains("task"));
}

#[test]
fn launch_extracts_codex_thread_id_from_jsonl() {
    assert_eq!(
        extract_external_session_ref((
            "{\"type\":\"thread.started\",\"thread_id\":\"abc-123\"}\n{\"type\":\"item\"}"
        ))
        .as_deref(),
        Some("abc-123")
    );
}

#[test]
fn launch_extracts_codex_failure_message_from_jsonl() {
    assert_eq!(
        extract_codex_error((
            "{\"type\":\"error\",\"message\":\"usage limited\"}\n{\"type\":\"turn.failed\",\"error\":{\"message\":\"final failure\"}}"
        ))
        .as_deref(),
        Some("final failure")
    );
}

#[test]
fn codex_argv_for_a_new_launch_is_exact() {
    assert_eq!(
        codex_args(&profile(Some("m1")), "/w", "/l", None),
        vec!["exec", "--json", "--color", "never", "--approve-for-me", "-C", "/w", "-o", "/l", "-m", "m1", "-"]
    );
    assert_eq!(
        codex_args(&profile(None), "/w", "/l", Some("s")),
        vec!["exec", "resume", "--json", "-o", "/l", "s", "-"]
    );
}

#[test]
fn session_refs_skip_blank_values_and_unparsed_lines() {
    assert_eq!(
        extract_external_session_ref((
            "not json\n{\"thread_id\":\"  \",\"nested\":{\"session_id\":\"s-9\"}}"
        ))
        .as_deref(),
        Some("s-9")
    );
    assert_eq!(extract_external_session_ref(("{\"a\":1}")), None);
}

#[test]
fn error_message_prefers_the_typed_error() {
    let v = (parse(r#"{"type":"error","message":"m","error":{"message":"e"}}"#));
    assert_eq!(find_error_message(&v).as_deref(), Some("m"));
    let v = (parse(r#"{"type":"error","message":"   ","error":{"message":"e"}}"#));
    assert_eq!(find_error_message(&v).as_deref(), Some("e"));
}

#[test]
fn lsm_overrides_go_right_after_the_subcommand() {
    let mut args = vec!["exec".to_string(), "--json".to_string(), "-".to_string()];
    let binding = AgentBinding {
        logical_session_id: "s".into(),
        capability: "c".into(),
        mcp_url: "http://127.0.0.1:7/mcp".into(),
    };
    inject_lsm_config(&mut args, &binding);
    assert_eq!(
        args,
        vec![
            "exec",
            "-c",
            "mcp_servers.lsm.url=\"http://127.0.0.1:7/mcp\"",
            "-c",
            "mcp_servers.lsm.env_http_headers.X-LSM-Session-Capability=\"MORROWS_LSM_CAPABILITY\"",
            "--json",
            "-",
        ]
    );
}

#[test]
fn exit_errors_report_codex_or_status() {
    assert_eq!(launch_exit_error(true, Some(0), None), None);
    assert_eq!(
        launch_exit_error(false, Some(7), Some("quota".into())).as_deref(),
        Some("codex: quota")
    );
    assert_eq!(
        launch_exit_error(false, Some(-2), None).as_deref(),
        Some("launcher process exited with -2")
    );
    assert_eq!(
        launch_exit_error(false, None, None).as_deref(),
        Some("launcher process exited with signal")
    );
}

#[test]
fn launch_paths_are_checked_in_order() {
    assert_eq!(
        launch_path_refusal("/w", false, "/p", false, None, false).as_deref(),
        Some("launch cwd is not a directory: /w")
    );
    assert_eq!(
        launch_path_refusal("/w", true, "/p", false, None, false).as_deref(),
        Some("launch program does not exist or is not a file: /p")
    );
    assert_eq!(
        launch_path_refusal("/w", true, "/p", true, Some("/h"), false).as_deref(),
        Some("CODEX_HOME does not exist or is not a directory: /h")
    );
    assert_eq!(launch_path_refusal("/w", true, "/p", true, Some("/h"), true), None);
    assert_eq!(begin_failure("gone"), "begin launch failed: gone");
    assert!(check_runtime_adapter("codex_cli").is_ok());
    assert_eq!(
        check_runtime_adapter("other").unwrap_err(),
        "unsupported launch adapter at runtime: other"
    );
}

#[test]
fn executor_steps_follow_the_process() {
    assert!(matches!(executor_next(true, ExecutorEvent::Spawned { recorded: true }), ExecutorAction::WritePrompt));
    assert!(matches!(
        executor_next(true, ExecutorEvent::Spawned { recorded: false }),
        ExecutorAction::Abandon { revoke: true }
    ));
    match executor_next(true, ExecutorEvent::PromptWritten { error: Some("broken pipe".into()) }) {
        ExecutorAction::Finish { kill, revoke, error, failed, .. } => {
            assert!(kill && !revoke && failed);
            assert_eq!(error.as_deref(), Some("failed writing launcher prompt to stdin: broken pipe"));
        }
        _ => panic!("finish expected"),
    }
    assert!(matches!(
        executor_next(false, ExecutorEvent::StopPolled { stop_requested: false }),
        ExecutorAction::KeepWaiting
    ));
    match executor_next(true, ExecutorEvent::StopPolled { stop_requested: true }) {
        ExecutorAction::Finish { kill, revoke, error, failed, .. } => {
            assert!(kill && revoke && !failed);
            assert_eq!(error.as_deref(), Some("run_cancel_requested"));
        }
        _ => panic!("finish expected"),
    }
    match executor_next(false, ExecutorEvent::WaitFailed { error: "io".into() }) {
        ExecutorAction::Finish { error, failed, .. } => {
            assert!(failed);
            assert_eq!(error.as_deref(), Some("failed waiting for launcher process: io"));
        }
        _ => panic!("finish expected"),
    }
    let exited = ExecutorEvent::Exited {
        success: false,
        exit_code: Some(3),
        session_ref: Some("th".into()),
        codex_error: None,
    };
    match executor_next(false, exited) {
        ExecutorAction::Finish { kill, revoke, exit_code, session_ref, error, failed } => {
            assert!(!kill && !revoke && !failed);
            assert_eq!(exit_code, Some(3));
            assert_eq!(session_ref.as_deref(), Some("th"));
            assert_eq!(error.as_deref(), Some("launcher process exited with 3"));
        }
        _ => panic!("finish expected"),
    }
}

#[test]
fn transcript_lines_split_as_str_lines_does() {
    for text in ["", "a", "a\n", "a\r\nb", "a\n\nb\r\n", "x\r", "\r\n", "a\rb\n"] {
        let expected: Vec<String> = text.lines().map(str::to_owned).collect();
        assert_eq!(text_lines_of(text), expected, "text {:?}", text);
    }
    let events = parse_transcript("{\"a\":1}\r\nnot json\n[true]\n");
    assert_eq!(events.len(), 3);
    assert!(matches!(&events[0], Some(Json::Object(m)) if m.len() == 1 && m[0].0 == "a"));
    assert!(events[1].is_none());
    assert!(matches!(&events[2], Some(Json::Array(items)) if matches!(items[0], Json::Bool(true))));
}

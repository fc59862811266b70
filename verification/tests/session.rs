use book_writer_chat::session::{
    build_codex_exec_args, is_session_log_name, launch_failure_message,
    parse_session_launch_output, LaunchEvent, LaunchOutputError,
};
use chrono::TimeZone;
use serde_json::Value;

fn text_field(value: Option<&Value>) -> Option<String> {
    value.and_then(Value::as_str).map(str::to_string)
}

fn events_of(stdout: &str) -> Vec<Option<LaunchEvent>> {
    stdout
        .lines()
        .map(|line| {
            serde_json::from_str::<Value>(line.trim()).ok().map(|value| {
                let payload = value.get("payload").filter(|p| p.is_object());
                LaunchEvent {
                    event_type: text_field(value.get("type")),
                    payload_id: text_field(payload.and_then(|p| p.get("id"))),
                    payload_timestamp: text_field(payload.and_then(|p| p.get("timestamp"))),
                    thread_id: text_field(value.get("thread_id")),
                }
            })
        })
        .collect()
}

fn parse(stdout: &str) -> Result<(String, Option<i64>), LaunchOutputError> {
    parse_session_launch_output(stdout, &events_of(stdout))
}

#[test]
fn parses_legacy_session_meta_output() {
    let stdout = r#"{"type":"session_meta","payload":{"id":"session-42","timestamp":"2026-05-02T06:14:13Z"}}"#;

    let (session_id, launched_at) = parse(stdout).unwrap();

    assert_eq!(session_id, "session-42");
    assert_eq!(
        launched_at,
        chrono::Utc.with_ymd_and_hms(2026, 5, 2, 6, 14, 13).unwrap().timestamp_nanos_opt()
    );
}

#[test]
fn parses_current_thread_started_output() {
    let stdout = r#"{"type":"thread.started","thread_id":"019de752-b0b3-7e02-875f-3089d4539752"}"#;

    let (session_id, launched_at) = parse(stdout).unwrap();

    assert_eq!(session_id, "019de752-b0b3-7e02-875f-3089d4539752");
    assert_eq!(launched_at, None);
}

#[test]
fn builds_resume_args_with_global_cd_before_exec() {
    let args = build_codex_exec_args(
        &vec!["--profile".to_string(), "test".to_string()],
        "/tmp/workspace",
        Some("session-42"),
        "Continue the draft",
    );

    assert_eq!(
        args,
        vec![
            "--profile",
            "test",
            "-C",
            "/tmp/workspace",
            "exec",
            "resume",
            "session-42",
            "--json",
            "--skip-git-repo-check",
            "Continue the draft",
        ]
    );
}

#[test]
fn builds_fresh_args_without_resume() {
    let args = build_codex_exec_args(&vec![], "/w", None, "Start");
    assert_eq!(args, vec!["-C", "/w", "exec", "--json", "--skip-git-repo-check", "Start"]);
}

#[test]
fn launch_output_errors_are_reported() {
    assert_eq!(parse("not json").unwrap_err(), LaunchOutputError::Malformed);
    assert_eq!(parse("").unwrap_err(), LaunchOutputError::MissingSessionId);
    assert_eq!(
        parse(r#"{"type":"turn.started"}"#).unwrap_err(),
        LaunchOutputError::MissingSessionId
    );
    assert_eq!(
        LaunchOutputError::MissingSessionId.message(),
        "codex launch did not report a session id"
    );
}

#[test]
fn reading_stops_at_the_first_session_id() {
    let stdout = "\n{\"type\":\"thread.started\",\"thread_id\":\"first\"}\nnot json after the id\n";
    assert_eq!(parse(stdout).unwrap(), ("first".to_string(), None));
}

#[test]
fn session_log_names_must_hold_the_id_and_end_in_jsonl() {
    assert!(is_session_log_name("rollout-2026-session-42.jsonl", "session-42"));
    assert!(!is_session_log_name("rollout-2026-session-42.json", "session-42"));
    assert!(!is_session_log_name("rollout-2026-session-43.jsonl", "session-42"));
}

#[test]
fn launch_failure_message_trims_the_error_output() {
    assert_eq!(
        launch_failure_message("Opening", "  boom \n"),
        "codex session launch failed for `Opening`: boom"
    );
}

use book_writer_chat::transcript::{
    build_transcript_snapshot, deduplicate_transcript_messages, message_id,
    validate_session_log_path, ConversationTranscriptSnapshot, NormalizedTranscriptMessage,
    PayloadContent, TranscriptLogRecord, TranscriptMessageSource, TranscriptPayload,
    TranscriptReadError,
};
use chrono::{Duration, TimeZone, Utc};
use serde_json::Value;

const CWD: &str = "/home/writer/books/quiet-lighthouse";

fn text_field(value: Option<&Value>) -> Option<String> {
    value.and_then(Value::as_str).map(str::to_string)
}

fn record_of(value: &Value) -> TranscriptLogRecord {
    let payload = value.get("payload").map(|p| TranscriptPayload {
        payload_type: text_field(p.get("type")),
        message: text_field(p.get("message")),
        role: text_field(p.get("role")),
        phase: text_field(p.get("phase")),
        thread_name: text_field(p.get("thread_name")),
        content: match p.get("content") {
            None => PayloadContent::Missing,
            Some(Value::String(text)) => PayloadContent::Text(text.clone()),
            Some(Value::Array(items)) => {
                PayloadContent::Items(items.iter().map(|item| text_field(item.get("text"))).collect())
            }
            Some(_) => PayloadContent::Other,
        },
    });
    TranscriptLogRecord {
        timestamp: text_field(value.get("timestamp")),
        record_type: text_field(value.get("type")),
        payload,
    }
}

fn snapshot_of(content: &str) -> Result<ConversationTranscriptSnapshot, TranscriptReadError> {
    let parsed: Vec<Option<TranscriptLogRecord>> = content
        .lines()
        .map(|line| serde_json::from_str::<Value>(line.trim()).ok().map(|v| record_of(&v)))
        .collect();
    build_transcript_snapshot(content, &parsed)
}

fn messages_of(content: &str) -> Vec<NormalizedTranscriptMessage> {
    snapshot_of(content).unwrap().messages
}

#[test]
fn validates_session_log_paths_and_parses_transcripts() {
    let created_at = Utc.with_ymd_and_hms(2026, 5, 1, 12, 0, 0).unwrap();
    let latest_at = created_at + Duration::minutes(3);
    let content = format!(
        "{{\"timestamp\":\"{created}\",\"type\":\"session_meta\",\"payload\":{{\"id\":\"session-1\",\"timestamp\":\"{created}\",\"cwd\":\"{cwd}\"}}}}\n{{\"timestamp\":\"{created}\",\"type\":\"event_msg\",\"payload\":{{\"type\":\"thread_name_updated\",\"thread_id\":\"session-1\",\"thread_name\":\"Codex named thread\"}}}}\n{{\"timestamp\":\"{created}\",\"type\":\"event_msg\",\"payload\":{{\"type\":\"user_message\",\"message\":\"# AGENTS.md instructions for /tmp/workspace\"}}}}\n{{\"timestamp\":\"{created}\",\"type\":\"event_msg\",\"payload\":{{\"type\":\"user_message\",\"message\":\"Initialize a new web messenger conversation for this book workspace. Reply with exactly: Session ready.\"}}}}\n{{\"timestamp\":\"{created}\",\"type\":\"response_item\",\"payload\":{{\"type\":\"message\",\"role\":\"assistant\",\"content\":[{{\"type\":\"output_text\",\"text\":\"Session ready.\"}}]}}}}\n{{\"timestamp\":\"{created}\",\"type\":\"response_item\",\"payload\":{{\"type\":\"message\",\"role\":\"user\",\"content\":[{{\"type\":\"input_text\",\"text\":\"Initialize a new web messenger conversation for this book workspace. Reply with exactly: Session ready.\"}}]}}}}\n{{\"timestamp\":\"{created}\",\"type\":\"response_item\",\"payload\":{{\"type\":\"message\",\"role\":\"assistant\",\"content\":[{{\"type\":\"output_text\",\"text\":\"Session ready.\"}}]}}}}\n{{\"timestamp\":\"{latest}\",\"type\":\"event_msg\",\"payload\":{{\"type\":\"user_message\",\"message\":\"Hello\"}}}}\n{{\"timestamp\":\"{latest}\",\"type\":\"event_msg\",\"payload\":{{\"type\":\"token_count\"}}}}\n",
        created = created_at.to_rfc3339(),
        latest = latest_at.to_rfc3339(),
        cwd = CWD,
    );
    let snapshot = snapshot_of(&content).unwrap();
    assert_eq!(snapshot.session_title.as_deref(), Some("Codex named thread"));
    assert_eq!(snapshot.messages.len(), 1);
    assert_eq!(snapshot.messages[0].role, "user");
    assert_eq!(snapshot.messages[0].text, "Hello");
    assert_eq!(snapshot.messages[0].message_id, "msg-000001");

    let home = "/home/writer";
    let log_path = "/home/writer/.codex/sessions/2026/05/01/rollout-2026-05-01T12-00-00-session-1.jsonl";
    assert_eq!(validate_session_log_path(Some(home), log_path).unwrap(), log_path);
    assert!(matches!(
        validate_session_log_path(Some(home), "/home/writer/outside.jsonl"),
        Err(TranscriptReadError::InvalidSessionLogPath)
    ));
}

#[test]
fn transcript_snapshot_falls_back_to_first_user_message_for_exec_sessions_without_titles() {
    let created_at = Utc.with_ymd_and_hms(2026, 5, 2, 11, 13, 19).unwrap();
    let content = format!(
        "{{\"timestamp\":\"{created}\",\"type\":\"session_meta\",\"payload\":{{\"id\":\"session-exec\",\"timestamp\":\"{created}\",\"cwd\":\"{cwd}\"}}}}\n{{\"timestamp\":\"{created}\",\"type\":\"event_msg\",\"payload\":{{\"type\":\"task_started\"}}}}\n{{\"timestamp\":\"{created}\",\"type\":\"event_msg\",\"payload\":{{\"type\":\"user_message\",\"message\":\"в главе про лето добавь дополнительный пункт про пожары на Кипре\"}}}}\n{{\"timestamp\":\"{created}\",\"type\":\"event_msg\",\"payload\":{{\"type\":\"agent_message\",\"message\":\"Working.\"}}}}\n",
        created = created_at.to_rfc3339(),
        cwd = CWD,
    );
    let snapshot = snapshot_of(&content).unwrap();
    assert_eq!(
        snapshot.session_title.as_deref(),
        Some("в главе про лето добавь дополнительный...")
    );
    assert_eq!(snapshot.messages[0].role, "user");
    assert_eq!(
        snapshot.messages[0].text,
        "в главе про лето добавь дополнительный пункт про пожары на Кипре"
    );
}

#[test]
fn transcript_reader_rejects_malformed_logs_but_ignores_trailing_partial_line() {
    let created_at = Utc.with_ymd_and_hms(2026, 5, 1, 12, 0, 0).unwrap();
    let malformed = format!(
        "{{\"timestamp\":\"{}\",\"type\":\"session_meta\",\"payload\":{{\"cwd\":\"{}\"}}}}\nnot-json\n",
        created_at.to_rfc3339(),
        CWD
    );
    assert!(matches!(
        snapshot_of(&malformed),
        Err(TranscriptReadError::MalformedLogLine { line: 2 })
    ));

    let partial = format!(
        "{{\"timestamp\":\"{created}\",\"type\":\"session_meta\",\"payload\":{{\"cwd\":\"{cwd}\"}}}}\n{{\"timestamp\":\"{created}\",\"type\":\"event_msg\",\"payload\":{{\"type\":\"user_message\",\"message\":\"Hello\"}}}}\n{{\"timestamp\":\"{created}\",\"type\":\"event_msg\"",
        created = created_at.to_rfc3339(),
        cwd = CWD,
    );
    let partial_messages = messages_of(&partial);
    assert_eq!(partial_messages.len(), 1);
    assert_eq!(partial_messages[0].text, "Hello");
}

#[test]
fn transcript_reader_deduplicates_adjacent_identical_messages() {
    let created_at = Utc.with_ymd_and_hms(2026, 5, 1, 12, 0, 0).unwrap();
    let duplicate_at = created_at + Duration::minutes(1);
    let content = format!(
        "{{\"timestamp\":\"{created}\",\"type\":\"session_meta\",\"payload\":{{\"cwd\":\"{cwd}\"}}}}\n{{\"timestamp\":\"{duplicate}\",\"type\":\"event_msg\",\"payload\":{{\"type\":\"agent_message\",\"message\":\"Repeated reply\"}}}}\n{{\"timestamp\":\"{duplicate}\",\"type\":\"response_item\",\"payload\":{{\"type\":\"message\",\"role\":\"assistant\",\"content\":[{{\"type\":\"output_text\",\"text\":\"Repeated reply\"}}]}}}}\n{{\"timestamp\":\"{created}\",\"type\":\"event_msg\",\"payload\":{{\"type\":\"user_message\",\"message\":\"Next prompt\"}}}}\n",
        created = created_at.to_rfc3339(),
        duplicate = duplicate_at.to_rfc3339(),
        cwd = CWD,
    );
    let messages = messages_of(&content);
    assert_eq!(messages.len(), 2);
    assert_eq!(messages[0].role, "assistant");
    assert_eq!(messages[0].text, "Repeated reply");
    assert_eq!(messages[0].message_id, "msg-000001");
    assert_eq!(messages[1].role, "user");
    assert_eq!(messages[1].text, "Next prompt");
    assert_eq!(messages[1].message_id, "msg-000002");
}

#[test]
fn transcript_reader_deduplicates_adjacent_event_and_response_messages_with_different_timestamps()
{
    let created_at = Utc.with_ymd_and_hms(2026, 5, 2, 12, 0, 0).unwrap();
    let event_at = created_at + Duration::seconds(1);
    let response_at = created_at + Duration::seconds(2);
    let content = format!(
        "{{\"timestamp\":\"{created}\",\"type\":\"session_meta\",\"payload\":{{\"cwd\":\"{cwd}\"}}}}\n{{\"timestamp\":\"{event}\",\"type\":\"event_msg\",\"payload\":{{\"type\":\"user_message\",\"message\":\"Repeat me\"}}}}\n{{\"timestamp\":\"{response}\",\"type\":\"response_item\",\"payload\":{{\"type\":\"message\",\"role\":\"user\",\"content\":[{{\"type\":\"input_text\",\"text\":\"Repeat me\"}}]}}}}\n{{\"timestamp\":\"{created}\",\"type\":\"event_msg\",\"payload\":{{\"type\":\"agent_message\",\"message\":\"Handled\"}}}}\n",
        created = created_at.to_rfc3339(),
        event = event_at.to_rfc3339(),
        response = response_at.to_rfc3339(),
        cwd = CWD,
    );
    let messages = messages_of(&content);
    assert_eq!(messages.len(), 2);
    assert_eq!(messages[0].role, "user");
    assert_eq!(messages[0].text, "Repeat me");
    assert_eq!(messages[1].role, "assistant");
    assert_eq!(messages[1].text, "Handled");
}

#[test]
fn transcript_reader_filters_environment_context_bootstrap_messages() {
    let created_at = Utc.with_ymd_and_hms(2026, 5, 2, 14, 32, 0).unwrap();
    let latest_at = created_at + Duration::minutes(1);
    let content = format!(
        "{{\"timestamp\":\"{created}\",\"type\":\"session_meta\",\"payload\":{{\"cwd\":\"{cwd}\"}}}}\n{{\"timestamp\":\"{created}\",\"type\":\"event_msg\",\"payload\":{{\"type\":\"user_message\",\"message\":\"<environment_context>\\n<cwd>{cwd}</cwd>\\n<shell>zsh</shell>\\n<current_date>2026-05-02</current_date>\\n<timezone>Asia/Nicosia</timezone>\\n</environment_context>\"}}}}\n{{\"timestamp\":\"{latest}\",\"type\":\"event_msg\",\"payload\":{{\"type\":\"user_message\",\"message\":\"Actual user prompt\"}}}}\n",
        created = created_at.to_rfc3339(),
        latest = latest_at.to_rfc3339(),
        cwd = CWD,
    );
    let messages = messages_of(&content);
    assert_eq!(messages.len(), 1);
    assert_eq!(messages[0].role, "user");
    assert_eq!(messages[0].text, "Actual user prompt");
}

#[test]
fn transcript_reader_filters_internal_messages_even_when_not_leading() {
    let created_at = Utc.with_ymd_and_hms(2026, 5, 2, 14, 32, 0).unwrap();
    let next_at = created_at + Duration::minutes(1);
    let latest_at = created_at + Duration::minutes(2);
    let content = format!(
        "{{\"timestamp\":\"{created}\",\"type\":\"session_meta\",\"payload\":{{\"cwd\":\"{cwd}\"}}}}\n{{\"timestamp\":\"{created}\",\"type\":\"event_msg\",\"payload\":{{\"type\":\"user_message\",\"message\":\"First real prompt\"}}}}\n{{\"timestamp\":\"{next}\",\"type\":\"response_item\",\"payload\":{{\"type\":\"message\",\"role\":\"user\",\"content\":[{{\"type\":\"input_text\",\"text\":\"<environment_context>\\n<cwd>{cwd}</cwd>\\n<shell>zsh</shell>\\n<current_date>2026-05-02</current_date>\\n<timezone>Asia/Nicosia</timezone>\\n</environment_context>\"}}]}}}}\n{{\"timestamp\":\"{latest}\",\"type\":\"event_msg\",\"payload\":{{\"type\":\"user_message\",\"message\":\"Second real prompt\"}}}}\n",
        created = created_at.to_rfc3339(),
        next = next_at.to_rfc3339(),
        latest = latest_at.to_rfc3339(),
        cwd = CWD,
    );
    let messages = messages_of(&content);
    assert_eq!(messages.len(), 2);
    assert_eq!(messages[0].text, "First real prompt");
    assert_eq!(messages[1].text, "Second real prompt");
    assert_eq!(messages[0].message_id, "msg-000001");
    assert_eq!(messages[1].message_id, "msg-000002");
}

#[test]
fn transcript_snapshot_excludes_commentary_messages_and_keeps_last_comment() {
    let created_at = Utc.with_ymd_and_hms(2026, 5, 2, 15, 0, 0).unwrap();
    let commentary_at = created_at + Duration::seconds(1);
    let final_at = created_at + Duration::seconds(2);
    let content = format!(
        "{{\"timestamp\":\"{created}\",\"type\":\"session_meta\",\"payload\":{{\"cwd\":\"{cwd}\"}}}}\n{{\"timestamp\":\"{created}\",\"type\":\"event_msg\",\"payload\":{{\"type\":\"user_message\",\"message\":\"Revise chapter one\"}}}}\n{{\"timestamp\":\"{commentary}\",\"type\":\"response_item\",\"payload\":{{\"type\":\"message\",\"role\":\"assistant\",\"phase\":\"commentary\",\"content\":[{{\"type\":\"output_text\",\"text\":\"Updating outline now.\"}}]}}}}\n{{\"timestamp\":\"{final_at}\",\"type\":\"response_item\",\"payload\":{{\"type\":\"message\",\"role\":\"assistant\",\"content\":[{{\"type\":\"output_text\",\"text\":\"Chapter one revised.\"}}]}}}}\n",
        created = created_at.to_rfc3339(),
        commentary = commentary_at.to_rfc3339(),
        final_at = final_at.to_rfc3339(),
        cwd = CWD,
    );
    let snapshot = snapshot_of(&content).unwrap();
    assert_eq!(snapshot.last_comment.as_deref(), Some("Updating outline now."));
    assert_eq!(snapshot.messages.len(), 2);
    assert_eq!(snapshot.messages[0].text, "Revise chapter one");
    assert_eq!(snapshot.messages[1].text, "Chapter one revised.");
}

#[test]
fn transcript_snapshot_filters_commentary_from_event_and_response_messages() {
    let created_at = Utc.with_ymd_and_hms(2026, 5, 2, 15, 0, 0).unwrap();
    let commentary_event_at = created_at + Duration::seconds(1);
    let commentary_response_at = created_at + Duration::seconds(2);
    let final_at = created_at + Duration::seconds(3);
    let content = format!(
        "{{\"timestamp\":\"{created}\",\"type\":\"session_meta\",\"payload\":{{\"cwd\":\"{cwd}\"}}}}\n{{\"timestamp\":\"{created}\",\"type\":\"event_msg\",\"payload\":{{\"type\":\"user_message\",\"message\":\"Revise chapter one\"}}}}\n{{\"timestamp\":\"{commentary_event}\",\"type\":\"event_msg\",\"payload\":{{\"type\":\"agent_message\",\"message\":\"Updating outline now.\",\"phase\":\"commentary\"}}}}\n{{\"timestamp\":\"{commentary_response}\",\"type\":\"response_item\",\"payload\":{{\"type\":\"message\",\"role\":\"assistant\",\"phase\":\"commentary\",\"content\":[{{\"type\":\"output_text\",\"text\":\"Updating outline now.\"}}]}}}}\n{{\"timestamp\":\"{final_at}\",\"type\":\"response_item\",\"payload\":{{\"type\":\"message\",\"role\":\"assistant\",\"content\":[{{\"type\":\"output_text\",\"text\":\"Chapter one revised.\"}}]}}}}\n",
        created = created_at.to_rfc3339(),
        commentary_event = commentary_event_at.to_rfc3339(),
        commentary_response = commentary_response_at.to_rfc3339(),
        final_at = final_at.to_rfc3339(),
        cwd = CWD,
    );
    let snapshot = snapshot_of(&content).unwrap();
    assert_eq!(snapshot.last_comment.as_deref(), Some("Updating outline now."));
    assert_eq!(snapshot.messages.len(), 2);
    assert_eq!(snapshot.messages[0].text, "Revise chapter one");
    assert_eq!(snapshot.messages[1].text, "Chapter one revised.");
}

#[test]
fn message_ids_are_zero_padded_to_six_digits() {
    assert_eq!(message_id(1), "msg-000001");
    assert_eq!(message_id(42), "msg-000042");
    assert_eq!(message_id(1234567), "msg-1234567");
}

#[test]
fn a_later_thread_name_replaces_an_earlier_one() {
    let content = "{\"type\":\"event_msg\",\"payload\":{\"type\":\"thread_name_updated\",\"thread_name\":\"First\"}}\n{\"type\":\"event_msg\",\"payload\":{\"type\":\"user_message\",\"message\":\"Write more\"}}\n{\"type\":\"event_msg\",\"payload\":{\"type\":\"thread_name_updated\",\"thread_name\":\"Second\"}}\n";
    let snapshot = snapshot_of(content).unwrap();
    assert_eq!(snapshot.session_title.as_deref(), Some("Second"));
    assert_eq!(snapshot.messages.len(), 1);
}

#[test]
fn empty_log_has_no_messages_and_no_title() {
    let snapshot = snapshot_of("").unwrap();
    assert!(snapshot.messages.is_empty());
    assert_eq!(snapshot.session_title, None);
    assert_eq!(snapshot.last_comment, None);
}

#[test]
fn echoes_from_different_sources_collapse_but_same_source_repeats_stay() {
    let event = NormalizedTranscriptMessage {
        message_id: "msg-000001".to_string(),
        role: "user".to_string(),
        text: "Again".to_string(),
        timestamp: Some(1),
        source: TranscriptMessageSource::EventMessage,
    };
    let echo = NormalizedTranscriptMessage {
        message_id: "msg-000002".to_string(),
        role: "user".to_string(),
        text: "Again".to_string(),
        timestamp: Some(2),
        source: TranscriptMessageSource::ResponseItem,
    };
    let repeat = NormalizedTranscriptMessage {
        message_id: "msg-000003".to_string(),
        role: "user".to_string(),
        text: "Again".to_string(),
        timestamp: Some(3),
        source: TranscriptMessageSource::EventMessage,
    };
    let kept = deduplicate_transcript_messages(vec![event, echo, repeat]);
    assert_eq!(kept.len(), 2);
    assert_eq!(kept[0].message_id, "msg-000001");
    assert_eq!(kept[1].message_id, "msg-000003");
}

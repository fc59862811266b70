use book_writer_chat::conversations::{
    begin_submission, conversation_title_from_request, finish_conversation_run,
    generate_conversation_id, latest_message_activity, message_prompt, new_conversation_record,
    requested_conversation_title, uploaded_image_attachment, SubmitError,
    CONVERSATION_STATUS_IN_PROGRESS,
};
use book_writer_chat::registry::{append_conversation_record, initialize_conversation_registry};
use book_writer_chat::transcript::{NormalizedTranscriptMessage, TranscriptMessageSource};

#[test]
fn conversation_title_from_request_truncates_to_six_words_with_ellipsis() {
    assert_eq!(
        conversation_title_from_request(
            "в главе про лето добавь дополнительный пункт про пожары на Кипре"
        ),
        "в главе про лето добавь дополнительный..."
    );
    assert_eq!(conversation_title_from_request("short request"), "short request");
}

#[test]
fn blank_requests_give_the_default_title() {
    assert_eq!(conversation_title_from_request("   "), "New conversation");
    assert_eq!(requested_conversation_title(None), "New conversation");
    assert_eq!(requested_conversation_title(Some("  ")), "New conversation");
    assert_eq!(requested_conversation_title(Some(" Draft ")), "Draft");
}

#[test]
fn conversation_ids_and_records() {
    assert_eq!(generate_conversation_id(1234), "conversation-1234");
    let record = new_conversation_record("conversation-1".to_string(), "book", "T".to_string(), 5);
    assert_eq!(record.status, "pending");
    assert_eq!(record.session_id, None);
    assert_eq!(record.session_log_path, "");
    assert_eq!(record.last_active_at, 5);
}

#[test]
fn submitting_marks_the_conversation_in_progress_and_titles_it() {
    let mut registry = initialize_conversation_registry("book");
    append_conversation_record(
        &mut registry,
        new_conversation_record("c".to_string(), "book", "New conversation".to_string(), 10),
    )
    .unwrap();
    let start = begin_submission(&mut registry, "c", "  write the opening chapter  ", 20).unwrap();
    assert_eq!(start.prompt, "write the opening chapter");
    assert_eq!(start.title, "write the opening chapter");
    assert_eq!(start.previous_session_id, None);
    assert_eq!(registry.conversations[0].status, CONVERSATION_STATUS_IN_PROGRESS);
    assert_eq!(registry.conversations[0].title, "write the opening chapter");
    assert_eq!(registry.conversations[0].last_active_at, 20);

    let busy = begin_submission(&mut registry, "c", "again", 30).err();
    assert_eq!(busy, Some(SubmitError::ConversationBusy));
    assert_eq!(begin_submission(&mut registry, "c", "   ", 30).err(), Some(SubmitError::InvalidMessage));
    assert_eq!(
        begin_submission(&mut registry, "missing", "hi", 30).err(),
        Some(SubmitError::ConversationNotFound)
    );

    let done = finish_conversation_run(
        &mut registry,
        "c",
        Some(("session-1".to_string(), "/h/.codex/sessions/s.jsonl".to_string())),
        40,
    )
    .unwrap();
    assert_eq!(done.status, "ready");
    assert_eq!(done.session_id.as_deref(), Some("session-1"));

    let again = begin_submission(&mut registry, "c", "another request entirely", 50).unwrap();
    assert_eq!(again.title, "write the opening chapter");
    assert_eq!(again.previous_session_id.as_deref(), Some("session-1"));

    let failed = finish_conversation_run(&mut registry, "c", None, 60).unwrap();
    assert_eq!(failed.status, "failed");
}

#[test]
fn prompts_carry_the_uploaded_image_path() {
    assert_eq!(message_prompt(Some(" hi "), None).unwrap(), "hi");
    assert_eq!(
        message_prompt(Some("look"), Some("/w/assets/images/a.png")).unwrap(),
        "look\n/w/assets/images/a.png"
    );
    assert_eq!(message_prompt(None, None).err(), Some(SubmitError::InvalidMessage));
    let attachment = uploaded_image_attachment("c", 0, Some("a.png".to_string()), None, 9);
    assert_eq!(attachment.provider_file_id, "c-0");
    assert_eq!(attachment.file_size, Some(9));
}

#[test]
fn latest_activity_is_the_latest_timestamp() {
    let message = |t: Option<i64>| NormalizedTranscriptMessage {
        message_id: "m".to_string(),
        role: "user".to_string(),
        text: "t".to_string(),
        timestamp: t,
        source: TranscriptMessageSource::EventMessage,
    };
    assert_eq!(latest_message_activity(&vec![message(Some(3)), message(None), message(Some(7))]), Some(7));
    assert_eq!(latest_message_activity(&vec![message(None)]), None);
}

use book_writer_chat::registry::{
    append_conversation_record, attach_conversation_session, initialize_conversation_registry,
    list_conversation_records, mark_conversation_message_activity,
    mark_conversation_prompt_activity, set_conversation_title, update_conversation_status,
    ConversationRegistryError, ConversationRegistryRecord,
};

const MINUTE: i64 = 60_000_000_000;
const CREATED: i64 = 1_777_636_800_000_000_000;

fn record(id: &str, at: i64) -> ConversationRegistryRecord {
    ConversationRegistryRecord {
        conversation_id: id.to_string(),
        book_id: "quiet-lighthouse".to_string(),
        title: "Opening".to_string(),
        session_id: Some("session-1".to_string()),
        session_log_path: "/tmp/unused.jsonl".to_string(),
        created_at: at,
        updated_at: at,
        last_active_at: at,
        status: "active".to_string(),
    }
}

#[test]
fn prompt_and_message_activity_update_last_active_at() {
    let mut registry = initialize_conversation_registry("quiet-lighthouse");
    append_conversation_record(&mut registry, record("conversation-1", CREATED)).unwrap();

    let prompt_at = CREATED + MINUTE;
    let after_prompt =
        mark_conversation_prompt_activity(&mut registry, "conversation-1", prompt_at).unwrap();
    assert_eq!(after_prompt.last_active_at, prompt_at);
    assert_eq!(after_prompt.updated_at, prompt_at);

    let message_at = CREATED + 2 * MINUTE;
    let after_message =
        mark_conversation_message_activity(&mut registry, "conversation-1", message_at).unwrap();
    assert_eq!(after_message.last_active_at, message_at);
    assert_eq!(after_message.updated_at, message_at);
}

#[test]
fn activity_never_moves_backwards() {
    let mut registry = initialize_conversation_registry("b");
    append_conversation_record(&mut registry, record("c", CREATED)).unwrap();
    let earlier = mark_conversation_prompt_activity(&mut registry, "c", CREATED - MINUTE).unwrap();
    assert_eq!(earlier.last_active_at, CREATED);
}

#[test]
fn duplicate_and_missing_conversations_are_refused() {
    let mut registry = initialize_conversation_registry("b");
    append_conversation_record(&mut registry, record("c", CREATED)).unwrap();
    let dup = append_conversation_record(&mut registry, record("c", CREATED)).unwrap_err();
    assert_eq!(
        dup,
        ConversationRegistryError::DuplicateConversation { conversation_id: "c".to_string() }
    );
    let missing = update_conversation_status(&mut registry, "nope", "ready", None).unwrap_err();
    assert_eq!(
        missing,
        ConversationRegistryError::ConversationNotFound { conversation_id: "nope".to_string() }
    );
    assert_eq!(registry.conversations.len(), 1);
}

#[test]
fn list_orders_by_last_activity_descending() {
    let mut registry = initialize_conversation_registry("b");
    append_conversation_record(&mut registry, record("old", CREATED)).unwrap();
    append_conversation_record(&mut registry, record("new", CREATED + MINUTE)).unwrap();
    mark_conversation_message_activity(&mut registry, "old", CREATED + 5 * MINUTE).unwrap();
    let ids: Vec<String> = list_conversation_records(&registry)
        .into_iter()
        .map(|r| r.conversation_id)
        .collect();
    assert_eq!(ids, vec!["old".to_string(), "new".to_string()]);
}

#[test]
fn sessions_titles_and_status_are_recorded() {
    let mut registry = initialize_conversation_registry("b");
    append_conversation_record(&mut registry, record("c", CREATED)).unwrap();
    let attached = attach_conversation_session(
        &mut registry,
        "c",
        "session-9",
        "/home/u/.codex/sessions/x.jsonl",
        "ready",
        Some(CREATED + MINUTE),
    )
    .unwrap();
    assert_eq!(attached.session_id.as_deref(), Some("session-9"));
    assert_eq!(attached.status, "ready");
    assert_eq!(attached.last_active_at, CREATED + MINUTE);
    let titled = set_conversation_title(&mut registry, "c", "New title", CREATED + 2 * MINUTE)
        .unwrap();
    assert_eq!(titled.title, "New title");
    assert_eq!(titled.updated_at, CREATED + 2 * MINUTE);
    assert_eq!(titled.last_active_at, CREATED + MINUTE);
}

use book_writer_chat::database::Database;
use book_writer_chat::links::open_token;
use book_writer_chat::messaging::{
    bot_name_for, chat_reader_link, conversation_title, ignored, init_reply, message_gate, reply,
    status_flow, status_message, Metrics, CHAT_LINK_TTL_HOURS, MAX_MESSAGE_BYTES,
};
use book_writer_chat::models::{BookStatus, JobStatus, NormalizedMessage, Provider};

fn message(text: &str, mentions_bot: bool) -> NormalizedMessage {
    NormalizedMessage {
        provider: Provider::Max,
        provider_chat_id: "max:9".to_string(),
        message_id: "1".to_string(),
        timestamp: 0,
        raw_text: text.to_string(),
        attachments: Vec::new(),
        mentions_bot,
        sender_display_name: "Bob".to_string(),
    }
}

#[test]
fn ignores_non_bot_messages() {
    let response = message_gate(&message("hello", false)).unwrap();
    assert!(!response.handled);
    assert!(response.ignored);
    assert!(response.notification.is_none());
    assert!(message_gate(&message("hello", true)).is_none());
}

#[test]
fn oversized_messages_are_answered_as_too_large() {
    let long = "x".repeat(MAX_MESSAGE_BYTES + 1);
    let response = message_gate(&message(&long, false)).unwrap();
    assert!(response.handled);
    assert_eq!(response.notification.unwrap().message, "Message too large for processing.");
    let multibyte = "ж".repeat(2001);
    assert!(message_gate(&message(&multibyte, true)).is_some());
    let exact = "x".repeat(MAX_MESSAGE_BYTES);
    assert!(message_gate(&message(&exact, true)).is_none());
}

#[test]
fn replies_go_back_to_the_same_chat() {
    let response = reply(&message("hi", true), "answer", Some("link".to_string()));
    let notification = response.notification.unwrap();
    assert_eq!(notification.provider, Provider::Max);
    assert_eq!(notification.provider_chat_id, "max:9");
    assert_eq!(notification.message, "answer");
    assert_eq!(notification.reader_url.as_deref(), Some("link"));
    assert!(ignored().ignored);
    assert_eq!(conversation_title(&message("hi", true)), "max:9 conversation");
}

#[test]
fn status_lines_name_book_revision_and_job() {
    assert_eq!(
        status_message(BookStatus::Active, Some("revision-3"), Some(JobStatus::TimedOut)),
        "Book status: Active. Latest revision: revision-3. Latest job: TimedOut."
    );
    assert_eq!(
        status_message(BookStatus::Blocked, None, None),
        "Book status: Blocked. Latest revision: none. Latest job: none."
    );
}

#[test]
fn status_command_without_a_book_asks_for_init() {
    let db = Database::new();
    let response = status_flow(&db, "max:9", &message("/status", true), "s", "https://b", 1_700_000_000);
    let notification = response.notification.unwrap();
    assert_eq!(notification.message, "No book exists for this conversation yet. Run init first.");
    assert!(notification.reader_url.is_none());
}

#[test]
fn status_command_reports_the_book_with_a_reader_link() {
    let mut db = Database::new();
    let conversation = db.resolve_or_create_conversation(Provider::Max, "max:9", "T".to_string(), 1);
    let book = db.create_book(&conversation.conversation_id, "T".to_string(), "/w".to_string(), 1);
    let response = status_flow(&db, "max:9", &message("/status", true), "s", "https://b", 1_700_000_000);
    let notification = response.notification.unwrap();
    assert_eq!(notification.message, "Book status: Active. Latest revision: none. Latest job: none.");
    let link = notification.reader_url.unwrap();
    let token = link.strip_prefix("https://b/reader/").unwrap();
    let claims: serde_json::Value = serde_json::from_slice(&open_token("s", token).unwrap()).unwrap();
    assert_eq!(claims["book_id"], book.book_id.as_str());
    assert_eq!(claims["exp"], 1_700_000_000i64 + CHAT_LINK_TTL_HOURS * 3600);
}

#[test]
fn init_reply_links_the_new_book() {
    let response = init_reply(&message("/init", true), "book-1", "s", "https://b", 0);
    let notification = response.notification.unwrap();
    assert_eq!(notification.message, "Book workspace is ready for this conversation.");
    assert!(notification.reader_url.unwrap().starts_with("https://b/reader/"));
    assert_eq!(chat_reader_link("https://b", "t"), "https://b/reader/t");
}

#[test]
fn bots_are_named_per_provider() {
    assert_eq!(bot_name_for(Provider::Telegram, "tg", "mx"), "tg");
    assert_eq!(bot_name_for(Provider::Max, "tg", "mx"), "mx");
    assert_eq!(bot_name_for(Provider::App, "tg", "mx"), "");
}

#[test]
fn every_increment_through_the_service_counter_shows_in_render() {
    let mut metrics = Metrics::default();
    metrics.inc_inbound();
    metrics.inc_success();
    metrics.inc_success();
    let shared = &mut metrics;
    shared.inc_failure();
    assert_eq!(metrics.render(), "inbound_messages 1\nsuccessful_jobs 2\nfailed_jobs 1\n");
}

#[test]
fn metrics_count_and_render() {
    let mut metrics = Metrics::default();
    metrics.inc_inbound();
    metrics.inc_inbound();
    metrics.inc_success();
    metrics.inc_failure();
    assert_eq!(metrics.inbound_messages, 2);
    assert_eq!(metrics.render(), "inbound_messages 2\nsuccessful_jobs 1\nfailed_jobs 1\n");
    let mut full = Metrics { inbound_messages: u64::MAX, successful_jobs: 0, failed_jobs: 0 };
    full.inc_inbound();
    assert_eq!(full.inbound_messages, 0);
}

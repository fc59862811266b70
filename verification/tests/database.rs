use book_writer_chat::database::{normalize_conversation_id, Database, RepositoryError};
use book_writer_chat::models::{
    CommandKind, JobStatus, Provider, RepositoryBindingStatus, RevisionRenderStatus,
};

fn seeded() -> (Database, String, String, String) {
    let mut repo = Database::new();
    let conversation =
        repo.resolve_or_create_conversation(Provider::Telegram, "telegram:123", "Test".to_string(), 1);
    let book = repo.create_book(
        &conversation.conversation_id,
        "Draft".to_string(),
        "books-data/telegram-123".to_string(),
        2,
    );
    let session = repo.open_session(&conversation.conversation_id, &book.book_id, 3);
    (repo, conversation.conversation_id, book.book_id, session.session_id)
}

#[test]
fn enforces_one_book_per_conversation() {
    let mut repo = Database::new();
    let conversation =
        repo.resolve_or_create_conversation(Provider::Telegram, "telegram:123", "Test".to_string(), 1);
    let one = repo.create_book(&conversation.conversation_id, "One".to_string(), "a".to_string(), 2);
    let two = repo.create_book(&conversation.conversation_id, "Two".to_string(), "b".to_string(), 3);
    assert_eq!(one.book_id, two.book_id);
    assert_eq!(two.title, "One");
}

#[test]
fn normalizes_conversation_identity_per_provider() {
    let mut repo = Database::new();
    let telegram_one =
        repo.resolve_or_create_conversation(Provider::Telegram, "123", "Telegram".to_string(), 1);
    let telegram_two = repo.resolve_or_create_conversation(
        Provider::Telegram,
        "telegram:123",
        "Telegram".to_string(),
        2,
    );
    let max_one = repo.resolve_or_create_conversation(Provider::Max, "123", "MAX".to_string(), 3);

    assert_eq!(telegram_one.conversation_id, "telegram:123");
    assert_eq!(telegram_one.conversation_id, telegram_two.conversation_id);
    assert_eq!(telegram_one.provider_chat_id, "telegram:123");
    assert_eq!(max_one.conversation_id, "max:123");
    assert_eq!(repo.conversations.len(), 2);
    assert_eq!(normalize_conversation_id(&Provider::App, "app:9"), "app:9");
    assert_eq!(normalize_conversation_id(&Provider::App, "9"), "app:9");
}

#[test]
fn stores_and_queries_all_domain_records() {
    let (mut repo, conversation_id, book_id, session_id) = seeded();
    let job = repo.create_job(
        &book_id,
        &conversation_id,
        &session_id,
        "msg-1",
        CommandKind::Authoring,
        "prompt".to_string(),
    );
    let revision =
        repo.create_revision(&book_id, &job.job_id, "Summary".to_string(), RevisionRenderStatus::Ready, 4);
    let binding = repo.upsert_repository_binding(
        &book_id,
        "github".to_string(),
        "https://github.com/example/book".to_string(),
        "book".to_string(),
        RepositoryBindingStatus::Linked,
        5,
    );

    assert_eq!(repo.get_conversation(&conversation_id).unwrap().conversation_id, conversation_id);
    assert_eq!(repo.find_book_by_conversation(&conversation_id).unwrap().book_id, book_id);
    assert_eq!(repo.get_session(&session_id).unwrap().session_id, session_id);
    assert_eq!(repo.get_job(&job.job_id).unwrap().job_id, job.job_id);
    assert_eq!(repo.get_revision(&revision.revision_id).unwrap().revision_id, revision.revision_id);
    assert_eq!(
        repo.get_repository_binding_for_book(&book_id).unwrap().repository_binding_id,
        binding.repository_binding_id
    );
    assert!(repo.get_book("missing").is_none());
}

#[test]
fn job_lifecycle_transitions_cover_received_accepted_running_and_succeeded() {
    let (mut repo, conversation_id, book_id, session_id) = seeded();
    let received = repo.create_job(
        &book_id,
        &conversation_id,
        &session_id,
        "msg-1",
        CommandKind::Authoring,
        "prompt".to_string(),
    );
    assert_eq!(received.status, JobStatus::Received);
    assert!(received.started_at.is_none());
    assert!(received.finished_at.is_none());

    let accepted = repo
        .update_job_status(&received.job_id, JobStatus::Accepted, None, None, None, 10)
        .unwrap();
    assert_eq!(accepted.status, JobStatus::Accepted);
    assert!(accepted.started_at.is_some());
    assert!(accepted.finished_at.is_none());

    let running = repo
        .update_job_status(&received.job_id, JobStatus::Running, None, None, None, 11)
        .unwrap();
    assert_eq!(running.status, JobStatus::Running);
    assert!(running.started_at.is_some());
    assert!(running.finished_at.is_none());

    let succeeded = repo
        .update_job_status(
            &received.job_id,
            JobStatus::Succeeded,
            Some("done".to_string()),
            Some(vec!["book.yaml".to_string()]),
            None,
            12,
        )
        .unwrap();
    assert_eq!(succeeded.status, JobStatus::Succeeded);
    assert!(succeeded.started_at.is_some());
    assert!(succeeded.finished_at.is_some());
    assert_eq!(succeeded.changed_files, vec!["book.yaml".to_string()]);
}

#[test]
fn job_lifecycle_transitions_cover_failed_and_timed_out() {
    let (mut repo, conversation_id, book_id, session_id) = seeded();
    let failed = repo.create_job(
        &book_id,
        &conversation_id,
        &session_id,
        "msg-1",
        CommandKind::Authoring,
        "prompt".to_string(),
    );
    let failed = repo
        .update_job_status(
            &failed.job_id,
            JobStatus::Failed,
            Some("failed".to_string()),
            None,
            Some("stderr".to_string()),
            20,
        )
        .unwrap();
    assert_eq!(failed.status, JobStatus::Failed);
    assert!(failed.started_at.is_some());
    assert!(failed.finished_at.is_some());
    assert_eq!(failed.failure_reason.as_deref(), Some("stderr"));

    let timed_out = repo.create_job(
        &book_id,
        &conversation_id,
        &session_id,
        "msg-2",
        CommandKind::Authoring,
        "prompt".to_string(),
    );
    let timed_out = repo
        .update_job_status(
            &timed_out.job_id,
            JobStatus::TimedOut,
            Some("timed out".to_string()),
            None,
            Some("timeout".to_string()),
            21,
        )
        .unwrap();
    assert_eq!(timed_out.status, JobStatus::TimedOut);
    assert!(timed_out.started_at.is_some());
    assert!(timed_out.finished_at.is_some());
    assert_eq!(timed_out.failure_reason.as_deref(), Some("timeout"));
}

#[test]
fn updating_an_unknown_job_is_an_error() {
    let mut repo = Database::new();
    let result = repo.update_job_status("job-9", JobStatus::Running, None, None, None, 1);
    assert!(matches!(result, Err(RepositoryError::MissingJob)));
}

#[test]
fn started_at_is_kept_once_set() {
    let (mut repo, conversation_id, book_id, session_id) = seeded();
    let job = repo.create_job(&book_id, &conversation_id, &session_id, "m", CommandKind::Authoring, "p".to_string());
    let first = repo.update_job_status(&job.job_id, JobStatus::Accepted, None, None, None, 30).unwrap();
    let later = repo.update_job_status(&job.job_id, JobStatus::Running, None, None, None, 40).unwrap();
    assert_eq!(first.started_at, Some(30));
    assert_eq!(later.started_at, Some(30));
}

#[test]
fn latest_revision_and_job_are_the_newest_for_the_book() {
    let (mut repo, conversation_id, book_id, session_id) = seeded();
    assert!(repo.latest_revision_for_book(&book_id).is_none());
    let job1 = repo.create_job(&book_id, &conversation_id, &session_id, "m1", CommandKind::Authoring, "p".to_string());
    let rev1 = repo.create_revision(&book_id, &job1.job_id, "one".to_string(), RevisionRenderStatus::Ready, 100);
    let job2 = repo.create_job(&book_id, &conversation_id, &session_id, "m2", CommandKind::Authoring, "p".to_string());
    let rev2 = repo.create_revision(&book_id, &job2.job_id, "two".to_string(), RevisionRenderStatus::Ready, 200);
    repo.update_job_status(&job2.job_id, JobStatus::Accepted, None, None, None, 150).unwrap();
    assert_ne!(rev1.revision_id, rev2.revision_id);
    assert_eq!(repo.latest_revision_for_book(&book_id).unwrap().revision_id, rev2.revision_id);
    assert_eq!(repo.latest_job_for_book(&book_id).unwrap().job_id, job2.job_id);
}

#[test]
fn identifiers_carry_prefix_and_counter() {
    let mut repo = Database::new();
    assert_eq!(repo.next_id("book"), "book-1");
    assert_eq!(repo.next_id("job"), "job-2");
}

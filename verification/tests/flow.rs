use book_writer_chat::database::Database;
use book_writer_chat::flow::{
    execution_outcome, finalize_authoring, launcher_failure, localized_text, needs_render,
    revision_summary, same_path, seed_initial_records, start_authoring_job, workspace_mapping_ok,
    ExecutionOutcome,
};
use book_writer_chat::messaging::Metrics;
use book_writer_chat::models::{BookLanguage, CommandKind, JobStatus, NormalizedMessage, Provider};

fn message() -> NormalizedMessage {
    NormalizedMessage {
        provider: Provider::Telegram,
        provider_chat_id: "telegram:1".to_string(),
        message_id: "m-1".to_string(),
        timestamp: 5,
        raw_text: "@bookbot write".to_string(),
        attachments: Vec::new(),
        mentions_bot: true,
        sender_display_name: "Alice".to_string(),
    }
}

fn outcome(exit_code: Option<i32>, timed_out: bool) -> ExecutionOutcome {
    ExecutionOutcome {
        exit_code,
        timed_out,
        stdout: "  wrote chapter  ".to_string(),
        stderr: "boom".to_string(),
    }
}

fn started(language: BookLanguage) -> (Database, String, String) {
    let mut db = Database::new();
    let conversation =
        db.resolve_or_create_conversation(Provider::Telegram, "telegram:1", "T".to_string(), 1);
    let book = db.create_book(&conversation.conversation_id, "T".to_string(), "/w".to_string(), 2);
    let start = start_authoring_job(
        &mut db,
        &conversation.conversation_id,
        &book.book_id,
        &message(),
        "prompt".to_string(),
        language,
        3,
    );
    (db, book.book_id, start.job_id)
}

fn finish(
    language: BookLanguage,
    outcome: &ExecutionOutcome,
    render: Option<Result<(), String>>,
) -> (Database, Metrics, String, Option<(String, Option<String>)>) {
    let (mut db, book_id, job_id) = started(language);
    let mut metrics = Metrics::default();
    let response = finalize_authoring(
        &mut db,
        &mut metrics,
        &book_id,
        &job_id,
        &message(),
        language,
        outcome,
        vec!["content/chapters/001-opening.md".to_string()],
        render,
        10,
        "secret",
        "https://books.example.com",
        1_700_000_000,
    )
    .unwrap();
    let notification = response.notification.map(|n| (n.message, n.reader_url));
    (db, metrics, job_id, notification)
}

#[test]
fn authoring_start_runs_the_job() {
    let (db, _, job_id) = started(BookLanguage::English);
    let job = db.get_job(&job_id).unwrap();
    assert_eq!(job.status, JobStatus::Running);
    assert_eq!(job.command_kind, CommandKind::Authoring);
    assert_eq!(job.started_at, Some(3));
    assert_eq!(job.user_facing_message.as_deref(), Some("Job running"));
    assert_eq!(job.source_message_id, "m-1");
}

#[test]
fn successful_run_stores_a_revision_and_links_the_reader() {
    let (db, metrics, job_id, notification) = finish(BookLanguage::English, &outcome(Some(0), false), Some(Ok(())));
    let job = db.get_job(&job_id).unwrap();
    assert_eq!(job.status, JobStatus::Succeeded);
    assert_eq!(job.finished_at, Some(10));
    assert_eq!(job.changed_files, vec!["content/chapters/001-opening.md".to_string()]);
    assert_eq!(metrics.successful_jobs, 1);
    assert_eq!(metrics.failed_jobs, 0);
    let (text, link) = notification.unwrap();
    assert_eq!(text, "Draft updated successfully.");
    assert!(link.unwrap().starts_with("https://books.example.com/reader/"));
    let revision = db.latest_revision_for_book(&job.book_id).unwrap();
    assert_eq!(
        revision.summary,
        "Updated files: content/chapters/001-opening.md. Executor stdout: wrote chapter"
    );
}

#[test]
fn a_successful_run_adds_one_revision_and_touches_the_book() {
    let (mut db, book_id, job_id) = started(BookLanguage::English);
    let revisions_before = db.revisions.len();
    let mut metrics = Metrics::default();
    finalize_authoring(
        &mut db,
        &mut metrics,
        &book_id,
        &job_id,
        &message(),
        BookLanguage::English,
        &outcome(Some(0), false),
        Vec::new(),
        Some(Ok(())),
        42,
        "secret",
        "https://books.example.com",
        1_700_000_000,
    )
    .unwrap();
    assert_eq!(db.revisions.len(), revisions_before + 1);
    assert_eq!(db.get_book(&book_id).unwrap().updated_at, 42);
    assert_eq!(db.get_book(&book_id).unwrap().created_at, 2);
}

#[test]
fn authoring_failure_marks_job_failed_without_revision() {
    let (db, metrics, job_id, notification) = finish(BookLanguage::English, &outcome(Some(1), false), None);
    let job = db.get_job(&job_id).unwrap();
    assert_eq!(job.status, JobStatus::Failed);
    assert_eq!(job.failure_reason.as_deref(), Some("boom"));
    assert!(db.latest_revision_for_book(&job.book_id).is_none());
    assert_eq!(metrics.failed_jobs, 1);
    assert_eq!(notification.unwrap(), ("The writing job failed. Please try again.".to_string(), None));
}

#[test]
fn authoring_timeout_marks_job_timed_out_without_revision() {
    let (db, _, job_id, notification) = finish(BookLanguage::English, &outcome(None, true), None);
    let job = db.get_job(&job_id).unwrap();
    assert_eq!(job.status, JobStatus::TimedOut);
    assert!(db.latest_revision_for_book(&job.book_id).is_none());
    assert_eq!(notification.unwrap().0, "The writing job timed out before finishing.");
}

#[test]
fn render_failure_fails_the_job_with_the_reason() {
    let (db, _, job_id, notification) =
        finish(BookLanguage::Russian, &outcome(Some(0), false), Some(Err("bad image".to_string())));
    let job = db.get_job(&job_id).unwrap();
    assert_eq!(job.status, JobStatus::Failed);
    assert_eq!(job.failure_reason.as_deref(), Some("render refresh failure: bad image"));
    assert_eq!(
        notification.unwrap().0,
        "Черновик изменился, но читательский вид не удалось обновить."
    );
}

#[test]
fn launcher_failure_marks_job_failed_distinctly() {
    let (mut db, _, job_id) = started(BookLanguage::English);
    let mut metrics = Metrics::default();
    let response = launcher_failure(
        &mut db,
        &mut metrics,
        &job_id,
        BookLanguage::English,
        Vec::new(),
        "spawn error",
        &message(),
        9,
    )
    .unwrap();
    let job = db.get_job(&job_id).unwrap();
    assert_eq!(job.status, JobStatus::Failed);
    assert_eq!(job.failure_reason.as_deref(), Some("launcher failure: spawn error"));
    assert_eq!(
        job.user_facing_message.as_deref(),
        Some("The writing job failed before it could start.")
    );
    assert_eq!(
        response.notification.unwrap().message,
        "The writing job could not be started. Please try again."
    );
    assert!(launcher_failure(&mut db, &mut metrics, "job-404", BookLanguage::English, Vec::new(), "e", &message(), 9).is_err());
}

#[test]
fn outcomes_of_a_timeout_note_it() {
    let timed_out = execution_outcome(None, String::new(), String::new());
    assert!(timed_out.timed_out);
    assert_eq!(timed_out.stderr, "codex execution timed out");
    assert!(!needs_render(&timed_out));
    let exited = execution_outcome(Some(Some(0)), "out".to_string(), String::new());
    assert!(!exited.timed_out);
    assert!(needs_render(&exited));
    assert_eq!(exited.stderr, "");
}

#[test]
fn revision_summaries() {
    let quiet = ExecutionOutcome { exit_code: Some(0), timed_out: false, stdout: " ".to_string(), stderr: String::new() };
    assert_eq!(revision_summary(&Vec::new(), &quiet), "Workspace updated with no detected file delta");
    assert_eq!(
        revision_summary(&vec!["a.md".to_string(), "b.md".to_string()], &quiet),
        "Updated files: a.md, b.md"
    );
}

#[test]
fn workspace_mapping_compares_paths_by_component() {
    assert!(same_path("/data/books/a/", "/data/books/a"));
    assert!(!same_path("/data/books/a", "/data/books/b"));
    assert!(workspace_mapping_ok("/w/a", "/w/a", "/w/a/"));
    assert!(!workspace_mapping_ok("/w/a", "/w/a", "/w/b"));
}

#[test]
fn initial_records_hold_a_succeeded_init_job() {
    let mut db = Database::new();
    let conversation = db.resolve_or_create_conversation(Provider::Max, "max:7", "T".to_string(), 1);
    let book = db.create_book(&conversation.conversation_id, "T".to_string(), "/w".to_string(), 1);
    let job_id = seed_initial_records(&mut db, &book.book_id, &conversation.conversation_id, "m", BookLanguage::English, 4);
    let job = db.get_job(&job_id).unwrap();
    assert_eq!(job.command_kind, CommandKind::Init);
    assert_eq!(job.status, JobStatus::Succeeded);
    assert_eq!(job.user_facing_message.as_deref(), Some("Initial draft created."));
    assert_eq!(localized_text(BookLanguage::English).job_accepted, "Job accepted");
}

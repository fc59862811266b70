//! The authoring flow: the records an authoring request creates and moves along, and
//! what the author is told at each outcome. The agent run, the workspace snapshots and the
//! render happen around these steps; their results come in as arguments.
use vstd::prelude::*;

use crate::database::{
    Book, BookView, Database, JobView, RepositoryError, RevisionView, book_of, id_text, is_terminal, job_after_update, lookup,
    text_views,
};
use crate::links::{issue_token_at, reader_url, reader_url_spec, token_spec};
use crate::messaging::{Metrics, MessageApiResponse, bump, is_reply, reply};
use crate::models::{BookLanguage, CommandKind, JobStatus, NormalizedMessage, RevisionRenderStatus};
use crate::paths::{components, component_views, path_components, Component};
use crate::text::{
    chars_eq, chars_of, join_first, join_seqs, push_all, push_str, string_of, trim, trim_seq,
    views,
};

verus! {

broadcast use vstd::string::group_string_axioms;

/// What the agent is asked to do: run in a workspace on a prompt.
#[derive(Debug, Clone)]
pub struct ExecutionRequest {
    pub workspace: String,
    pub prompt: String,
}

/// How an agent run ended.
#[derive(Debug, Clone)]
pub struct ExecutionOutcome {
    pub exit_code: Option<i32>,
    pub timed_out: bool,
    pub stdout: String,
    pub stderr: String,
}

/// The outcome of an agent run: exited with `exit` (its code, if it had one), or timed
/// out (`None`), in which case an empty error output is replaced by a note of the
/// timeout.
pub fn execution_outcome(exit: Option<Option<i32>>, stdout: String, stderr: String) -> (r:
    ExecutionOutcome)
    ensures
        r.stdout@ == stdout@,
        match exit {
            Some(code) => !r.timed_out && r.exit_code == code && r.stderr@ == stderr@,
            None => r.timed_out && r.exit_code is None && r.stderr@ == if stderr@.len() == 0 {
                "codex execution timed out"@
            } else {
                stderr@
            },
        },
{
    match exit {
        Some(code) => ExecutionOutcome { exit_code: code, timed_out: false, stdout, stderr },
        None => {
            let stderr = if stderr.as_str().as_bytes().len() == 0 {
                "codex execution timed out".to_string()
            } else {
                proof {
                    lemma_utf8_nonempty(stderr@);
                }
                stderr
            };
            ExecutionOutcome { exit_code: None, timed_out: true, stdout, stderr }
        },
    }
}

proof fn lemma_utf8_nonempty(s: Seq<char>)
    ensures
        s.len() > 0 ==> vstd::utf8::encode_utf8(s).len() > 0,
{
    if s.len() > 0 {
        assert(vstd::utf8::encode_scalar(s[0] as u32).len() >= 1);
    }
}

/// The texts of the authoring flow in one language.
pub struct LocalizedAuthoringText {
    pub job_accepted: &'static str,
    pub job_running: &'static str,
    pub job_failed_to_start: &'static str,
    pub job_could_not_start: &'static str,
    pub job_timed_out: &'static str,
    pub job_timed_out_before_finish: &'static str,
    pub job_failed: &'static str,
    pub job_failed_try_again: &'static str,
    pub render_refresh_failed_job: &'static str,
    pub render_refresh_failed_user: &'static str,
    pub draft_updated_job: &'static str,
    pub draft_updated_user: &'static str,
    pub initial_draft_created: &'static str,
}

/// The texts of the authoring flow, as sequences.
pub struct AuthoringTexts {
    pub job_accepted: Seq<char>,
    pub job_running: Seq<char>,
    pub job_failed_to_start: Seq<char>,
    pub job_could_not_start: Seq<char>,
    pub job_timed_out: Seq<char>,
    pub job_timed_out_before_finish: Seq<char>,
    pub job_failed: Seq<char>,
    pub job_failed_try_again: Seq<char>,
    pub render_refresh_failed_job: Seq<char>,
    pub render_refresh_failed_user: Seq<char>,
    pub draft_updated_job: Seq<char>,
    pub draft_updated_user: Seq<char>,
    pub initial_draft_created: Seq<char>,
}

impl View for LocalizedAuthoringText {
    type V = AuthoringTexts;

    open spec fn view(&self) -> AuthoringTexts {
        AuthoringTexts {
            job_accepted: self.job_accepted@,
            job_running: self.job_running@,
            job_failed_to_start: self.job_failed_to_start@,
            job_could_not_start: self.job_could_not_start@,
            job_timed_out: self.job_timed_out@,
            job_timed_out_before_finish: self.job_timed_out_before_finish@,
            job_failed: self.job_failed@,
            job_failed_try_again: self.job_failed_try_again@,
            render_refresh_failed_job: self.render_refresh_failed_job@,
            render_refresh_failed_user: self.render_refresh_failed_user@,
            draft_updated_job: self.draft_updated_job@,
            draft_updated_user: self.draft_updated_user@,
            initial_draft_created: self.initial_draft_created@,
        }
    }
}

/// The texts of the authoring flow in `language`.
pub open spec fn texts_for(language: BookLanguage) -> AuthoringTexts {
    match language {
        BookLanguage::English => AuthoringTexts {
            job_accepted: "Job accepted"@,
            job_running: "Job running"@,
            job_failed_to_start: "The writing job failed before it could start."@,
            job_could_not_start: "The writing job could not be started. Please try again."@,
            job_timed_out: "The writing job timed out."@,
            job_timed_out_before_finish: "The writing job timed out before finishing."@,
            job_failed: "The writing job failed."@,
            job_failed_try_again: "The writing job failed. Please try again."@,
            render_refresh_failed_job: "The draft changed, but render refresh failed."@,
            render_refresh_failed_user:
                "The draft changed, but the reader view could not be refreshed."@,
            draft_updated_job: "The draft was updated successfully."@,
            draft_updated_user: "Draft updated successfully."@,
            initial_draft_created: "Initial draft created."@,
        },
        BookLanguage::Russian => AuthoringTexts {
            job_accepted: "Задача принята"@,
            job_running: "Задача выполняется"@,
            job_failed_to_start: "Задачу написания не удалось запустить."@,
            job_could_not_start: "Задачу написания не удалось запустить. Попробуйте еще раз."@,
            job_timed_out: "Задача написания не завершилась вовремя."@,
            job_timed_out_before_finish: "Задача написания не успела завершиться."@,
            job_failed: "Задача написания завершилась с ошибкой."@,
            job_failed_try_again: "Задача написания завершилась с ошибкой. Попробуйте еще раз."@,
            render_refresh_failed_job: "Черновик изменился, но обновить отображение не удалось."@,
            render_refresh_failed_user:
                "Черновик изменился, но читательский вид не удалось обновить."@,
            draft_updated_job: "Черновик успешно обновлен."@,
            draft_updated_user: "Черновик успешно обновлен."@,
            initial_draft_created: "Первый черновик создан."@,
        },
    }
}

/// The texts of the authoring flow in `language`.
pub fn localized_text(language: BookLanguage) -> (r: LocalizedAuthoringText)
    ensures
        r@ == texts_for(language),
{
    match language {
        BookLanguage::English => LocalizedAuthoringText {
            job_accepted: "Job accepted",
            job_running: "Job running",
            job_failed_to_start: "The writing job failed before it could start.",
            job_could_not_start: "The writing job could not be started. Please try again.",
            job_timed_out: "The writing job timed out.",
            job_timed_out_before_finish: "The writing job timed out before finishing.",
            job_failed: "The writing job failed.",
            job_failed_try_again: "The writing job failed. Please try again.",
            render_refresh_failed_job: "The draft changed, but render refresh failed.",
            render_refresh_failed_user: "The draft changed, but the reader view could not be refreshed.",
            draft_updated_job: "The draft was updated successfully.",
            draft_updated_user: "Draft updated successfully.",
            initial_draft_created: "Initial draft created.",
        },
        BookLanguage::Russian => LocalizedAuthoringText {
            job_accepted: "Задача принята",
            job_running: "Задача выполняется",
            job_failed_to_start: "Задачу написания не удалось запустить.",
            job_could_not_start: "Задачу написания не удалось запустить. Попробуйте еще раз.",
            job_timed_out: "Задача написания не завершилась вовремя.",
            job_timed_out_before_finish: "Задача написания не успела завершиться.",
            job_failed: "Задача написания завершилась с ошибкой.",
            job_failed_try_again: "Задача написания завершилась с ошибкой. Попробуйте еще раз.",
            render_refresh_failed_job: "Черновик изменился, но обновить отображение не удалось.",
            render_refresh_failed_user: "Черновик изменился, но читательский вид не удалось обновить.",
            draft_updated_job: "Черновик успешно обновлен.",
            draft_updated_user: "Черновик успешно обновлен.",
            initial_draft_created: "Первый черновик создан.",
        },
    }
}

/// The summary of a revision: the files it changed (or that none were detected), then
/// the agent's output when it printed any.
pub open spec fn revision_summary_spec(changed_files: Seq<Seq<char>>, stdout: Seq<char>) -> Seq<char> {
    let summary = if changed_files.len() == 0 {
        "Workspace updated with no detected file delta"@
    } else {
        "Updated files: "@ + join_seqs(changed_files, ", "@)
    };
    if trim_seq(stdout).len() == 0 {
        summary
    } else {
        summary + ". Executor stdout: "@ + trim_seq(stdout)
    }
}

/// The summary of a revision.
pub fn revision_summary(changed_files: &Vec<String>, outcome: &ExecutionOutcome) -> (r: String)
    ensures
        r@ == revision_summary_spec(text_views(changed_files@), outcome.stdout@),
{
    let mut out = if changed_files.len() == 0 {
        chars_of("Workspace updated with no detected file delta")
    } else {
        let mut words: Vec<Vec<char>> = Vec::new();
        let mut i: usize = 0;
        while i < changed_files.len()
            invariant
                i <= changed_files@.len(),
                views(words@) == text_views(changed_files@).take(i as int),
            decreases changed_files.len() - i,
        {
            let w = chars_of(changed_files[i].as_str());
            let ghost before = views(words@);
            words.push(w);
            assert(views(words@) =~= before.push(changed_files@[i as int]@));
            assert(text_views(changed_files@).take(i + 1) =~= text_views(changed_files@).take(
                i as int,
            ).push(changed_files@[i as int]@));
            i = i + 1;
        }
        assert(text_views(changed_files@).take(changed_files@.len() as int) =~= text_views(
            changed_files@,
        ));
        let sep = chars_of(", ");
        let joined = join_first(&words, words.len(), sep.as_slice());
        assert(views(words@).take(words@.len() as int) =~= views(words@));
        let mut s = chars_of("Updated files: ");
        push_all(&mut s, joined.as_slice());
        s
    };
    let t = trim(chars_of(outcome.stdout.as_str()).as_slice());
    if t.len() > 0 {
        push_str(&mut out, ". Executor stdout: ");
        push_all(&mut out, t.as_slice());
    }
    string_of(out.as_slice())
}

/// The answer when the conversation has no book yet.
pub fn no_book_response(message: &NormalizedMessage) -> (r: MessageApiResponse)
    ensures
        is_reply(r, *message, "Run init first so this conversation gets its own book workspace."@, None),
{
    reply(message, "Run init first so this conversation gets its own book workspace.", None)
}

/// The book an authoring request of conversation `conversation_id` works on, or, when the
/// conversation has no book yet, the answer telling the author to run init first.
pub fn authoring_target(db: &Database, conversation_id: &str, message: &NormalizedMessage) -> (r:
    Result<Book, MessageApiResponse>)
    requires
        db.well_formed(),
    ensures
        match book_of(*db, conversation_id@) {
            Some(b) => r matches Ok(x) && x@ == b,
            None => r matches Err(resp) && is_reply(
                resp,
                *message,
                "Run init first so this conversation gets its own book workspace."@,
                None,
            ),
        },
{
    match db.find_book_by_conversation(conversation_id) {
        Some(book) => Ok(book),
        None => Err(no_book_response(message)),
    }
}

/// What `init` does for conversation `conversation_id`.
pub enum InitPlan {
    /// The conversation already has this book: it is kept, and nothing is created.
    KeepBook(Book),
    /// The conversation has no book: one is created, with its workspace and first render.
    CreateBook,
}

/// Decides what `init` does: a conversation that has a book keeps it; one without gets a
/// new book.
pub fn plan_init(db: &Database, conversation_id: &str) -> (r: InitPlan)
    requires
        db.well_formed(),
    ensures
        match book_of(*db, conversation_id@) {
            Some(b) => r matches InitPlan::KeepBook(x) && x@ == b,
            None => r is CreateBook,
        },
{
    match db.find_book_by_conversation(conversation_id) {
        Some(book) => InitPlan::KeepBook(book),
        None => InitPlan::CreateBook,
    }
}

/// The answer when the conversation's workspace is not where its book says.
pub fn invalid_mapping_response(message: &NormalizedMessage) -> (r: MessageApiResponse)
    ensures
        is_reply(
            r,
            *message,
            "This conversation's workspace mapping is invalid. Re-run init for a clean workspace."@,
            None,
        ),
{
    reply(
        message,
        "This conversation's workspace mapping is invalid. Re-run init for a clean workspace.",
        None,
    )
}

/// The answer when an image of the message could not be saved.
pub fn image_save_failed_response(message: &NormalizedMessage, error: &str) -> (r:
    MessageApiResponse)
    ensures
        is_reply(
            r,
            *message,
            "The image attachment could not be saved for the book: "@ + error@,
            None,
        ),
{
    let mut v = chars_of("The image attachment could not be saved for the book: ");
    push_all(&mut v, chars_of(error).as_slice());
    let text = string_of(v.as_slice());
    reply(message, text.as_str(), None)
}

fn same_components(a: &Vec<Component>, b: &Vec<Component>) -> (r: bool)
    ensures
        r == (component_views(a@) == component_views(b@)),
{
    let ghost av = component_views(a@);
    let ghost bv = component_views(b@);
    if a.len() != b.len() {
        assert(av.len() != bv.len());
        return false;
    }
    let mut i: usize = 0;
    while i < a.len()
        invariant
            i <= a@.len() == b@.len(),
            av == component_views(a@),
            bv == component_views(b@),
            forall|k: int| 0 <= k < i ==> av[k] == bv[k],
        decreases a.len() - i,
    {
        let same = match (&a[i], &b[i]) {
            (Component::RootDir, Component::RootDir) => true,
            (Component::CurDir, Component::CurDir) => true,
            (Component::ParentDir, Component::ParentDir) => true,
            (Component::Normal(x), Component::Normal(y)) => chars_eq(x.as_slice(), y.as_slice()),
            _ => false,
        };
        assert(same == (av[i as int] == bv[i as int]));
        if !same {
            return false;
        }
        i = i + 1;
    }
    assert(av =~= bv);
    true
}

/// Whether two paths are the same path, compared component by component.
pub fn same_path(a: &str, b: &str) -> (r: bool)
    ensures
        r == (path_components(a@) == path_components(b@)),
{
    let ac = components(chars_of(a).as_slice());
    let bc = components(chars_of(b).as_slice());
    same_components(&ac, &bc)
}

/// Whether a conversation's workspace is where it should be: the workspace in use and the
/// one the book records are both the expected one.
pub fn workspace_mapping_ok(workspace: &str, expected_workspace: &str, book_workspace_path: &str) -> (r:
    bool)
    ensures
        r == (path_components(workspace@) == path_components(expected_workspace@)
            && path_components(book_workspace_path@) == path_components(expected_workspace@)),
{
    same_path(workspace, expected_workspace) && same_path(book_workspace_path, expected_workspace)
}

/// Opens the records of an authoring request: the book's session, a new authoring job
/// holding the prompt, accepted and then running (both at `now`).
pub fn start_authoring_job(
    db: &mut Database,
    conversation_id: &str,
    book_id: &str,
    message: &NormalizedMessage,
    prompt: String,
    language: BookLanguage,
    now: i64,
) -> (r: WritingJobStart)
    requires
        old(db).well_formed(),
        old(db).next_id < u64::MAX - 1,
    ensures
        final(db).well_formed(),
        final(db).books@ == old(db).books@,
        final(db).conversation_to_book@ == old(db).conversation_to_book@,
        final(db).revisions@ == old(db).revisions@,
        lookup(final(db).jobs@, r.job_id@) == Some(
            JobView {
                job_id: r.job_id@,
                book_id: book_id@,
                conversation_id: conversation_id@,
                session_id: r.session_id@,
                source_message_id: message.message_id@,
                status: JobStatus::Running,
                command_kind: CommandKind::Authoring,
                prompt_snapshot: prompt@,
                started_at: Some(now),
                finished_at: None,
                user_facing_message: Some(texts_for(language).job_running),
                changed_files: seq![],
                failure_reason: None,
            },
        ),
{
    let texts = localized_text(language);
    let session = db.open_session(conversation_id, book_id, message.timestamp);
    let job = db.create_job(
        book_id,
        conversation_id,
        session.session_id.as_str(),
        message.message_id.as_str(),
        CommandKind::Authoring,
        prompt,
    );
    let _ = db.update_job_status(
        job.job_id.as_str(),
        JobStatus::Accepted,
        Some(texts.job_accepted.to_string()),
        None,
        None,
        now,
    );
    let _ = db.update_job_status(
        job.job_id.as_str(),
        JobStatus::Running,
        Some(texts.job_running.to_string()),
        None,
        None,
        now,
    );
    WritingJobStart { job_id: job.job_id, session_id: session.session_id }
}

/// The job and session an authoring request runs under.
pub struct WritingJobStart {
    pub job_id: String,
    pub session_id: String,
}

/// How an authoring run ends for the author: it timed out, the agent failed, the draft
/// could not be rendered (with the reason), or it succeeded.
pub enum AuthoringVerdict {
    TimedOut,
    Failed,
    RenderFailed(Seq<char>),
    Succeeded,
}

/// How an authoring run ends, from the agent's outcome and, when it exited cleanly, the
/// render of the workspace.
pub open spec fn authoring_verdict(outcome: ExecutionOutcome, render: Option<Result<(), String>>) -> AuthoringVerdict {
    if outcome.timed_out {
        AuthoringVerdict::TimedOut
    } else if outcome.exit_code != Some(0i32) {
        AuthoringVerdict::Failed
    } else {
        match render {
            Some(Err(e)) => AuthoringVerdict::RenderFailed(e@),
            _ => AuthoringVerdict::Succeeded,
        }
    }
}

/// Whether the workspace is to be rendered after a run: when the agent neither timed out
/// nor failed.
pub fn needs_render(outcome: &ExecutionOutcome) -> (r: bool)
    ensures
        r == (!outcome.timed_out && outcome.exit_code == Some(0i32)),
{
    !outcome.timed_out && match outcome.exit_code {
        Some(c) => c == 0,
        None => false,
    }
}

/// The job `job_id` ended as `status` at `now` with the given message, changed files and
/// failure reason.
pub open spec fn job_ended(
    before: Database,
    after: Database,
    job_id: Seq<char>,
    status: JobStatus,
    message: Seq<char>,
    changed_files: Seq<Seq<char>>,
    failure: Option<Seq<char>>,
    now: i64,
) -> bool {
    match lookup(before.jobs@, job_id) {
        Some(j) => lookup(after.jobs@, job_id) == Some(
            job_after_update(j, status, Some(message), Some(changed_files), failure, now),
        ),
        None => false,
    }
}

fn end_job(
    db: &mut Database,
    metrics: &mut Metrics,
    job_id: &str,
    status: JobStatus,
    job_message: &str,
    changed_files: Vec<String>,
    failure: Option<String>,
    message: &NormalizedMessage,
    user_text: &str,
    now: i64,
) -> (r: Result<MessageApiResponse, RepositoryError>)
    requires
        old(db).well_formed(),
    ensures
        final(db).well_formed(),
        final(db).books@ == old(db).books@,
        final(db).revisions@ == old(db).revisions@,
        final(db).conversation_to_book@ == old(db).conversation_to_book@,
        final(db).next_id == old(db).next_id,
        final(metrics).failed_jobs == bump(old(metrics).failed_jobs),
        final(metrics).successful_jobs == old(metrics).successful_jobs,
        final(metrics).inbound_messages == old(metrics).inbound_messages,
        lookup(old(db).jobs@, job_id@) is None ==> r matches Err(RepositoryError::MissingJob),
        lookup(old(db).jobs@, job_id@) is Some ==> (r matches Ok(x) && is_reply(
            x,
            *message,
            user_text@,
            None,
        )) && job_ended(
            *old(db),
            *final(db),
            job_id@,
            status,
            job_message@,
            text_views(changed_files@),
            crate::models::opt_text(failure),
            now,
        ),
{
    metrics.inc_failure();
    match db.update_job_status(
        job_id,
        status,
        Some(job_message.to_string()),
        Some(changed_files),
        failure,
        now,
    ) {
        Err(e) => Err(e),
        Ok(_) => Ok(reply(message, user_text, None)),
    }
}

/// Records that the agent could not be started for job `job_id` and answers the author.
pub fn launcher_failure(
    db: &mut Database,
    metrics: &mut Metrics,
    job_id: &str,
    language: BookLanguage,
    changed_files: Vec<String>,
    error: &str,
    message: &NormalizedMessage,
    now: i64,
) -> (r: Result<MessageApiResponse, RepositoryError>)
    requires
        old(db).well_formed(),
    ensures
        final(db).well_formed(),
        final(metrics).failed_jobs == bump(old(metrics).failed_jobs),
        final(db).revisions@ == old(db).revisions@,
        final(db).books@ == old(db).books@,
        lookup(old(db).jobs@, job_id@) is None ==> r matches Err(RepositoryError::MissingJob),
        lookup(old(db).jobs@, job_id@) is Some ==> (r matches Ok(x) && is_reply(
            x,
            *message,
            texts_for(language).job_could_not_start,
            None,
        )) && job_ended(
            *old(db),
            *final(db),
            job_id@,
            JobStatus::Failed,
            texts_for(language).job_failed_to_start,
            text_views(changed_files@),
            Some("launcher failure: "@ + error@),
            now,
        ),
{
    let texts = localized_text(language);
    let mut reason = chars_of("launcher failure: ");
    push_all(&mut reason, chars_of(error).as_slice());
    end_job(
        db,
        metrics,
        job_id,
        JobStatus::Failed,
        texts.job_failed_to_start,
        changed_files,
        Some(string_of(reason.as_slice())),
        message,
        texts.job_could_not_start,
        now,
    )
}

/// Stores a ready revision of book `book_id` made by job `job_id` at `now`.
pub fn persist_revision(db: &mut Database, book_id: &str, job_id: &str, summary: &str, now: i64) -> (r:
    crate::database::Revision)
    requires
        old(db).well_formed(),
        old(db).next_id < u64::MAX,
    ensures
        final(db).well_formed(),
        final(db).next_id == old(db).next_id + 1,
        r@.revision_id == id_text("revision"@, final(db).next_id as nat),
        lookup(final(db).revisions@, r@.revision_id) == Some(r@),
        r@.book_id == book_id@ && r@.job_id == job_id@ && r@.summary == summary@,
        r@.created_at == now && r@.render_status == RevisionRenderStatus::Ready,
        forall|k: Seq<char>|
            #[trigger] lookup(final(db).revisions@, k) == if k == r@.revision_id {
                Some(r@)
            } else {
                lookup(old(db).revisions@, k)
            },
        lookup(old(db).revisions@, r@.revision_id) is None ==> final(db).revisions@.len()
            == old(db).revisions@.len() + 1,
        lookup(old(db).revisions@, r@.revision_id) is Some ==> final(db).revisions@.len()
            == old(db).revisions@.len(),
        final(db).jobs@ == old(db).jobs@,
        final(db).books@ == old(db).books@,
{
    db.create_revision(book_id, job_id, summary.to_string(), RevisionRenderStatus::Ready, now)
}

/// The id that the next revision stored in `db` gets.
pub open spec fn new_revision_id(db: Database) -> Seq<char> {
    id_text("revision"@, (db.next_id + 1) as nat)
}

/// Finishes an authoring run: records how job `job_id` ended and answers the author. A
/// timed-out or failed run, or a draft that does not render, fails the job; otherwise a
/// revision is stored, the book is touched, the job succeeds and the author gets a reader
/// link valid for an hour from `issued_at` (seconds since the Unix epoch). `render` is
/// the render's result, given whenever the run neither timed out nor failed.
pub fn finalize_authoring(
    db: &mut Database,
    metrics: &mut Metrics,
    book_id: &str,
    job_id: &str,
    message: &NormalizedMessage,
    language: BookLanguage,
    outcome: &ExecutionOutcome,
    changed_files: Vec<String>,
    render: Option<Result<(), String>>,
    now: i64,
    reader_token_secret: &str,
    frontend_base_url: &str,
    issued_at: i64,
) -> (r: Result<MessageApiResponse, RepositoryError>)
    requires
        old(db).well_formed(),
        old(db).next_id < u64::MAX,
        !outcome.timed_out && outcome.exit_code == Some(0i32) ==> render is Some,
        -8_334_601_315_200 <= issued_at + 3600 <= 8_210_266_876_799,
    ensures
        final(db).well_formed(),
        lookup(old(db).jobs@, job_id@) is None ==> r matches Err(RepositoryError::MissingJob),
        lookup(old(db).jobs@, job_id@) is Some ==> match authoring_verdict(*outcome, render) {
            AuthoringVerdict::TimedOut => {
                &&& r matches Ok(x) && is_reply(
                    x,
                    *message,
                    texts_for(language).job_timed_out_before_finish,
                    None,
                )
                &&& job_ended(
                    *old(db),
                    *final(db),
                    job_id@,
                    JobStatus::TimedOut,
                    texts_for(language).job_timed_out,
                    text_views(changed_files@),
                    Some(outcome.stderr@),
                    now,
                )
                &&& final(metrics).failed_jobs == bump(old(metrics).failed_jobs)
                &&& final(db).revisions@ == old(db).revisions@
                &&& final(db).books@ == old(db).books@
            },
            AuthoringVerdict::Failed => {
                &&& r matches Ok(x) && is_reply(
                    x,
                    *message,
                    texts_for(language).job_failed_try_again,
                    None,
                )
                &&& job_ended(
                    *old(db),
                    *final(db),
                    job_id@,
                    JobStatus::Failed,
                    texts_for(language).job_failed,
                    text_views(changed_files@),
                    Some(outcome.stderr@),
                    now,
                )
                &&& final(metrics).failed_jobs == bump(old(metrics).failed_jobs)
                &&& final(db).revisions@ == old(db).revisions@
                &&& final(db).books@ == old(db).books@
            },
            AuthoringVerdict::RenderFailed(e) => {
                &&& r matches Ok(x) && is_reply(
                    x,
                    *message,
                    texts_for(language).render_refresh_failed_user,
                    None,
                )
                &&& job_ended(
                    *old(db),
                    *final(db),
                    job_id@,
                    JobStatus::Failed,
                    texts_for(language).render_refresh_failed_job,
                    text_views(changed_files@),
                    Some("render refresh failure: "@ + e),
                    now,
                )
                &&& final(metrics).failed_jobs == bump(old(metrics).failed_jobs)
                &&& final(db).revisions@ == old(db).revisions@
                &&& final(db).books@ == old(db).books@
            },
            AuthoringVerdict::Succeeded => {
                &&& r matches Ok(x) && is_reply(
                    x,
                    *message,
                    texts_for(language).draft_updated_user,
                    Some(
                        reader_url_spec(
                            frontend_base_url@,
                            token_spec(reader_token_secret@, book_id@, issued_at + 3600),
                        ),
                    ),
                )
                &&& job_ended(
                    *old(db),
                    *final(db),
                    job_id@,
                    JobStatus::Succeeded,
                    texts_for(language).draft_updated_job,
                    text_views(changed_files@),
                    None,
                    now,
                )
                &&& forall|k: Seq<char>|
                    #[trigger] lookup(final(db).revisions@, k) == if k == new_revision_id(*old(db)) {
                        Some(
                            RevisionView {
                                revision_id: new_revision_id(*old(db)),
                                book_id: book_id@,
                                job_id: job_id@,
                                summary: revision_summary_spec(
                                    text_views(changed_files@),
                                    outcome.stdout@,
                                ),
                                created_at: now,
                                render_status: RevisionRenderStatus::Ready,
                            },
                        )
                    } else {
                        lookup(old(db).revisions@, k)
                    }
                &&& lookup(old(db).revisions@, new_revision_id(*old(db))) is None
                    ==> final(db).revisions@.len() == old(db).revisions@.len() + 1
                &&& forall|k: Seq<char>|
                    #[trigger] lookup(final(db).books@, k) == if k == book_id@ {
                        match lookup(old(db).books@, k) {
                            Some(b) => Some(BookView { updated_at: now, ..b }),
                            None => None,
                        }
                    } else {
                        lookup(old(db).books@, k)
                    }
                &&& final(metrics).successful_jobs == bump(old(metrics).successful_jobs)
            },
        },
{
    let texts = localized_text(language);
    if outcome.timed_out {
        return end_job(
            db,
            metrics,
            job_id,
            JobStatus::TimedOut,
            texts.job_timed_out,
            changed_files,
            Some(outcome.stderr.clone()),
            message,
            texts.job_timed_out_before_finish,
            now,
        );
    }
    let clean_exit = match outcome.exit_code {
        Some(c) => c == 0,
        None => false,
    };
    if !clean_exit {
        return end_job(
            db,
            metrics,
            job_id,
            JobStatus::Failed,
            texts.job_failed,
            changed_files,
            Some(outcome.stderr.clone()),
            message,
            texts.job_failed_try_again,
            now,
        );
    }
    match &render {
        Some(Err(e)) => {
            let mut reason = chars_of("render refresh failure: ");
            push_all(&mut reason, chars_of(e.as_str()).as_slice());
            return end_job(
                db,
                metrics,
                job_id,
                JobStatus::Failed,
                texts.render_refresh_failed_job,
                changed_files,
                Some(string_of(reason.as_slice())),
                message,
                texts.render_refresh_failed_user,
                now,
            );
        },
        _ => {},
    }
    let summary = revision_summary(&changed_files, outcome);
    let ghost before_jobs = db.jobs@;
    let ghost start_db = *db;
    let rev = persist_revision(db, book_id, job_id, summary.as_str(), now);
    let ghost rev_db = *db;
    db.touch_book(book_id, now);
    assert(db.revisions@ == rev_db.revisions@);
    assert(rev@.revision_id == new_revision_id(start_db));
    metrics.inc_success();
    match db.update_job_status(
        job_id,
        JobStatus::Succeeded,
        Some(texts.draft_updated_job.to_string()),
        Some(changed_files),
        None,
        now,
    ) {
        Err(e) => {
            return Err(e);
        },
        Ok(_) => {},
    }
    let token = issue_token_at(reader_token_secret, book_id, 1, issued_at);
    let link = reader_url(frontend_base_url, token.as_str());
    Ok(reply(message, texts.draft_updated_user, Some(link)))
}

/// Records the first render of a new book's workspace: a job for the `init` message that
/// succeeded at `now` with no changed files. Gives the job's id; the caller renders the
/// workspace and then stores the initial revision.
pub fn seed_initial_records(
    db: &mut Database,
    book_id: &str,
    conversation_id: &str,
    message_id: &str,
    language: BookLanguage,
    now: i64,
) -> (r: String)
    requires
        old(db).well_formed(),
        old(db).next_id < u64::MAX - 1,
    ensures
        final(db).well_formed(),
        final(db).books@ == old(db).books@,
        final(db).revisions@ == old(db).revisions@,
        final(db).conversation_to_book@ == old(db).conversation_to_book@,
        lookup(final(db).jobs@, r@) matches Some(j) && {
            &&& j.job_id == r@
            &&& j.book_id == book_id@
            &&& j.conversation_id == conversation_id@
            &&& j.source_message_id == message_id@
            &&& j.command_kind == CommandKind::Init
            &&& j.prompt_snapshot == "Initial workspace render"@
            &&& j.status == JobStatus::Succeeded
            &&& j.started_at == Some(now)
            &&& j.finished_at == Some(now)
            &&& j.user_facing_message == Some(texts_for(language).initial_draft_created)
            &&& j.changed_files.len() == 0
            &&& j.failure_reason is None
        },
{
    let texts = localized_text(language);
    let session = db.open_session(conversation_id, book_id, now);
    let job = db.create_job(
        book_id,
        conversation_id,
        session.session_id.as_str(),
        message_id,
        CommandKind::Init,
        "Initial workspace render".to_string(),
    );
    let _ = db.update_job_status(
        job.job_id.as_str(),
        JobStatus::Succeeded,
        Some(texts.initial_draft_created.to_string()),
        Some(Vec::new()),
        None,
        now,
    );
    proof {
        assert(text_views(Seq::<String>::empty()) =~= Seq::<Seq<char>>::empty());
    }
    job.job_id
}

} // verus!

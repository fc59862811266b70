//! What the service answers an inbound messenger message, decided from the message and
//! the records; and the counters it keeps of its work.
use vstd::prelude::*;

use crate::database::{Database, book_of, lookup};
use crate::links::{issue_token_at, token_spec};
use crate::models::{BookStatus, JobStatus, NormalizedMessage, Notification, Provider};
use crate::text::{chars_of, decimal, decimal_u64, push_all, push_str, string_of};

verus! {

broadcast use vstd::string::group_string_axioms;

/// The service's answer to an inbound message.
#[derive(Debug, Clone)]
pub struct MessageApiResponse {
    pub handled: bool,
    pub ignored: bool,
    pub notification: Option<Notification>,
}

/// Counters of the service's work, exported for monitoring. Each wraps around on
/// overflow. The service keeps one value and every part of it counts through a reference
/// to that value, so every increment shows in `render`; the type has no `Clone` or
/// `Copy`, so no copy can count apart from it.
#[derive(Debug, Default)]
pub struct Metrics {
    pub inbound_messages: u64,
    pub successful_jobs: u64,
    pub failed_jobs: u64,
}

/// `n + 1`, wrapping around at `u64::MAX`.
pub open spec fn bump(n: u64) -> u64 {
    if n == u64::MAX {
        0
    } else {
        (n + 1) as u64
    }
}

impl Metrics {
    /// Counts an inbound message.
    pub fn inc_inbound(&mut self)
        ensures
            final(self).inbound_messages == bump(old(self).inbound_messages),
            final(self).successful_jobs == old(self).successful_jobs,
            final(self).failed_jobs == old(self).failed_jobs,
    {
        self.inbound_messages = self.inbound_messages.wrapping_add(1);
    }

    /// Counts a job that succeeded.
    pub fn inc_success(&mut self)
        ensures
            final(self).successful_jobs == bump(old(self).successful_jobs),
            final(self).inbound_messages == old(self).inbound_messages,
            final(self).failed_jobs == old(self).failed_jobs,
    {
        self.successful_jobs = self.successful_jobs.wrapping_add(1);
    }

    /// Counts a job that failed.
    pub fn inc_failure(&mut self)
        ensures
            final(self).failed_jobs == bump(old(self).failed_jobs),
            final(self).inbound_messages == old(self).inbound_messages,
            final(self).successful_jobs == old(self).successful_jobs,
    {
        self.failed_jobs = self.failed_jobs.wrapping_add(1);
    }

    /// The counters in the plain-text exposition format.
    pub fn render(&self) -> (r: String)
        ensures
            r@ == "inbound_messages "@ + decimal(self.inbound_messages as nat)
                + "\nsuccessful_jobs "@ + decimal(self.successful_jobs as nat) + "\nfailed_jobs "@
                + decimal(self.failed_jobs as nat) + "\n"@,
    {
        let mut v = chars_of("inbound_messages ");
        push_all(&mut v, decimal_u64(self.inbound_messages).as_slice());
        push_str(&mut v, "\nsuccessful_jobs ");
        push_all(&mut v, decimal_u64(self.successful_jobs).as_slice());
        push_str(&mut v, "\nfailed_jobs ");
        push_all(&mut v, decimal_u64(self.failed_jobs).as_slice());
        push_str(&mut v, "\n");
        string_of(v.as_slice())
    }
}

/// The longest message text, in bytes, that is processed.
pub const MAX_MESSAGE_BYTES: usize = 4000;

/// A handled answer that sends `text` back to the message's chat.
pub open spec fn is_reply(r: MessageApiResponse, m: NormalizedMessage, text: Seq<char>, link: Option<
    Seq<char>,
>) -> bool {
    &&& r.handled
    &&& !r.ignored
    &&& r.notification matches Some(n) && {
        &&& n.provider == m.provider
        &&& n.provider_chat_id@ == m.provider_chat_id@
        &&& n.message@ == text
        &&& crate::models::opt_text(n.reader_url) == link
    }
}

/// The answer that a message is not for the service.
pub open spec fn is_ignored(r: MessageApiResponse) -> bool {
    !r.handled && r.ignored && r.notification is None
}

/// A handled answer that sends `text` (and maybe a link) back to the message's chat.
pub fn reply(message: &NormalizedMessage, text: &str, reader_url: Option<String>) -> (r:
    MessageApiResponse)
    ensures
        is_reply(r, *message, text@, crate::models::opt_text(reader_url)),
{
    MessageApiResponse {
        handled: true,
        ignored: false,
        notification: Some(
            Notification {
                provider: message.provider,
                provider_chat_id: message.provider_chat_id.clone(),
                message: text.to_string(),
                reader_url,
            },
        ),
    }
}

/// The answer that a message is not for the service.
pub fn ignored() -> (r: MessageApiResponse)
    ensures
        is_ignored(r),
{
    MessageApiResponse { handled: false, ignored: true, notification: None }
}

/// The first checks on an inbound message: one longer than 4000 bytes is answered that it
/// is too large, and one not addressed to the bot is ignored. `None` when the message
/// goes on to be processed.
pub fn message_gate(message: &NormalizedMessage) -> (r: Option<MessageApiResponse>)
    ensures
        vstd::utf8::encode_utf8(message.raw_text@).len() > 4000 ==> (r matches Some(x)
            && is_reply(x, *message, "Message too large for processing."@, None)),
        vstd::utf8::encode_utf8(message.raw_text@).len() <= 4000 && !message.mentions_bot ==> (
        r matches Some(x) && is_ignored(x)),
        vstd::utf8::encode_utf8(message.raw_text@).len() <= 4000 && message.mentions_bot ==> r is None,
{
    if message.raw_text.as_str().as_bytes().len() > MAX_MESSAGE_BYTES {
        return Some(reply(message, "Message too large for processing.", None));
    }
    if !message.mentions_bot {
        return Some(ignored());
    }
    None
}

/// The title a conversation is created with: its chat, then ` conversation`.
pub fn conversation_title(message: &NormalizedMessage) -> (r: String)
    ensures
        r@ == message.provider_chat_id@ + " conversation"@,
{
    let mut v = chars_of(message.provider_chat_id.as_str());
    push_str(&mut v, " conversation");
    string_of(v.as_slice())
}

/// The bot name that commands address on a provider: the Telegram bot's user name, the
/// MAX bot's handle, and no name in the web app.
pub fn bot_name_for<'a>(provider: Provider, telegram_bot_username: &'a str, max_bot_handle: &'a str) -> (r:
    &'a str)
    ensures
        provider == Provider::Telegram ==> r@ == telegram_bot_username@,
        provider == Provider::Max ==> r@ == max_bot_handle@,
        provider == Provider::App ==> r@ == ""@,
{
    match provider {
        Provider::Telegram => telegram_bot_username,
        Provider::Max => max_bot_handle,
        Provider::App => "",
    }
}

/// The name a book status is shown with.
pub open spec fn book_status_name(s: BookStatus) -> Seq<char> {
    match s {
        BookStatus::Active => "Active"@,
        BookStatus::Archived => "Archived"@,
        BookStatus::Blocked => "Blocked"@,
    }
}

/// The name a job status is shown with.
pub open spec fn job_status_name(s: JobStatus) -> Seq<char> {
    match s {
        JobStatus::Received => "Received"@,
        JobStatus::Accepted => "Accepted"@,
        JobStatus::Running => "Running"@,
        JobStatus::Succeeded => "Succeeded"@,
        JobStatus::Failed => "Failed"@,
        JobStatus::TimedOut => "TimedOut"@,
        JobStatus::Cancelled => "Cancelled"@,
    }
}

/// Statuses are shown by their variant names, as `Debug` prints them, so the status line
/// tells every job status and every book status apart: different statuses are never shown
/// with the same name.
pub proof fn law_status_names_are_variant_names(a: JobStatus, b: JobStatus, x: BookStatus, y: BookStatus)
    ensures
        job_status_name(JobStatus::Received) == "Received"@,
        job_status_name(JobStatus::Accepted) == "Accepted"@,
        job_status_name(JobStatus::Running) == "Running"@,
        job_status_name(JobStatus::Succeeded) == "Succeeded"@,
        job_status_name(JobStatus::Failed) == "Failed"@,
        job_status_name(JobStatus::TimedOut) == "TimedOut"@,
        job_status_name(JobStatus::Cancelled) == "Cancelled"@,
        book_status_name(BookStatus::Active) == "Active"@,
        book_status_name(BookStatus::Archived) == "Archived"@,
        book_status_name(BookStatus::Blocked) == "Blocked"@,
        job_status_name(a) == job_status_name(b) ==> a == b,
        book_status_name(x) == book_status_name(y) ==> x == y,
{
    reveal_strlit("Received");
    reveal_strlit("Accepted");
    reveal_strlit("Running");
    reveal_strlit("Succeeded");
    reveal_strlit("Failed");
    reveal_strlit("TimedOut");
    reveal_strlit("Cancelled");
    reveal_strlit("Active");
    reveal_strlit("Archived");
    reveal_strlit("Blocked");
    if job_status_name(a) == job_status_name(b) && a != b {
        let na = job_status_name(a);
        let nb = job_status_name(b);
        assert(na.len() != nb.len() || na[0] != nb[0] || na[1] != nb[1] || na[2] != nb[2]);
    }
    if book_status_name(x) == book_status_name(y) && x != y {
        let nx = book_status_name(x);
        let ny = book_status_name(y);
        assert(nx.len() != ny.len() || nx[0] != ny[0] || nx[1] != ny[1]);
    }
}

fn book_status_text(s: BookStatus) -> (r: &'static str)
    ensures
        r@ == book_status_name(s),
{
    match s {
        BookStatus::Active => "Active",
        BookStatus::Archived => "Archived",
        BookStatus::Blocked => "Blocked",
    }
}

fn job_status_text(s: JobStatus) -> (r: &'static str)
    ensures
        r@ == job_status_name(s),
{
    match s {
        JobStatus::Received => "Received",
        JobStatus::Accepted => "Accepted",
        JobStatus::Running => "Running",
        JobStatus::Succeeded => "Succeeded",
        JobStatus::Failed => "Failed",
        JobStatus::TimedOut => "TimedOut",
        JobStatus::Cancelled => "Cancelled",
    }
}

/// The status line of a book: its status, its latest revision and its latest job.
pub open spec fn status_text(
    book: BookStatus,
    revision_id: Option<Seq<char>>,
    job: Option<JobStatus>,
) -> Seq<char> {
    "Book status: "@ + book_status_name(book) + ". Latest revision: "@ + match revision_id {
        Some(r) => r,
        None => "none"@,
    } + ". Latest job: "@ + match job {
        Some(j) => job_status_name(j),
        None => "none"@,
    } + "."@
}

/// The status line of a book.
pub fn status_message(book: BookStatus, revision_id: Option<&str>, job: Option<JobStatus>) -> (r:
    String)
    ensures
        r@ == status_text(book, crate::html::opt_str_view(revision_id), job),
{
    let mut v = chars_of("Book status: ");
    push_str(&mut v, book_status_text(book));
    push_str(&mut v, ". Latest revision: ");
    match revision_id {
        Some(r) => push_str(&mut v, r),
        None => push_str(&mut v, "none"),
    }
    push_str(&mut v, ". Latest job: ");
    match job {
        Some(j) => push_str(&mut v, job_status_text(j)),
        None => push_str(&mut v, "none"),
    }
    push_str(&mut v, ".");
    string_of(v.as_slice())
}

/// How long, in hours, the links that `init` and `status` hand out stay valid.
pub const CHAT_LINK_TTL_HOURS: i64 = 720;

/// The reader link sent in chat replies: the frontend base URL as configured, then
/// `/reader/` and the token.
pub fn chat_reader_link(frontend_base_url: &str, token: &str) -> (r: String)
    ensures
        r@ == frontend_base_url@ + "/reader/"@ + token@,
{
    let mut v = chars_of(frontend_base_url);
    push_str(&mut v, "/reader/");
    push_all(&mut v, chars_of(token).as_slice());
    string_of(v.as_slice())
}

/// Whether `issued_at` (seconds since the Unix epoch) is an instant for which a chat
/// link can be issued.
pub open spec fn link_time_ok(issued_at: i64) -> bool {
    -8_334_601_315_200 <= issued_at + 720 * 3600 <= 8_210_266_876_799
}

/// Whether `rev` names a most recent revision of book `book_id` (`None` when it has
/// none).
pub open spec fn is_latest_revision_id(db: Database, book_id: Seq<char>, rev: Option<Seq<char>>) -> bool {
    match rev {
        None => forall|k: int| 0 <= k < db.revisions@.len() ==> (#[trigger] db.revisions@[k]).book_id@ != book_id,
        Some(id) => exists|i: int|
            0 <= i < db.revisions@.len() && (#[trigger] db.revisions@[i]).book_id@ == book_id
                && db.revisions@[i].revision_id@ == id && forall|k: int|
                0 <= k < db.revisions@.len() && (#[trigger] db.revisions@[k]).book_id@ == book_id
                    ==> db.revisions@[k].created_at <= db.revisions@[i].created_at,
    }
}

/// Whether `job` is the status of a most recently started job of book `book_id` (`None`
/// when it has none).
pub open spec fn is_latest_job_status(db: Database, book_id: Seq<char>, job: Option<JobStatus>) -> bool {
    match job {
        None => forall|k: int| 0 <= k < db.jobs@.len() ==> (#[trigger] db.jobs@[k]).book_id@ != book_id,
        Some(s) => exists|i: int|
            0 <= i < db.jobs@.len() && (#[trigger] db.jobs@[i]).book_id@ == book_id
                && db.jobs@[i].status == s && forall|k: int|
                0 <= k < db.jobs@.len() && (#[trigger] db.jobs@[k]).book_id@ == book_id
                    ==> crate::database::opt_instant_le(db.jobs@[k].started_at, db.jobs@[i].started_at),
    }
}

/// The answer to `status`: the book's status line and a fresh reader link, or a note
/// that the conversation has no book yet.
pub fn status_flow(
    db: &Database,
    conversation_id: &str,
    message: &NormalizedMessage,
    reader_token_secret: &str,
    frontend_base_url: &str,
    issued_at: i64,
) -> (r: MessageApiResponse)
    requires
        db.well_formed(),
        link_time_ok(issued_at),
    ensures
        match book_of(*db, conversation_id@) {
            None => is_reply(
                r,
                *message,
                "No book exists for this conversation yet. Run init first."@,
                None,
            ),
            Some(b) => r.handled && !r.ignored && (r.notification matches Some(n) && {
                &&& n.provider == message.provider
                &&& n.provider_chat_id@ == message.provider_chat_id@
                &&& crate::models::opt_text(n.reader_url) == Some(
                    frontend_base_url@ + "/reader/"@ + token_spec(
                        reader_token_secret@,
                        b.book_id,
                        issued_at + 720 * 3600,
                    ),
                )
                &&& exists|rev: Option<Seq<char>>, job: Option<JobStatus>|
                    is_latest_revision_id(*db, b.book_id, rev) && is_latest_job_status(
                        *db,
                        b.book_id,
                        job,
                    ) && n.message@ == #[trigger] status_text(b.status, rev, job)
            }),
        },
{
    match db.find_book_by_conversation(conversation_id) {
        None => reply(message, "No book exists for this conversation yet. Run init first.", None),
        Some(book) => {
            let revision = db.latest_revision_for_book(book.book_id.as_str());
            let job = db.latest_job_for_book(book.book_id.as_str());
            let rev_id = match &revision {
                Some(r) => Some(r.revision_id.as_str()),
                None => None,
            };
            let job_status = match &job {
                Some(j) => Some(j.status),
                None => None,
            };
            let text = status_message(book.status, rev_id, job_status);
            let token = issue_token_at(
                reader_token_secret,
                book.book_id.as_str(),
                CHAT_LINK_TTL_HOURS,
                issued_at,
            );
            let link = chat_reader_link(frontend_base_url, token.as_str());
            reply(message, text.as_str(), Some(link))
        },
    }
}

/// The answer to `init` once the conversation has its book: a note that the workspace
/// is ready and a reader link for the book.
pub fn init_reply(
    message: &NormalizedMessage,
    book_id: &str,
    reader_token_secret: &str,
    frontend_base_url: &str,
    issued_at: i64,
) -> (r: MessageApiResponse)
    requires
        link_time_ok(issued_at),
    ensures
        is_reply(
            r,
            *message,
            "Book workspace is ready for this conversation."@,
            Some(
                frontend_base_url@ + "/reader/"@ + token_spec(
                    reader_token_secret@,
                    book_id@,
                    issued_at + 720 * 3600,
                ),
            ),
        ),
{
    let token = issue_token_at(reader_token_secret, book_id, CHAT_LINK_TTL_HOURS, issued_at);
    let link = chat_reader_link(frontend_base_url, token.as_str());
    reply(message, "Book workspace is ready for this conversation.", Some(link))
}

} // verus!
